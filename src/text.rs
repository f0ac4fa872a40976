//! Character-level helpers: numbers, searching, splitting into lines and words.
use vstd::prelude::*;
use vstd::string::*;

verus! {

/// A character that `char::is_whitespace` accepts.
pub open spec fn is_space(c: char) -> bool {
    c == ' ' || c == '\t' || c == '\n' || c == '\r' || c == '\x0B' || c == '\x0C' || c
        == '\u{85}' || c == '\u{A0}' || c == '\u{1680}' || ('\u{2000}' <= c && c <= '\u{200A}')
        || c == '\u{2028}' || c == '\u{2029}' || c == '\u{202F}' || c == '\u{205F}' || c
        == '\u{3000}'
}

/// The digit value of a character in any radix up to 36; 36 for a non-digit.
pub open spec fn digit_val(c: char) -> nat {
    if '0' <= c && c <= '9' {
        (c as u32 - '0' as u32) as nat
    } else if 'a' <= c && c <= 'z' {
        (c as u32 - 'a' as u32 + 10) as nat
    } else if 'A' <= c && c <= 'Z' {
        (c as u32 - 'A' as u32 + 10) as nat
    } else {
        36
    }
}

pub open spec fn all_digits(s: Seq<char>, radix: nat) -> bool {
    forall|i: int| 0 <= i < s.len() ==> digit_val(#[trigger] s[i]) < radix
}

/// The number that a string of digits denotes, most significant first.
pub open spec fn digits_value(s: Seq<char>, radix: nat) -> nat
    decreases s.len(),
{
    if s.len() == 0 {
        0
    } else {
        digits_value(s.drop_last(), radix) * radix + digit_val(s.last())
    }
}

/// The digits of an unsigned number in text, after an optional leading `+`.
pub open spec fn unsigned_body(s: Seq<char>) -> Seq<char> {
    if s.len() > 0 && s[0] == '+' {
        s.drop_first()
    } else {
        s
    }
}

/// What `from_str_radix` of an unsigned integer type whose largest value is `max` gives.
pub open spec fn parse_unsigned(s: Seq<char>, radix: nat, max: nat) -> Option<nat> {
    let b = unsigned_body(s);
    if b.len() > 0 && all_digits(b, radix) && digits_value(b, radix) <= max {
        Some(digits_value(b, radix))
    } else {
        None
    }
}

/// The lowercase digit character for a value below 16.
pub open spec fn digit_char(d: nat) -> char {
    if d < 10 {
        ((d + '0' as u32) as u32) as char
    } else {
        ((d - 10 + 'a' as u32) as u32) as char
    }
}

/// An unsigned number written in the given radix, without leading zeros.
pub open spec fn radix_text(n: nat, radix: nat) -> Seq<char>
    decreases n
    via radix_text_decreases
{
    if radix < 2 || n < radix {
        seq![digit_char(n)]
    } else {
        radix_text(n / radix, radix).push(digit_char(n % radix))
    }
}

#[via_fn]
proof fn radix_text_decreases(n: nat, radix: nat) {
    if !(radix < 2 || n < radix) {
        assert(n / radix < n) by (nonlinear_arith)
            requires
                radix >= 2,
                n >= radix,
        ;
    }
}

pub open spec fn dec_text(n: nat) -> Seq<char> {
    radix_text(n, 10)
}

pub open spec fn occurs_at(s: Seq<char>, i: int, pat: Seq<char>) -> bool {
    0 <= i && i + pat.len() <= s.len() && s.subrange(i, i + pat.len()) == pat
}

/// The first place at or after `i` where `pat` occurs.
pub open spec fn find_from(s: Seq<char>, pat: Seq<char>, i: int) -> Option<int>
    decreases s.len() + 1 - i,
{
    if i < 0 || i + pat.len() > s.len() {
        None
    } else if occurs_at(s, i, pat) {
        Some(i)
    } else {
        find_from(s, pat, i + 1)
    }
}

/// The first place where `pat` occurs, as `str::find` gives it.
pub open spec fn find(s: Seq<char>, pat: Seq<char>) -> Option<int> {
    find_from(s, pat, 0)
}

/// The last place at or before `i` where `pat` occurs.
pub open spec fn rfind_from(s: Seq<char>, pat: Seq<char>, i: int) -> Option<int>
    decreases i + 1,
{
    if i < 0 {
        None
    } else if occurs_at(s, i, pat) {
        Some(i)
    } else {
        rfind_from(s, pat, i - 1)
    }
}

/// The last place where `pat` occurs, as `str::rfind` gives it.
pub open spec fn rfind(s: Seq<char>, pat: Seq<char>) -> Option<int> {
    rfind_from(s, pat, s.len() - pat.len())
}

pub open spec fn contains(s: Seq<char>, pat: Seq<char>) -> bool {
    find(s, pat) is Some
}

/// The pieces between separators, empty pieces included, as `str::split` gives them.
pub open spec fn split_on(s: Seq<char>, sep: char) -> Seq<Seq<char>>
    decreases s.len(),
{
    if s.len() == 0 {
        seq![Seq::<char>::empty()]
    } else {
        let w = split_on(s.drop_last(), sep);
        if s.last() == sep {
            w.push(Seq::<char>::empty())
        } else {
            w.update(w.len() - 1, w.last().push(s.last()))
        }
    }
}

pub open spec fn strip_cr(s: Seq<char>) -> Seq<char> {
    if s.len() > 0 && s.last() == '\r' {
        s.drop_last()
    } else {
        s
    }
}

/// The lines of a text, as `str::lines` gives them.
pub open spec fn lines(s: Seq<char>) -> Seq<Seq<char>> {
    let p = split_on(s, '\n');
    let q = if p.last().len() == 0 {
        p.drop_last()
    } else {
        p
    };
    q.map_values(|l: Seq<char>| strip_cr(l))
}

/// The maximal runs of non-space characters, as `str::split_whitespace` gives them.
pub open spec fn words(s: Seq<char>) -> Seq<Seq<char>>
    decreases s.len(),
{
    if s.len() == 0 {
        Seq::empty()
    } else {
        let w = words(s.drop_last());
        if is_space(s.last()) {
            w
        } else if s.len() >= 2 && !is_space(s[s.len() - 2]) {
            w.update(w.len() - 1, w.last().push(s.last()))
        } else {
            w.push(seq![s.last()])
        }
    }
}

pub open spec fn views(v: Seq<Vec<char>>) -> Seq<Seq<char>> {
    v.map_values(|x: Vec<char>| x@)
}


/// Relies on `String::from_iter`: the string holds the given characters in order.
#[verifier::external_body]
pub fn string_of(v: &Vec<char>) -> (r: String)
    ensures
        r@ == v@,
{
    String::from_iter(v.iter())
}

/// An owned copy of a string slice.
pub fn owned(lit: &str) -> (r: String)
    ensures
        r@ == lit@,
{
    string_of(&chars_of(lit))
}

/// The characters of a string.
pub fn chars_of(s: &str) -> (r: Vec<char>)
    ensures
        r@ == s@,
{
    let n = s.unicode_len();
    let mut r: Vec<char> = Vec::new();
    let mut i: usize = 0;
    while i < n
        invariant
            n == s@.len(),
            i <= n,
            r@ == s@.subrange(0, i as int),
        decreases n - i,
    {
        r.push(s.get_char(i));
        i = i + 1;
        assert(r@ =~= s@.subrange(0, i as int));
    }
    assert(r@ =~= s@);
    r
}

/// The characters of `v` from `lo` up to `hi`.
pub fn slice(v: &Vec<char>, lo: usize, hi: usize) -> (r: Vec<char>)
    requires
        lo <= hi <= v@.len(),
    ensures
        r@ == v@.subrange(lo as int, hi as int),
{
    let mut r: Vec<char> = Vec::new();
    let mut i: usize = lo;
    while i < hi
        invariant
            lo <= i <= hi <= v@.len(),
            r@ == v@.subrange(lo as int, i as int),
        decreases hi - i,
    {
        r.push(v[i]);
        i = i + 1;
        assert(r@ =~= v@.subrange(lo as int, i as int));
    }
    r
}

/// Whether the characters equal those of a literal.
pub fn eq_str(v: &Vec<char>, lit: &str) -> (r: bool)
    ensures
        r == (v@ == lit@),
{
    let n = lit.unicode_len();
    if v.len() != n {
        return false;
    }
    let mut i: usize = 0;
    while i < n
        invariant
            n == lit@.len() == v@.len(),
            i <= n,
            forall|j: int| 0 <= j < i ==> v@[j] == lit@[j],
        decreases n - i,
    {
        if v[i] != lit.get_char(i) {
            return false;
        }
        i = i + 1;
    }
    assert(v@ =~= lit@);
    true
}

/// Whether `v` starts with the characters of a literal.
pub fn starts_with(v: &Vec<char>, lit: &str) -> (r: bool)
    ensures
        r == (lit@.len() <= v@.len() && v@.subrange(0, lit@.len() as int) == lit@),
{
    let n = lit.unicode_len();
    if v.len() < n {
        return false;
    }
    let mut i: usize = 0;
    while i < n
        invariant
            n == lit@.len() <= v@.len(),
            i <= n,
            forall|j: int| 0 <= j < i ==> v@[j] == lit@[j],
        decreases n - i,
    {
        if v[i] != lit.get_char(i) {
            assert(v@.subrange(0, n as int)[i as int] != lit@[i as int]);
            return false;
        }
        i = i + 1;
    }
    assert(v@.subrange(0, n as int) =~= lit@);
    true
}

pub fn digit_value(c: char) -> (r: u32)
    ensures
        r as nat == digit_val(c),
{
    if '0' <= c && c <= '9' {
        (c as u32) - ('0' as u32)
    } else if 'a' <= c && c <= 'z' {
        (c as u32) - ('a' as u32) + 10
    } else if 'A' <= c && c <= 'Z' {
        (c as u32) - ('A' as u32) + 10
    } else {
        36
    }
}

/// Reads an unsigned number in `v[lo..hi]` as `from_str_radix` does for a type whose
/// largest value is `max`.
pub fn parse_unsigned_in(v: &Vec<char>, lo: usize, hi: usize, radix: u64, max: u64) -> (r:
    Option<u64>)
    requires
        lo <= hi <= v@.len(),
        2 <= radix <= 36,
        max <= u32::MAX,
    ensures
        r matches Some(x) ==> parse_unsigned(v@.subrange(lo as int, hi as int), radix as nat, max as nat) == Some(x as nat),
        r is None ==> parse_unsigned(v@.subrange(lo as int, hi as int), radix as nat, max as nat) is None,
{
    let ghost s = v@.subrange(lo as int, hi as int);
    let start: usize = if lo < hi && v[lo] == '+' {
        lo + 1
    } else {
        lo
    };
    let ghost b = unsigned_body(s);
    assert(b =~= v@.subrange(start as int, hi as int));
    if start == hi {
        return None;
    }
    let mut acc: u64 = 0;
    let mut over = false;
    let mut i: usize = start;
    while i < hi
        invariant
            start <= i <= hi <= v@.len(),
            2 <= radix <= 36,
            max <= u32::MAX,
            all_digits(v@.subrange(start as int, i as int), radix as nat),
            b == v@.subrange(start as int, hi as int),
            s == v@.subrange(lo as int, hi as int),
            b == unsigned_body(s),
            over ==> digits_value(v@.subrange(start as int, i as int), radix as nat) > max,
            !over ==> acc == digits_value(v@.subrange(start as int, i as int), radix as nat)
                && acc <= max,
        decreases hi - i,
    {
        let ghost p = v@.subrange(start as int, i as int);
        let ghost q = v@.subrange(start as int, i as int + 1);
        assert(q.drop_last() =~= p);
        let d = digit_value(v[i]);
        if d as u64 >= radix {
            assert(q.last() == v@[i as int]);
            assert(!all_digits(b, radix as nat)) by {
                assert(b[i - start] == v@[i as int]);
            }
            return None;
        }
        proof {
            let pv = digits_value(p, radix as nat);
            assert(pv * radix >= pv) by (nonlinear_arith)
                requires
                    radix >= 2,
            ;
        }
        if !over {
            assert(acc * radix <= u32::MAX * 36) by (nonlinear_arith)
                requires
                    acc <= u32::MAX,
                    radix <= 36,
            ;
            acc = acc * radix + d as u64;
            if acc > max {
                over = true;
            }
        }
        i = i + 1;
    }
    if over {
        None
    } else {
        Some(acc)
    }
}

/// The first index where the literal occurs in `v`.
pub fn find_in(v: &Vec<char>, lit: &str) -> (r: Option<usize>)
    ensures
        r matches Some(i) ==> find(v@, lit@) == Some(i as int),
        r is None ==> find(v@, lit@) is None,
{
    let m = lit.unicode_len();
    if m == 0 {
        assert(occurs_at(v@, 0, lit@)) by {
            assert(v@.subrange(0, 0) =~= lit@);
        }
        return Some(0);
    }
    let mut i: usize = 0;
    while m <= v.len() && i <= v.len() - m
        invariant
            m == lit@.len(),
            m >= 1,
            i <= v@.len(),
            find(v@, lit@) == find_from(v@, lit@, i as int),
        decreases v@.len() - i,
    {
        if matches_at(v, i, lit) {
            return Some(i);
        }
        i = i + 1;
    }
    None
}

/// The last index where the literal occurs in `v`.
pub fn rfind_in(v: &Vec<char>, lit: &str) -> (r: Option<usize>)
    ensures
        r matches Some(i) ==> rfind(v@, lit@) == Some(i as int),
        r is None ==> rfind(v@, lit@) is None,
{
    let m = lit.unicode_len();
    if m > v.len() {
        assert(rfind_from(v@, lit@, v@.len() - m) is None);
        return None;
    }
    let mut i: usize = v.len() - m;
    loop
        invariant
            m == lit@.len(),
            i + m <= v@.len(),
            rfind(v@, lit@) == rfind_from(v@, lit@, i as int),
        decreases i,
    {
        if matches_at(v, i, lit) {
            return Some(i);
        }
        if i == 0 {
            assert(rfind_from(v@, lit@, -1) is None);
            return None;
        }
        i = i - 1;
    }
}

/// Whether the literal occurs in `v` at index `i`.
pub fn matches_at(v: &Vec<char>, i: usize, lit: &str) -> (r: bool)
    requires
        i + lit@.len() <= v@.len(),
    ensures
        r == occurs_at(v@, i as int, lit@),
{
    let m = lit.unicode_len();
    let vl = v.len();
    let mut j: usize = 0;
    while j < m
        invariant
            m == lit@.len(),
            i + m <= v@.len(),
            vl == v@.len(),
            j <= m,
            forall|k: int| 0 <= k < j ==> v@[i + k] == lit@[k],
        decreases m - j,
    {
        assert(i + j < v@.len());
        if v[i + j] != lit.get_char(j) {
            assert(v@.subrange(i as int, i + m)[j as int] != lit@[j as int]);
            return false;
        }
        j = j + 1;
    }
    assert(v@.subrange(i as int, i + m) =~= lit@);
    true
}

/// The lines of a text, each without its line ending.
pub fn split_lines(s: &Vec<char>) -> (r: Vec<Vec<char>>)
    ensures
        views(r@) == lines(s@),
{
    let mut done: Vec<Vec<char>> = Vec::new();
    let mut cur: Vec<char> = Vec::new();
    let mut i: usize = 0;
    while i < s.len()
        invariant
            i <= s@.len(),
            split_on(s@.subrange(0, i as int), '\n').len() >= 1,
            views(done@) == split_on(s@.subrange(0, i as int), '\n').drop_last().map_values(
                |l: Seq<char>| strip_cr(l),
            ),
            cur@ == split_on(s@.subrange(0, i as int), '\n').last(),
        decreases s@.len() - i,
    {
        let ghost p = s@.subrange(0, i as int);
        let ghost q = s@.subrange(0, i as int + 1);
        assert(q.drop_last() =~= p);
        let ghost w = split_on(p, '\n');
        let ghost old_done = views(done@);
        let c = s[i];
        if c == '\n' {
            let line = strip_line(&cur);
            done.push(line);
            cur = Vec::new();
            proof {
                assert(split_on(q, '\n') == w.push(Seq::<char>::empty()));
                assert(views(done@) =~= old_done.push(strip_cr(w.last())));
                assert(split_on(q, '\n').drop_last() =~= w);
                assert(w =~= w.drop_last().push(w.last()));
                assert(w.map_values(|l: Seq<char>| strip_cr(l)) =~= w.drop_last().map_values(
                    |l: Seq<char>| strip_cr(l),
                ).push(strip_cr(w.last())));
                assert(cur@ =~= split_on(q, '\n').last());
            }
        } else {
            cur.push(c);
            proof {
                assert(split_on(q, '\n') == w.update(w.len() - 1, w.last().push(c)));
                assert(split_on(q, '\n').drop_last() =~= w.drop_last());
            }
        }
        i = i + 1;
    }
    assert(s@.subrange(0, s@.len() as int) =~= s@);
    let ghost w = split_on(s@, '\n');
    if cur.len() > 0 {
        let line = strip_line(&cur);
        let ghost old_done = views(done@);
        done.push(line);
        proof {
            assert(views(done@) =~= old_done.push(strip_cr(w.last())));
            assert(w =~= w.drop_last().push(w.last()));
            assert(w.map_values(|l: Seq<char>| strip_cr(l)) =~= w.drop_last().map_values(
                |l: Seq<char>| strip_cr(l),
            ).push(strip_cr(w.last())));
        }
    }
    done
}

/// The pieces of a text between separator characters.
pub fn split_fields(s: &Vec<char>, sep: char) -> (r: Vec<Vec<char>>)
    ensures
        views(r@) == split_on(s@, sep),
{
    let mut done: Vec<Vec<char>> = Vec::new();
    let mut cur: Vec<char> = Vec::new();
    let mut i: usize = 0;
    while i < s.len()
        invariant
            i <= s@.len(),
            split_on(s@.subrange(0, i as int), sep).len() >= 1,
            views(done@) == split_on(s@.subrange(0, i as int), sep).drop_last(),
            cur@ == split_on(s@.subrange(0, i as int), sep).last(),
        decreases s@.len() - i,
    {
        let ghost p = s@.subrange(0, i as int);
        let ghost q = s@.subrange(0, i as int + 1);
        assert(q.drop_last() =~= p);
        let ghost w = split_on(p, sep);
        let ghost old_done = views(done@);
        let c = s[i];
        if c == sep {
            let ghost piece = cur@;
            done.push(cur);
            cur = Vec::new();
            proof {
                assert(views(done@) =~= old_done.push(piece));
                assert(split_on(q, sep).drop_last() =~= w);
                assert(w =~= w.drop_last().push(w.last()));
                assert(cur@ =~= split_on(q, sep).last());
            }
        } else {
            cur.push(c);
            proof {
                assert(split_on(q, sep).drop_last() =~= w.drop_last());
            }
        }
        i = i + 1;
    }
    assert(s@.subrange(0, s@.len() as int) =~= s@);
    let ghost w = split_on(s@, sep);
    let ghost old_done = views(done@);
    let ghost piece = cur@;
    done.push(cur);
    assert(views(done@) =~= old_done.push(piece));
    assert(w =~= w.drop_last().push(w.last()));
    done
}

pub open spec fn trim_start(s: Seq<char>) -> Seq<char>
    decreases s.len(),
{
    if s.len() > 0 && is_space(s[0]) {
        trim_start(s.drop_first())
    } else {
        s
    }
}

pub open spec fn trim_end(s: Seq<char>) -> Seq<char>
    decreases s.len(),
{
    if s.len() > 0 && is_space(s.last()) {
        trim_end(s.drop_last())
    } else {
        s
    }
}

/// The text without whitespace at either end, as `str::trim` gives it.
pub open spec fn trim(s: Seq<char>) -> Seq<char> {
    trim_end(trim_start(s))
}

pub fn trim_chars(v: &Vec<char>) -> (r: Vec<char>)
    ensures
        r@ == trim(v@),
{
    let mut lo: usize = 0;
    assert(v@.subrange(0, v@.len() as int) =~= v@);
    while lo < v.len() && is_space_char(v[lo])
        invariant
            lo <= v@.len(),
            trim_start(v@) == trim_start(v@.subrange(lo as int, v@.len() as int)),
        decreases v@.len() - lo,
    {
        assert(v@.subrange(lo as int, v@.len() as int).drop_first() =~= v@.subrange(
            lo + 1,
            v@.len() as int,
        ));
        lo = lo + 1;
    }
    let ghost t = v@.subrange(lo as int, v@.len() as int);
    assert(trim_start(v@) == t);
    let mut hi: usize = v.len();
    while hi > lo && is_space_char(v[hi - 1])
        invariant
            lo <= hi <= v@.len(),
            trim_end(t) == trim_end(v@.subrange(lo as int, hi as int)),
        decreases hi,
    {
        assert(v@.subrange(lo as int, hi as int).drop_last() =~= v@.subrange(
            lo as int,
            hi - 1,
        ));
        hi = hi - 1;
    }
    slice(v, lo, hi)
}

fn strip_line(v: &Vec<char>) -> (r: Vec<char>)
    ensures
        r@ == strip_cr(v@),
{
    if v.len() > 0 && v[v.len() - 1] == '\r' {
        let r = slice(v, 0, v.len() - 1);
        assert(r@ =~= v@.drop_last());
        r
    } else {
        slice(v, 0, v.len())
    }
}

fn is_space_char(c: char) -> (r: bool)
    ensures
        r == is_space(c),
{
    c == ' ' || c == '\t' || c == '\n' || c == '\r' || c == '\x0B' || c == '\x0C' || c
        == '\u{85}' || c == '\u{A0}' || c == '\u{1680}' || ('\u{2000}' <= c && c <= '\u{200A}')
        || c == '\u{2028}' || c == '\u{2029}' || c == '\u{202F}' || c == '\u{205F}' || c
        == '\u{3000}'
}

/// The words of a text, split at runs of whitespace.
pub fn split_words(s: &Vec<char>) -> (r: Vec<Vec<char>>)
    ensures
        views(r@) == words(s@),
{
    let mut done: Vec<Vec<char>> = Vec::new();
    let mut cur: Vec<char> = Vec::new();
    let mut i: usize = 0;
    while i < s.len()
        invariant
            i <= s@.len(),
            cur@.len() == 0 ==> views(done@) == words(s@.subrange(0, i as int)),
            cur@.len() > 0 ==> views(done@).push(cur@) == words(s@.subrange(0, i as int)),
            cur@.len() > 0 ==> i > 0 && !is_space(s@[i - 1]),
            cur@.len() == 0 ==> i == 0 || is_space(s@[i - 1]),
        decreases s@.len() - i,
    {
        let ghost p = s@.subrange(0, i as int);
        let ghost q = s@.subrange(0, i as int + 1);
        assert(q.drop_last() =~= p);
        let ghost old_done = views(done@);
        let c = s[i];
        assert(q.last() == c);
        if i > 0 {
            assert(q[q.len() - 2] == s@[i - 1]);
        }
        if is_space_char(c) {
            assert(words(q) == words(p));
            if cur.len() > 0 {
                let ghost word = cur@;
                done.push(cur);
                cur = Vec::new();
                assert(views(done@) =~= old_done.push(word));
            }
        } else {
            let ghost old_cur = cur@;
            cur.push(c);
            proof {
                if old_cur.len() > 0 {
                    let w = words(p);
                    assert(w == old_done.push(old_cur));
                    assert(old_done.push(cur@) =~= w.update(w.len() - 1, w.last().push(c)));
                } else {
                    assert(cur@ =~= seq![c]);
                    assert(old_done.push(cur@) =~= words(p).push(seq![c]));
                }
            }
        }
        i = i + 1;
    }
    assert(s@.subrange(0, s@.len() as int) =~= s@);
    if cur.len() > 0 {
        let ghost old_done = views(done@);
        let ghost word = cur@;
        done.push(cur);
        assert(views(done@) =~= old_done.push(word));
    }
    done
}

/// Appends `n` written in the given radix, lowercase digits.
pub fn push_radix(out: &mut Vec<char>, n: u64, radix: u64)
    requires
        2 <= radix <= 16,
    ensures
        final(out)@ == old(out)@ + radix_text(n as nat, radix as nat),
    decreases n,
{
    if n >= radix {
        assert(n / radix < n) by (nonlinear_arith)
            requires
                radix >= 2,
                n >= radix,
        ;
        push_radix(out, n / radix, radix);
    }
    let d = n % radix;
    assert(n < radix ==> d == n) by (nonlinear_arith)
        requires
            d == n % radix,
            radix >= 2,
    ;
    let c = if d < 10 {
        ((d as u32) + ('0' as u32)) as u8 as char
    } else {
        ((d as u32) - 10 + ('a' as u32)) as u8 as char
    };
    proof {
        assert(c == digit_char(d as nat));
    }
    out.push(c);
    assert(out@ =~= old(out)@ + radix_text(n as nat, radix as nat));
}

/// Appends the characters of a literal.
pub fn push_str(out: &mut Vec<char>, lit: &str)
    ensures
        final(out)@ == old(out)@ + lit@,
{
    let n = lit.unicode_len();
    let mut i: usize = 0;
    while i < n
        invariant
            n == lit@.len(),
            i <= n,
            out@ == old(out)@ + lit@.subrange(0, i as int),
        decreases n - i,
    {
        out.push(lit.get_char(i));
        i = i + 1;
        assert(out@ =~= old(out)@ + lit@.subrange(0, i as int));
    }
    assert(lit@.subrange(0, n as int) =~= lit@);
}

pub open spec fn to_u16(o: Option<nat>) -> Option<u16> {
    match o {
        Some(n) => Some(n as u16),
        None => None,
    }
}

pub open spec fn tail(s: Seq<char>, i: int) -> Seq<char> {
    s.subrange(i, s.len() as int)
}

pub open spec fn opt_seq<T>(o: Option<T>) -> Seq<T> {
    match o {
        Some(x) => seq![x],
        None => Seq::empty(),
    }
}

pub open spec fn after_header(ls: Seq<Seq<char>>) -> Seq<Seq<char>> {
    if ls.len() == 0 {
        ls
    } else {
        ls.drop_first()
    }
}

proof fn lemma_rfind_from_bounds(s: Seq<char>, pat: Seq<char>, i: int)
    ensures
        rfind_from(s, pat, i) matches Some(j) ==> 0 <= j && j + pat.len() <= s.len(),
    decreases i + 1,
{
    if i >= 0 && !occurs_at(s, i, pat) {
        lemma_rfind_from_bounds(s, pat, i - 1);
    }
}

pub proof fn lemma_rfind_in_bounds(s: Seq<char>, pat: Seq<char>)
    ensures
        rfind(s, pat) matches Some(j) ==> 0 <= j && j + pat.len() <= s.len(),
{
    lemma_rfind_from_bounds(s, pat, s.len() - pat.len());
}

proof fn lemma_find_from_bounds(s: Seq<char>, pat: Seq<char>, i: int)
    ensures
        find_from(s, pat, i) matches Some(j) ==> 0 <= j && j + pat.len() <= s.len(),
    decreases s.len() + 1 - i,
{
    if !(i < 0 || i + pat.len() > s.len()) && !occurs_at(s, i, pat) {
        lemma_find_from_bounds(s, pat, i + 1);
    }
}

pub proof fn lemma_find_bounds(s: Seq<char>, pat: Seq<char>)
    ensures
        find(s, pat) matches Some(j) ==> 0 <= j && j + pat.len() <= s.len(),
{
    lemma_find_from_bounds(s, pat, 0);
}

} // verus!
