//! Linux: the kernel's socket tables under `/proc/net`, and the owners that `ss` reports.
use vstd::prelude::*;
use crate::text::{
    after_header, all_digits, chars_of, contains, dec_text, digit_val, digit_value,
    digits_value, eq_str, find, find_in, lemma_find_bounds, lemma_rfind_in_bounds, lines,
    opt_seq, owned, parse_unsigned, parse_unsigned_in, push_radix, radix_text, rfind, rfind_in,
    slice, split_fields, split_lines, split_on, split_words, string_of, tail, to_u16, trim,
    trim_chars, views, words,
};
use crate::types::{PortError, PortInfo, PortRecord, PortScanner, SystemAccess, records, unknown};

verus! {

/// The scanner for Linux.
pub struct LinuxScanner;

/// The name of the user with a given uid.
pub struct UserName {
    pub uid: u32,
    pub name: String,
}

/// The name that a table of users gives a uid: the first entry for it, else the uid in
/// decimal.
pub open spec fn user_of(users: Seq<UserName>, uid: u32) -> Seq<char>
    decreases users.len(),
{
    if users.len() == 0 {
        dec_text(uid as nat)
    } else if users[0].uid == uid {
        users[0].name@
    } else {
        user_of(users.drop_first(), uid)
    }
}

/// The port of an address in decimal notation, `[v6]:port` or `host:port`.
pub open spec fn decimal_port(addr: Seq<char>) -> Option<nat> {
    if addr.len() > 0 && addr[0] == '[' && find(addr, "]:"@) is Some {
        parse_unsigned(tail(addr, find(addr, "]:"@)->0 + 2), 10, 65535)
    } else {
        match rfind(addr, ":"@) {
            Some(i) => parse_unsigned(tail(addr, i + 1), 10, 65535),
            None => None,
        }
    }
}

/// The value of the byte written by the two hex digits at `2 * k`.
pub open spec fn hex_byte(s: Seq<char>, k: int) -> nat {
    digits_value(s.subrange(2 * k, 2 * k + 2), 16)
}

/// An IPv4 address stored as one little-endian 32-bit word.
pub open spec fn ipv4_text(s: Seq<char>) -> Seq<char> {
    dec_text(hex_byte(s, 3)) + seq!['.'] + dec_text(hex_byte(s, 2)) + seq!['.'] + dec_text(
        hex_byte(s, 1),
    ) + seq!['.'] + dec_text(hex_byte(s, 0))
}

/// Group `g` (0 to 7) of an IPv6 address stored as four little-endian 32-bit words.
pub open spec fn ipv6_group(s: Seq<char>, g: int) -> nat {
    let w = g / 2;
    if g % 2 == 0 {
        hex_byte(s, 4 * w + 3) * 256 + hex_byte(s, 4 * w + 2)
    } else {
        hex_byte(s, 4 * w + 1) * 256 + hex_byte(s, 4 * w)
    }
}

/// Groups `lo` up to `hi` of an IPv6 address in lowercase hex without leading zeros,
/// separated by colons.
pub open spec fn ipv6_groups(s: Seq<char>, lo: int, hi: int) -> Seq<char>
    decreases hi - lo,
{
    if hi <= lo {
        Seq::empty()
    } else if hi == lo + 1 {
        radix_text(ipv6_group(s, lo), 16)
    } else {
        ipv6_groups(s, lo, hi - 1) + seq![':'] + radix_text(ipv6_group(s, hi - 1), 16)
    }
}

/// Over the first `n` groups: the start and length of the first longest run of zero
/// groups, then the start and length of the run of zero groups that ends at `n`.
pub open spec fn zero_span(s: Seq<char>, n: int) -> (int, int, int, int)
    decreases n,
{
    if n <= 0 {
        (0, 0, 0, 0)
    } else {
        let (ls, ll, cs, cl) = zero_span(s, n - 1);
        if ipv6_group(s, n - 1) == 0 {
            let ncs = if cl == 0 {
                n - 1
            } else {
                cs
            };
            if cl + 1 > ll {
                (ncs, cl + 1, ncs, cl + 1)
            } else {
                (ls, ll, ncs, cl + 1)
            }
        } else {
            (ls, ll, 0, 0)
        }
    }
}

/// The address is an IPv4 address mapped into IPv6, `::ffff:a.b.c.d`.
pub open spec fn ipv4_mapped(s: Seq<char>) -> bool {
    ipv6_group(s, 0) == 0 && ipv6_group(s, 1) == 0 && ipv6_group(s, 2) == 0 && ipv6_group(s, 3)
        == 0 && ipv6_group(s, 4) == 0 && ipv6_group(s, 5) == 0xffff
}

/// An IPv6 address in canonical text (RFC 5952, as `std::net::Ipv6Addr` prints it):
/// lowercase hex groups without leading zeros, the first longest run of two or more zero
/// groups written as `::`, and an IPv4-mapped address as `::ffff:` and dotted decimal.
pub open spec fn ipv6_text(s: Seq<char>) -> Seq<char> {
    if ipv4_mapped(s) {
        seq![':', ':', 'f', 'f', 'f', 'f', ':'] + dec_text(ipv6_group(s, 6) / 256) + seq!['.']
            + dec_text(ipv6_group(s, 6) % 256) + seq!['.'] + dec_text(ipv6_group(s, 7) / 256)
            + seq!['.'] + dec_text(ipv6_group(s, 7) % 256)
    } else {
        let (st, ln, _, _) = zero_span(s, 8);
        if ln > 1 {
            ipv6_groups(s, 0, st) + seq![':', ':'] + ipv6_groups(s, st + ln, 8)
        } else {
            ipv6_groups(s, 0, 8)
        }
    }
}

/// The address that a hex IP of the kernel's tables denotes: 8 digits for IPv4, in dotted
/// notation; 32 digits for IPv6, in eight colon-separated groups.
pub open spec fn hex_ip(s: Seq<char>) -> Option<Seq<char>> {
    if !all_digits(s, 16) {
        None
    } else if s.len() == 8 {
        Some(ipv4_text(s))
    } else if s.len() == 32 {
        Some(ipv6_text(s))
    } else {
        None
    }
}

/// The port of a `hexip:hexport` address.
pub open spec fn hex_port(addr: Seq<char>) -> Option<nat> {
    match find(addr, ":"@) {
        Some(i) => parse_unsigned(tail(addr, i + 1), 16, 65535),
        None => None,
    }
}

/// A `hexip:hexport` address in readable form; the text itself where it does not parse.
pub open spec fn hex_addr_text(addr: Seq<char>) -> Seq<char> {
    match find(addr, ":"@) {
        Some(i) => {
            let ip = hex_ip(addr.subrange(0, i));
            let port = parse_unsigned(tail(addr, i + 1), 16, 65535);
            if ip is Some && port is Some {
                ip->0 + seq![':'] + dec_text(port->0)
            } else {
                addr
            }
        },
        None => addr,
    }
}

/// The name of a TCP state code of the kernel's tables.
pub open spec fn tcp_state(s: Seq<char>) -> Option<Seq<char>> {
    if s == "01"@ {
        Some("ESTABLISHED"@)
    } else if s == "02"@ {
        Some("SYN_SENT"@)
    } else if s == "03"@ {
        Some("SYN_RECV"@)
    } else if s == "04"@ {
        Some("FIN_WAIT1"@)
    } else if s == "05"@ {
        Some("FIN_WAIT2"@)
    } else if s == "06"@ {
        Some("TIME_WAIT"@)
    } else if s == "07"@ {
        Some("CLOSE"@)
    } else if s == "08"@ {
        Some("CLOSE_WAIT"@)
    } else if s == "09"@ {
        Some("LAST_ACK"@)
    } else if s == "0A"@ {
        Some("LISTEN"@)
    } else if s == "0B"@ {
        Some("CLOSING"@)
    } else if s == "0C"@ {
        Some("NEW_SYN_RECV"@)
    } else {
        None
    }
}

/// A decimal uid; 0 where the text is not one.
pub open spec fn uid_value(s: Seq<char>) -> u32 {
    match parse_unsigned(s, 10, u32::MAX as nat) {
        Some(n) => n as u32,
        None => 0,
    }
}

/// The record of one row of a socket table; `tcp` says whether its state is read.
pub open spec fn table_row(line: Seq<char>, protocol: Seq<char>, users: Seq<UserName>, tcp: bool) -> Option<PortRecord> {
    let parts = words(line);
    if parts.len() < 12 {
        None
    } else {
        match hex_port(parts[1]) {
            None => None,
            Some(port) => {
                let status = if tcp {
                    tcp_state(parts[3])
                } else {
                    Some("-"@)
                };
                match status {
                    None => None,
                    Some(st) => Some(
                        PortRecord {
                            port: port as u16,
                            protocol,
                            pid: 0,
                            process_name: Seq::empty(),
                            status: st,
                            process_name_unknown: false,
                            local_addr: hex_addr_text(parts[1]),
                            remote_addr: hex_addr_text(parts[2]),
                            user: user_of(users, uid_value(parts[7])),
                        },
                    ),
                }
            },
        }
    }
}

pub open spec fn table_rows(ls: Seq<Seq<char>>, protocol: Seq<char>, users: Seq<UserName>, tcp: bool) -> Seq<PortRecord>
    decreases ls.len(),
{
    if ls.len() == 0 {
        Seq::empty()
    } else {
        table_rows(ls.drop_last(), protocol, users, tcp) + opt_seq(
            table_row(ls.last(), protocol, users, tcp),
        )
    }
}

/// The records of a socket table: every line after the header that parses.
pub open spec fn socket_table(content: Seq<char>, protocol: Seq<char>, users: Seq<UserName>, tcp: bool) -> Seq<PortRecord> {
    table_rows(after_header(lines(content)), protocol, users, tcp)
}

/// The name of a uid in a table of users.
pub fn lookup_user(users: &Vec<UserName>, uid: u32) -> (r: String)
    ensures
        r@ == user_of(users@, uid),
{
    let mut i: usize = 0;
    assert(users@.subrange(0, users@.len() as int) =~= users@);
    while i < users.len()
        invariant
            i <= users@.len(),
            user_of(users@, uid) == user_of(users@.subrange(i as int, users@.len() as int), uid),
        decreases users@.len() - i,
    {
        assert(users@.subrange(i as int, users@.len() as int).drop_first() =~= users@.subrange(
            i + 1,
            users@.len() as int,
        ));
        if users[i].uid == uid {
            return users[i].name.clone();
        }
        i = i + 1;
    }
    let mut out: Vec<char> = Vec::new();
    push_radix(&mut out, uid as u64, 10);
    string_of(&out)
}

fn decimal_port_of(addr: &Vec<char>) -> (r: Option<u16>)
    ensures
        r == to_u16(decimal_port(addr@)),
{
    if addr.len() > 0 && addr[0] == '[' {
        match find_in(addr, "]:") {
            Some(e) => {
                proof {
                    assert(e + 2 <= addr@.len()) by {
                        reveal_strlit("]:");
                        lemma_find_bounds(addr@, "]:"@);
                    }
                }
                let r = parse_unsigned_in(addr, e + 2, addr.len(), 10, 65535);
                return match r {
                    Some(n) => Some(n as u16),
                    None => None,
                };
            },
            None => {},
        }
    }
    match rfind_in(addr, ":") {
        Some(i) => {
            proof {
                assert(i + 1 <= addr@.len()) by {
                    reveal_strlit(":");
                    lemma_rfind_in_bounds(addr@, ":"@);
                }
            }
            match parse_unsigned_in(addr, i + 1, addr.len(), 10, 65535) {
                Some(n) => Some(n as u16),
                None => None,
            }
        },
        None => None,
    }
}

/// The port of an address as `ss` prints it.
pub fn parse_decimal_port(addr: &str) -> (r: Option<u16>)
    ensures
        r == to_u16(decimal_port(addr@)),
{
    decimal_port_of(&chars_of(addr))
}

fn all_hex(v: &Vec<char>) -> (r: bool)
    ensures
        r == all_digits(v@, 16),
{
    let mut i: usize = 0;
    while i < v.len()
        invariant
            i <= v@.len(),
            all_digits(v@.subrange(0, i as int), 16),
            forall|j: int| 0 <= j < i ==> digit_val(#[trigger] v@[j]) < 16,
        decreases v@.len() - i,
    {
        if digit_value(v[i]) >= 16 {
            return false;
        }
        i = i + 1;
    }
    true
}

fn hex_byte_at(v: &Vec<char>, k: usize) -> (r: u64)
    requires
        all_digits(v@, 16),
        2 * k + 2 <= v@.len(),
    ensures
        r as nat == hex_byte(v@, k as int),
        r < 256,
{
    let n = v.len();
    assert(2 * k + 2 <= n);
    let hi = digit_value(v[2 * k]);
    let lo = digit_value(v[2 * k + 1]);
    let ghost s = v@.subrange(2 * k as int, 2 * k + 2);
    assert(s.drop_last().drop_last() =~= Seq::<char>::empty());
    assert(s.drop_last().last() == v@[2 * k as int]);
    assert(s.last() == v@[2 * k + 1]);
    assert(digits_value(s.drop_last().drop_last(), 16) == 0);
    assert(digits_value(s.drop_last(), 16) == hi);
    assert(digits_value(s, 16) == hi * 16 + lo);
    (hi as u64) * 16 + (lo as u64)
}

fn hex_ip_of(v: &Vec<char>) -> (r: Option<Vec<char>>)
    ensures
        r matches Some(t) ==> hex_ip(v@) == Some(t@),
        r is None ==> hex_ip(v@) is None,
{
    if !all_hex(v) {
        return None;
    }
    if v.len() == 8 {
        let mut out: Vec<char> = Vec::new();
        push_radix(&mut out, hex_byte_at(v, 3), 10);
        out.push('.');
        push_radix(&mut out, hex_byte_at(v, 2), 10);
        out.push('.');
        push_radix(&mut out, hex_byte_at(v, 1), 10);
        out.push('.');
        push_radix(&mut out, hex_byte_at(v, 0), 10);
        assert(out@ =~= ipv4_text(v@));
        Some(out)
    } else if v.len() == 32 {
        Some(ipv6_text_of(v))
    } else {
        None
    }
}

/// The eight groups of an IPv6 address of the kernel's tables.
fn ipv6_segments(v: &Vec<char>) -> (r: Vec<u64>)
    requires
        v@.len() == 32,
        all_digits(v@, 16),
    ensures
        r@.len() == 8,
        forall|g: int| 0 <= g < 8 ==> r@[g] as nat == #[trigger] ipv6_group(v@, g),
{
    let mut r: Vec<u64> = Vec::new();
    let mut g: usize = 0;
    while g < 8
        invariant
            v@.len() == 32,
            all_digits(v@, 16),
            g <= 8,
            r@.len() == g,
            forall|k: int| 0 <= k < g ==> r@[k] as nat == #[trigger] ipv6_group(v@, k),
        decreases 8 - g,
    {
        let w = g / 2;
        let value = if g % 2 == 0 {
            hex_byte_at(v, 4 * w + 3) * 256 + hex_byte_at(v, 4 * w + 2)
        } else {
            hex_byte_at(v, 4 * w + 1) * 256 + hex_byte_at(v, 4 * w)
        };
        assert(value as nat == ipv6_group(v@, g as int));
        r.push(value);
        g = g + 1;
    }
    r
}

/// Appends groups `lo` up to `hi`, separated by colons.
fn push_groups(out: &mut Vec<char>, v: &Vec<char>, segs: &Vec<u64>, lo: usize, hi: usize)
    requires
        lo <= hi <= 8,
        segs@.len() == 8,
        forall|g: int| 0 <= g < 8 ==> segs@[g] as nat == #[trigger] ipv6_group(v@, g),
    ensures
        final(out)@ == old(out)@ + ipv6_groups(v@, lo as int, hi as int),
{
    let mut g: usize = lo;
    assert(ipv6_groups(v@, lo as int, lo as int) =~= Seq::<char>::empty());
    assert(old(out)@ =~= old(out)@ + Seq::<char>::empty());
    while g < hi
        invariant
            lo <= g <= hi <= 8,
            segs@.len() == 8,
            forall|k: int| 0 <= k < 8 ==> segs@[k] as nat == #[trigger] ipv6_group(v@, k),
            out@ == old(out)@ + ipv6_groups(v@, lo as int, g as int),
        decreases hi - g,
    {
        if g > lo {
            out.push(':');
        }
        assert(segs@[g as int] as nat == ipv6_group(v@, g as int));
        push_radix(out, segs[g], 16);
        g = g + 1;
        assert(out@ =~= old(out)@ + ipv6_groups(v@, lo as int, g as int));
    }
}

fn ipv6_text_of(v: &Vec<char>) -> (r: Vec<char>)
    requires
        v@.len() == 32,
        all_digits(v@, 16),
    ensures
        r@ == ipv6_text(v@),
{
    let segs = ipv6_segments(v);
    let mut out: Vec<char> = Vec::new();
    if segs[0] == 0 && segs[1] == 0 && segs[2] == 0 && segs[3] == 0 && segs[4] == 0
        && segs[5] == 0xffff {
        assert(segs@[0] as nat == ipv6_group(v@, 0) && segs@[1] as nat == ipv6_group(v@, 1)
            && segs@[2] as nat == ipv6_group(v@, 2) && segs@[3] as nat == ipv6_group(v@, 3)
            && segs@[4] as nat == ipv6_group(v@, 4) && segs@[5] as nat == ipv6_group(v@, 5)
            && segs@[6] as nat == ipv6_group(v@, 6) && segs@[7] as nat == ipv6_group(v@, 7));
        assert(ipv4_mapped(v@));
        out.push(':');
        out.push(':');
        out.push('f');
        out.push('f');
        out.push('f');
        out.push('f');
        out.push(':');
        push_radix(&mut out, segs[6] / 256, 10);
        out.push('.');
        push_radix(&mut out, segs[6] % 256, 10);
        out.push('.');
        push_radix(&mut out, segs[7] / 256, 10);
        out.push('.');
        push_radix(&mut out, segs[7] % 256, 10);
        assert(out@ =~= ipv6_text(v@));
        return out;
    }
    assert(segs@[0] as nat == ipv6_group(v@, 0) && segs@[1] as nat == ipv6_group(v@, 1)
        && segs@[2] as nat == ipv6_group(v@, 2) && segs@[3] as nat == ipv6_group(v@, 3)
        && segs@[4] as nat == ipv6_group(v@, 4) && segs@[5] as nat == ipv6_group(v@, 5));
    let mut ls: usize = 0;
    let mut ll: usize = 0;
    let mut cs: usize = 0;
    let mut cl: usize = 0;
    let mut g: usize = 0;
    while g < 8
        invariant
            g <= 8,
            segs@.len() == 8,
            forall|k: int| 0 <= k < 8 ==> segs@[k] as nat == #[trigger] ipv6_group(v@, k),
            zero_span(v@, g as int) == (ls as int, ll as int, cs as int, cl as int),
            ls + ll <= g,
            cl > 0 ==> cs + cl == g,
            cl <= g,
        decreases 8 - g,
    {
        assert(segs@[g as int] as nat == ipv6_group(v@, g as int));
        if segs[g] == 0 {
            if cl == 0 {
                cs = g;
            }
            cl = cl + 1;
            if cl > ll {
                ls = cs;
                ll = cl;
            }
        } else {
            cs = 0;
            cl = 0;
        }
        g = g + 1;
    }
    if ll > 1 {
        push_groups(&mut out, v, &segs, 0, ls);
        out.push(':');
        out.push(':');
        push_groups(&mut out, v, &segs, ls + ll, 8);
        assert(out@ =~= ipv6_text(v@));
    } else {
        push_groups(&mut out, v, &segs, 0, 8);
        assert(out@ =~= ipv6_text(v@));
    }
    out
}

/// The readable form of a hex IP address of the kernel's socket tables.
pub fn hex_to_ip(hex: &str) -> (r: Option<String>)
    ensures
        r matches Some(t) ==> hex_ip(hex@) == Some(t@),
        r is None ==> hex_ip(hex@) is None,
{
    match hex_ip_of(&chars_of(hex)) {
        Some(t) => Some(string_of(&t)),
        None => None,
    }
}

fn hex_port_of(addr: &Vec<char>) -> (r: Option<u16>)
    ensures
        r == to_u16(hex_port(addr@)),
{
    let n = addr.len();
    match find_in(addr, ":") {
        Some(i) => {
            proof {
                assert(i + 1 <= addr@.len()) by {
                    reveal_strlit(":");
                    lemma_find_bounds(addr@, ":"@);
                }
            }
            match parse_unsigned_in(addr, i + 1, addr.len(), 16, 65535) {
                Some(n) => Some(n as u16),
                None => None,
            }
        },
        None => None,
    }
}

/// The port of a `hexip:hexport` address.
pub fn parse_hex_port(addr: &str) -> (r: Option<u16>)
    ensures
        r == to_u16(hex_port(addr@)),
{
    hex_port_of(&chars_of(addr))
}

fn hex_addr_of(addr: &Vec<char>) -> (r: Vec<char>)
    ensures
        r@ == hex_addr_text(addr@),
{
    let n = addr.len();
    match find_in(addr, ":") {
        Some(i) => {
            proof {
                assert(i + 1 <= addr@.len()) by {
                    reveal_strlit(":");
                    lemma_find_bounds(addr@, ":"@);
                }
            }
            let ip_hex = slice(addr, 0, i);
            let ip = hex_ip_of(&ip_hex);
            let port = parse_unsigned_in(addr, i + 1, addr.len(), 16, 65535);
            match (ip, port) {
                (Some(ip), Some(port)) => {
                    let mut out = ip;
                    out.push(':');
                    push_radix(&mut out, port, 10);
                    out
                },
                _ => slice(addr, 0, addr.len()),
            }
        },
        None => slice(addr, 0, addr.len()),
    }
}

/// A `hexip:hexport` address in readable form, or unchanged where it does not parse.
pub fn parse_hex_addr(addr: &str) -> (r: String)
    ensures
        r@ == hex_addr_text(addr@),
{
    string_of(&hex_addr_of(&chars_of(addr)))
}

/// The readable forms of a local and a remote address.
pub fn parse_local_remote_addr(local: &str, remote: &str) -> (r: (String, String))
    ensures
        r.0@ == hex_addr_text(local@),
        r.1@ == hex_addr_text(remote@),
{
    (parse_hex_addr(local), parse_hex_addr(remote))
}

fn tcp_state_of(s: &Vec<char>) -> (r: Option<String>)
    ensures
        r matches Some(t) ==> tcp_state(s@) == Some(t@),
        r is None ==> tcp_state(s@) is None,
{
    if eq_str(s, "01") {
        Some(owned("ESTABLISHED"))
    } else if eq_str(s, "02") {
        Some(owned("SYN_SENT"))
    } else if eq_str(s, "03") {
        Some(owned("SYN_RECV"))
    } else if eq_str(s, "04") {
        Some(owned("FIN_WAIT1"))
    } else if eq_str(s, "05") {
        Some(owned("FIN_WAIT2"))
    } else if eq_str(s, "06") {
        Some(owned("TIME_WAIT"))
    } else if eq_str(s, "07") {
        Some(owned("CLOSE"))
    } else if eq_str(s, "08") {
        Some(owned("CLOSE_WAIT"))
    } else if eq_str(s, "09") {
        Some(owned("LAST_ACK"))
    } else if eq_str(s, "0A") {
        Some(owned("LISTEN"))
    } else if eq_str(s, "0B") {
        Some(owned("CLOSING"))
    } else if eq_str(s, "0C") {
        Some(owned("NEW_SYN_RECV"))
    } else {
        None
    }
}

/// The name of a two-digit TCP state code.
pub fn parse_tcp_state(state: &str) -> (r: Option<String>)
    ensures
        r matches Some(t) ==> tcp_state(state@) == Some(t@),
        r is None ==> tcp_state(state@) is None,
{
    tcp_state_of(&chars_of(state))
}

fn uid_of(s: &Vec<char>) -> (r: u32)
    ensures
        r == uid_value(s@),
{
    match parse_unsigned_in(s, 0, s.len(), 10, 0xffff_ffff) {
        Some(n) => {
            assert(s@.subrange(0, s@.len() as int) =~= s@);
            n as u32
        },
        None => {
            assert(s@.subrange(0, s@.len() as int) =~= s@);
            0
        },
    }
}

fn table_row_of(line: &Vec<char>, protocol: &str, users: &Vec<UserName>, tcp: bool) -> (r:
    Option<PortInfo>)
    ensures
        r matches Some(p) ==> table_row(line@, protocol@, users@, tcp) == Some(p@),
        r is None ==> table_row(line@, protocol@, users@, tcp) is None,
{
    let parts = split_words(line);
    let ghost ws = words(line@);
    assert(views(parts@) == ws);
    if parts.len() < 12 {
        return None;
    }
    assert(parts@[1]@ == ws[1] && parts@[2]@ == ws[2] && parts@[3]@ == ws[3] && parts@[7]@
        == ws[7]);
    let port = match hex_port_of(&parts[1]) {
        Some(p) => p,
        None => return None,
    };
    let status = if tcp {
        match tcp_state_of(&parts[3]) {
            Some(s) => s,
            None => return None,
        }
    } else {
        owned("-")
    };
    let uid = uid_of(&parts[7]);
    let user = lookup_user(users, uid);
    let p = PortInfo {
        port,
        protocol: owned(protocol),
        pid: 0,
        process_name: String::new(),
        status,
        process_name_unknown: false,
        local_addr: string_of(&hex_addr_of(&parts[1])),
        remote_addr: string_of(&hex_addr_of(&parts[2])),
        user,
    };
    Some(p)
}

fn parse_table(content: &str, protocol: &str, users: &Vec<UserName>, tcp: bool) -> (r: Vec<
    PortInfo,
>)
    ensures
        records(r@) == socket_table(content@, protocol@, users@, tcp),
{
    let all = split_lines(&chars_of(content));
    let ghost ls = after_header(lines(content@));
    let mut out: Vec<PortInfo> = Vec::new();
    if all.len() == 0 {
        return out;
    }
    assert(views(all@).drop_first() =~= views(all@.subrange(1, all@.len() as int)));
    let mut i: usize = 1;
    while i < all.len()
        invariant
            1 <= i <= all@.len(),
            ls == views(all@).drop_first(),
            records(out@) == table_rows(ls.subrange(0, i - 1), protocol@, users@, tcp),
        decreases all@.len() - i,
    {
        let ghost before = records(out@);
        assert(ls.subrange(0, i as int).drop_last() =~= ls.subrange(0, i - 1));
        assert(ls.subrange(0, i as int).last() == all@[i as int]@);
        match table_row_of(&all[i], protocol, users, tcp) {
            Some(p) => {
                out.push(p);
                assert(records(out@) =~= before + seq![p@]);
            },
            None => {
                assert(before + Seq::<PortRecord>::empty() =~= before);
            },
        }
        i = i + 1;
    }
    assert(ls.subrange(0, all@.len() - 1) =~= ls);
    out
}

/// The records of the kernel's TCP table text, users resolved through `users`.
pub fn parse_proc_net_tcp(content: &str, protocol: &str, users: &Vec<UserName>) -> (r: Vec<
    PortInfo,
>)
    ensures
        records(r@) == socket_table(content@, protocol@, users@, true),
{
    parse_table(content, protocol, users, true)
}

/// The records of the kernel's UDP table text, users resolved through `users`.
pub fn parse_proc_net_udp(content: &str, protocol: &str, users: &Vec<UserName>) -> (r: Vec<
    PortInfo,
>)
    ensures
        records(r@) == socket_table(content@, protocol@, users@, false),
{
    parse_table(content, protocol, users, false)
}

/// The process that `ss` reports as owning a port.
pub struct SocketOwner {
    pub port: u16,
    pub pid: u32,
    pub name: String,
    pub user: String,
}

pub struct OwnerRecord {
    pub port: u16,
    pub pid: u32,
    pub name: Seq<char>,
    pub user: Seq<char>,
}

impl View for SocketOwner {
    type V = OwnerRecord;

    open spec fn view(&self) -> OwnerRecord {
        OwnerRecord { port: self.port, pid: self.pid, name: self.name@, user: self.user@ }
    }
}

pub open spec fn owner_records(v: Seq<SocketOwner>) -> Seq<OwnerRecord> {
    v.map_values(|o: SocketOwner| o@)
}

/// The text up to the first comma.
pub open spec fn before_comma(s: Seq<char>) -> Seq<char> {
    match find(s, ","@) {
        Some(j) => s.subrange(0, j),
        None => s,
    }
}

/// The pid in a `users:(("name",pid=1,fd=3))` column.
pub open spec fn pid_in(info: Seq<char>) -> Option<nat> {
    match find(info, "pid="@) {
        Some(i) => parse_unsigned(before_comma(tail(info, i + 4)), 10, u32::MAX as nat),
        None => None,
    }
}

/// The quoted process name in a `users:` column; empty where there is none.
pub open spec fn name_in(info: Seq<char>) -> Seq<char> {
    match find(info, "(\""@) {
        Some(i) => {
            let rest = tail(info, i + 2);
            match find(rest, "\""@) {
                Some(e) => rest.subrange(0, e),
                None => Seq::empty(),
            }
        },
        None => Seq::empty(),
    }
}

/// The uid in a `users:` column, where a comma follows it.
pub open spec fn uid_in(info: Seq<char>) -> Option<nat> {
    match find(info, "uid="@) {
        Some(i) => {
            let rest = tail(info, i + 4);
            match find(rest, ","@) {
                Some(e) => parse_unsigned(rest.subrange(0, e), 10, u32::MAX as nat),
                None => None,
            }
        },
        None => None,
    }
}

pub open spec fn user_in(info: Seq<char>, users: Seq<UserName>) -> Seq<char> {
    match uid_in(info) {
        Some(u) => user_of(users, u as u32),
        None => Seq::empty(),
    }
}

/// The owner that one line of `ss -tulpn` names, if it names a port and a process.
pub open spec fn owner_row(line: Seq<char>, users: Seq<UserName>) -> Option<OwnerRecord> {
    let parts = words(line);
    if !contains(line, "users:"@) || parts.len() < 7 {
        None
    } else {
        match decimal_port(parts[4]) {
            None => None,
            Some(port) => {
                let info = parts[6];
                let pid: u32 = match pid_in(info) {
                    Some(p) => p as u32,
                    None => 0,
                };
                let name = name_in(info);
                if pid > 0 || name.len() > 0 {
                    Some(OwnerRecord { port: port as u16, pid, name, user: user_in(info, users) })
                } else {
                    None
                }
            },
        }
    }
}

pub open spec fn owner_rows(ls: Seq<Seq<char>>, users: Seq<UserName>) -> Seq<OwnerRecord>
    decreases ls.len(),
{
    if ls.len() == 0 {
        Seq::empty()
    } else {
        owner_rows(ls.drop_last(), users) + opt_seq(owner_row(ls.last(), users))
    }
}

/// The owners in the output of `ss -tulpn`, in order.
pub open spec fn ss_owners(output: Seq<char>, users: Seq<UserName>) -> Seq<OwnerRecord> {
    owner_rows(after_header(lines(output)), users)
}

/// The last owner reported for a port.
pub open spec fn owner_for(owners: Seq<OwnerRecord>, port: u16) -> Option<OwnerRecord>
    decreases owners.len(),
{
    if owners.len() == 0 {
        None
    } else if owners.last().port == port {
        Some(owners.last())
    } else {
        owner_for(owners.drop_last(), port)
    }
}

/// A record with the owner of its port: its pid, its name where one is given, its user
/// where the record has none.
pub open spec fn with_owner(r: PortRecord, owners: Seq<OwnerRecord>) -> PortRecord {
    match owner_for(owners, r.port) {
        Some(e) => PortRecord {
            pid: e.pid,
            process_name: if e.name.len() > 0 {
                e.name
            } else {
                r.process_name
            },
            user: if e.user.len() > 0 && r.user.len() == 0 {
                e.user
            } else {
                r.user
            },
            ..r
        },
        None => r,
    }
}

pub open spec fn name_or_unknown(r: PortRecord) -> PortRecord {
    if r.process_name.len() == 0 {
        PortRecord { process_name: unknown(), process_name_unknown: true, ..r }
    } else {
        r
    }
}

/// A record after enrichment: the owner that `ss` gave, if it ran, then `"unknown"` for a
/// name still missing.
pub open spec fn enriched(r: PortRecord, owners: Option<Seq<OwnerRecord>>) -> PortRecord {
    name_or_unknown(
        match owners {
            Some(os) => with_owner(r, os),
            None => r,
        },
    )
}

fn before_comma_of(s: &Vec<char>) -> (r: Vec<char>)
    ensures
        r@ == before_comma(s@),
{
    match find_in(s, ",") {
        Some(j) => {
            proof {
                lemma_find_bounds(s@, ","@);
            }
            slice(s, 0, j)
        },
        None => slice(s, 0, s.len()),
    }
}

fn pid_in_of(info: &Vec<char>) -> (r: Option<u32>)
    ensures
        r matches Some(p) ==> pid_in(info@) == Some(p as nat),
        r is None ==> pid_in(info@) is None,
{
    let n = info.len();
    match find_in(info, "pid=") {
        Some(i) => {
            proof {
                reveal_strlit("pid=");
                lemma_find_bounds(info@, "pid="@);
            }
            let rest = slice(info, i + 4, n);
            let first = before_comma_of(&rest);
            let r = parse_unsigned_in(&first, 0, first.len(), 10, 0xffff_ffff);
            assert(first@.subrange(0, first@.len() as int) =~= first@);
            match r {
                Some(p) => Some(p as u32),
                None => None,
            }
        },
        None => None,
    }
}

fn name_in_of(info: &Vec<char>) -> (r: Vec<char>)
    ensures
        r@ == name_in(info@),
{
    let n = info.len();
    match find_in(info, "(\"") {
        Some(i) => {
            proof {
                reveal_strlit("(\"");
                lemma_find_bounds(info@, "(\""@);
            }
            let rest = slice(info, i + 2, n);
            match find_in(&rest, "\"") {
                Some(e) => {
                    proof {
                        lemma_find_bounds(rest@, "\""@);
                    }
                    slice(&rest, 0, e)
                },
                None => Vec::new(),
            }
        },
        None => Vec::new(),
    }
}

fn user_in_of(info: &Vec<char>, users: &Vec<UserName>) -> (r: String)
    ensures
        r@ == user_in(info@, users@),
{
    let n = info.len();
    match find_in(info, "uid=") {
        Some(i) => {
            proof {
                reveal_strlit("uid=");
                lemma_find_bounds(info@, "uid="@);
            }
            let rest = slice(info, i + 4, n);
            match find_in(&rest, ",") {
                Some(e) => {
                    proof {
                        lemma_find_bounds(rest@, ","@);
                    }
                    match parse_unsigned_in(&rest, 0, e, 10, 0xffff_ffff) {
                        Some(u) => lookup_user(users, u as u32),
                        None => String::new(),
                    }
                },
                None => String::new(),
            }
        },
        None => String::new(),
    }
}

/// The pid in a `users:` column of `ss`.
pub fn extract_pid_from_process_info(info: &str) -> (r: Option<u32>)
    ensures
        r matches Some(p) ==> pid_in(info@) == Some(p as nat),
        r is None ==> pid_in(info@) is None,
{
    pid_in_of(&chars_of(info))
}

/// The process name in a `users:` column of `ss`; empty where there is none.
pub fn extract_name_from_process_info(info: &str) -> (r: String)
    ensures
        r@ == name_in(info@),
{
    string_of(&name_in_of(&chars_of(info)))
}

/// The user named by the uid in a `users:` column of `ss`; empty where there is none.
pub fn extract_user_from_process_info(info: &str, users: &Vec<UserName>) -> (r: String)
    ensures
        r@ == user_in(info@, users@),
{
    user_in_of(&chars_of(info), users)
}

fn owner_row_of(line: &Vec<char>, users: &Vec<UserName>) -> (r: Option<SocketOwner>)
    ensures
        r matches Some(o) ==> owner_row(line@, users@) == Some(o@),
        r is None ==> owner_row(line@, users@) is None,
{
    let parts = split_words(line);
    let ghost ws = words(line@);
    assert(views(parts@) == ws);
    match find_in(line, "users:") {
        Some(_) => {},
        None => return None,
    }
    if parts.len() < 7 {
        return None;
    }
    assert(parts@[4]@ == ws[4] && parts@[6]@ == ws[6]);
    let port = match decimal_port_of(&parts[4]) {
        Some(p) => p,
        None => return None,
    };
    let info = &parts[6];
    let pid: u32 = match pid_in_of(info) {
        Some(p) => p,
        None => 0,
    };
    let name = name_in_of(info);
    if pid > 0 || name.len() > 0 {
        Some(SocketOwner { port, pid, name: string_of(&name), user: user_in_of(info, users) })
    } else {
        None
    }
}

/// The owners that the output of `ss -tulpn` reports, users resolved through `users`.
pub fn parse_ss_output(output: &str, users: &Vec<UserName>) -> (r: Vec<SocketOwner>)
    ensures
        owner_records(r@) == ss_owners(output@, users@),
{
    let all = split_lines(&chars_of(output));
    let ghost ls = after_header(lines(output@));
    let mut out: Vec<SocketOwner> = Vec::new();
    if all.len() == 0 {
        return out;
    }
    let mut i: usize = 1;
    while i < all.len()
        invariant
            1 <= i <= all@.len(),
            ls == views(all@).drop_first(),
            owner_records(out@) == owner_rows(ls.subrange(0, i - 1), users@),
        decreases all@.len() - i,
    {
        let ghost before = owner_records(out@);
        assert(ls.subrange(0, i as int).drop_last() =~= ls.subrange(0, i - 1));
        assert(ls.subrange(0, i as int).last() == all@[i as int]@);
        match owner_row_of(&all[i], users) {
            Some(o) => {
                out.push(o);
                assert(owner_records(out@) =~= before + seq![out@.last()@]);
            },
            None => {
                assert(before + Seq::<OwnerRecord>::empty() =~= before);
            },
        }
        i = i + 1;
    }
    assert(ls.subrange(0, all@.len() - 1) =~= ls);
    out
}

fn owner_index(owners: &Vec<SocketOwner>, port: u16) -> (r: Option<usize>)
    ensures
        r matches Some(j) ==> j < owners@.len() && owner_for(owner_records(owners@), port) == Some(
            owners@[j as int]@,
        ),
        r is None ==> owner_for(owner_records(owners@), port) is None,
{
    let ghost all = owner_records(owners@);
    let mut i: usize = owners.len();
    assert(all.subrange(0, i as int) =~= all);
    while i > 0
        invariant
            i <= owners@.len(),
            all == owner_records(owners@),
            owner_for(all, port) == owner_for(all.subrange(0, i as int), port),
        decreases i,
    {
        assert(all.subrange(0, i as int).drop_last() =~= all.subrange(0, i - 1));
        if owners[i - 1].port == port {
            return Some(i - 1);
        }
        i = i - 1;
    }
    None
}

fn apply_owner(p: &mut PortInfo, owners: &Vec<SocketOwner>)
    ensures
        final(p)@ == with_owner(old(p)@, owner_records(owners@)),
{
    match owner_index(owners, p.port) {
        Some(j) => {
            let o = &owners[j];
            p.pid = o.pid;
            if !o.name.as_str().is_empty() {
                p.process_name = o.name.clone();
            }
            if !o.user.as_str().is_empty() && p.user.as_str().is_empty() {
                p.user = o.user.clone();
            }
        },
        None => {},
    }
}

/// Gives each record the owner that `ss` reported for its port.
pub fn try_ss_command(ports: &mut Vec<PortInfo>, owners: &Vec<SocketOwner>)
    ensures
        final(ports)@.len() == old(ports)@.len(),
        forall|i: int|
            0 <= i < old(ports)@.len() ==> (#[trigger] final(ports)@[i])@ == with_owner(
                old(ports)@[i]@,
                owner_records(owners@),
            ),
{
    let mut i: usize = 0;
    while i < ports.len()
        invariant
            i <= ports@.len() == old(ports)@.len(),
            forall|k: int|
                0 <= k < i ==> (#[trigger] ports@[k])@ == with_owner(
                    old(ports)@[k]@,
                    owner_records(owners@),
                ),
            forall|k: int| i <= k < ports@.len() ==> #[trigger] ports@[k] == old(ports)@[k],
        decreases ports@.len() - i,
    {
        let mut p = ports[i].duplicate();
        apply_owner(&mut p, owners);
        ports.set(i, p);
        i = i + 1;
    }
}

/// Fills the owners that `ss` reported, if it ran, then marks records whose process name
/// is still unknown.
pub fn enhance_ports_with_process_info(ports: &mut Vec<PortInfo>, owners: Option<&Vec<SocketOwner>>)
    ensures
        final(ports)@.len() == old(ports)@.len(),
        forall|i: int|
            0 <= i < old(ports)@.len() ==> (#[trigger] final(ports)@[i])@ == enriched(
                old(ports)@[i]@,
                match owners {
                    Some(o) => Some(owner_records(o@)),
                    None => None,
                },
            ),
{
    let ghost start = ports@;
    match owners {
        Some(o) => try_ss_command(ports, o),
        None => {},
    }
    let ghost mid = ports@;
    let mut i: usize = 0;
    while i < ports.len()
        invariant
            i <= ports@.len() == mid.len() == start.len(),
            forall|k: int|
                0 <= k < i ==> (#[trigger] ports@[k])@ == name_or_unknown(mid[k]@),
            forall|k: int| i <= k < ports@.len() ==> #[trigger] ports@[k] == mid[k],
        decreases ports@.len() - i,
    {
        let mut p = ports[i].duplicate();
        if p.process_name.as_str().is_empty() {
            p.process_name = owned("unknown");
            p.process_name_unknown = true;
        }
        ports.set(i, p);
        i = i + 1;
    }
}

/// The name that lines of the passwd database give a uid: the first line whose third
/// field reads as it.
pub open spec fn passwd_name(ls: Seq<Seq<char>>, uid: u32) -> Option<Seq<char>>
    decreases ls.len(),
{
    if ls.len() == 0 {
        None
    } else {
        let f = split_on(ls[0], ':');
        if f.len() >= 3 && uid_value(f[2]) == uid {
            Some(f[0])
        } else {
            passwd_name(ls.drop_first(), uid)
        }
    }
}

/// The user name of a uid: what `id -nu` printed, trimmed, where it ran; else the
/// passwd database's entry; else the uid in decimal.
pub open spec fn resolved_user(id_output: Option<Seq<char>>, passwd: Option<Seq<char>>, uid: u32) -> Seq<char> {
    match id_output {
        Some(o) => trim(o),
        None => match passwd {
            Some(p) => match passwd_name(lines(p), uid) {
                Some(n) => n,
                None => dec_text(uid as nat),
            },
            None => dec_text(uid as nat),
        },
    }
}

/// The name of a uid in the text of the passwd database.
pub fn passwd_lookup(content: &str, uid: u32) -> (r: Option<String>)
    ensures
        r matches Some(n) ==> passwd_name(lines(content@), uid) == Some(n@),
        r is None ==> passwd_name(lines(content@), uid) is None,
{
    let all = split_lines(&chars_of(content));
    let ghost ls = views(all@);
    let mut i: usize = 0;
    assert(ls.subrange(0, ls.len() as int) =~= ls);
    while i < all.len()
        invariant
            i <= all@.len(),
            ls == views(all@),
            ls == lines(content@),
            passwd_name(ls, uid) == passwd_name(ls.subrange(i as int, ls.len() as int), uid),
        decreases all@.len() - i,
    {
        assert(ls.subrange(i as int, ls.len() as int).drop_first() =~= ls.subrange(
            i + 1,
            ls.len() as int,
        ));
        let f = split_fields(&all[i], ':');
        assert(ls.subrange(i as int, ls.len() as int)[0] == all@[i as int]@);
        if f.len() >= 3 {
            assert(views(f@)[2] == f@[2]@);
            if uid_of(&f[2]) == uid {
                assert(views(f@)[0] == f@[0]@);
                return Some(string_of(&f[0]));
            }
        }
        i = i + 1;
    }
    None
}

/// The user name of a uid from what `id -nu <uid>` printed, if it ran with success, and
/// from the passwd database's text, if it could be read.
pub fn username_from(id_output: Option<&str>, passwd: Option<&str>, uid: u32) -> (r: String)
    ensures
        r@ == resolved_user(
            match id_output {
                Some(o) => Some(o@),
                None => None,
            },
            match passwd {
                Some(p) => Some(p@),
                None => None,
            },
            uid,
        ),
{
    match id_output {
        Some(o) => string_of(&trim_chars(&chars_of(o))),
        None => {
            let found = match passwd {
                Some(p) => passwd_lookup(p, uid),
                None => None,
            };
            match found {
                Some(n) => n,
                None => {
                    let mut out: Vec<char> = Vec::new();
                    push_radix(&mut out, uid as u64, 10);
                    string_of(&out)
                },
            }
        },
    }
}

fn decimal_string(n: u64) -> (r: String)
    ensures
        r@ == dec_text(n as nat),
{
    let mut out: Vec<char> = Vec::new();
    push_radix(&mut out, n, 10);
    string_of(&out)
}

/// The user name of a uid, asked of `id`, then of the passwd database.
pub fn get_username_from_uid<S: SystemAccess>(sys: &S, uid: u32) -> (r: String)
    ensures
        exists|id_output: Option<Seq<char>>, passwd: Option<Seq<char>>|
            r@ == resolved_user(id_output, passwd, uid),
{
    let args = vec![owned("-nu"), decimal_string(uid as u64)];
    match sys.run_command("id", &args) {
        Ok(out) => {
            let r = username_from(Some(out.as_str()), None, uid);
            assert(r@ == resolved_user(Some(out@), None, uid));
            r
        },
        Err(_) => match sys.read_file("/etc/passwd") {
            Some(p) => {
                let r = username_from(None, Some(p.as_str()), uid);
                assert(r@ == resolved_user(None, Some(p@), uid));
                r
            },
            None => {
                let r = username_from(None, None, uid);
                assert(r@ == resolved_user(None, None, uid));
                r
            },
        },
    }
}

fn has_uid(users: &Vec<UserName>, uid: u32) -> bool {
    let mut i: usize = 0;
    while i < users.len()
        invariant
            i <= users@.len(),
        decreases users@.len() - i,
    {
        if users[i].uid == uid {
            return true;
        }
        i = i + 1;
    }
    false
}

fn add_user<S: SystemAccess>(sys: &S, users: &mut Vec<UserName>, uid: u32) {
    if !has_uid(users, uid) {
        let name = get_username_from_uid(sys, uid);
        users.push(UserName { uid, name });
    }
}

/// Resolves the owner uid of every row of a socket table.
fn add_table_users<S: SystemAccess>(sys: &S, users: &mut Vec<UserName>, content: &Option<String>) {
    match content {
        Some(c) => {
            let all = split_lines(&chars_of(c.as_str()));
            let mut i: usize = 1;
            while i < all.len()
                invariant
                    1 <= i,
                decreases all@.len() - i,
            {
                let parts = split_words(&all[i]);
                if parts.len() >= 12 {
                    add_user(sys, users, uid_of(&parts[7]));
                }
                i = i + 1;
            }
        },
        None => {},
    }
}

/// Resolves the uid of every owner line of `ss`.
fn add_ss_users<S: SystemAccess>(sys: &S, users: &mut Vec<UserName>, output: &str) {
    let all = split_lines(&chars_of(output));
    let mut i: usize = 1;
    while i < all.len()
        invariant
            1 <= i,
        decreases all@.len() - i,
    {
        let parts = split_words(&all[i]);
        if parts.len() >= 7 {
            let info = &parts[6];
            let n = info.len();
            match find_in(info, "uid=") {
                Some(k) => {
                    proof {
                        reveal_strlit("uid=");
                        lemma_find_bounds(info@, "uid="@);
                    }
                    let rest = slice(info, k + 4, n);
                    match find_in(&rest, ",") {
                        Some(e) => {
                            proof {
                                lemma_find_bounds(rest@, ","@);
                            }
                            match parse_unsigned_in(&rest, 0, e, 10, 0xffff_ffff) {
                                Some(u) => add_user(sys, users, u as u32),
                                None => {},
                            }
                        },
                        None => {},
                    }
                },
                None => {},
            }
        }
        i = i + 1;
    }
}

fn add_rows(ports: &mut Vec<PortInfo>, content: &Option<String>, protocol: &str, users: &Vec<UserName>, tcp: bool)
    ensures
        records(final(ports)@) == records(old(ports)@) + table_of(*content, protocol@, users@, tcp),
{
    match content {
        Some(c) => {
            let mut rows = parse_table(c.as_str(), protocol, users, tcp);
            let ghost before = ports@;
            let ghost added = rows@;
            ports.append(&mut rows);
            assert(records(ports@) =~= records(before) + records(added));
        },
        None => {
            assert(records(ports@) =~= records(old(ports)@) + Seq::<PortRecord>::empty());
        },
    }
}

pub open spec fn table_of(content: Option<String>, protocol: Seq<char>, users: Seq<UserName>, tcp: bool) -> Seq<PortRecord> {
    match content {
        Some(c) => socket_table(c@, protocol, users, tcp),
        None => Seq::empty(),
    }
}

/// The records of the four socket tables that could be read, in the order TCP, TCP over
/// IPv6, UDP, UDP over IPv6.
pub open spec fn all_tables(tcp: Option<String>, tcp6: Option<String>, udp: Option<String>, udp6: Option<String>, users: Seq<UserName>) -> Seq<PortRecord> {
    table_of(tcp, "tcp"@, users, true) + table_of(tcp6, "tcp6"@, users, true) + table_of(
        udp,
        "udp"@,
        users,
        false,
    ) + table_of(udp6, "udp6"@, users, false)
}

/// The records of the socket tables that could be read.
pub fn parse_socket_tables(tcp: &Option<String>, tcp6: &Option<String>, udp: &Option<String>, udp6: &Option<String>, users: &Vec<UserName>) -> (r: Vec<PortInfo>)
    ensures
        records(r@) == all_tables(*tcp, *tcp6, *udp, *udp6, users@),
{
    let mut ports: Vec<PortInfo> = Vec::new();
    add_rows(&mut ports, tcp, "tcp", users, true);
    add_rows(&mut ports, tcp6, "tcp6", users, true);
    add_rows(&mut ports, udp, "udp", users, false);
    add_rows(&mut ports, udp6, "udp6", users, false);
    assert(records(ports@) =~= all_tables(*tcp, *tcp6, *udp, *udp6, users@));
    ports
}

/// The owners in `ss`'s output, where it ran.
pub open spec fn ss_owners_of(ss: Option<String>, users: Seq<UserName>) -> Option<Seq<OwnerRecord>> {
    match ss {
        Some(o) => Some(ss_owners(o@, users)),
        None => None,
    }
}

/// None of the four socket tables could be read.
pub open spec fn no_table(tcp: Option<String>, tcp6: Option<String>, udp: Option<String>, udp6: Option<String>) -> bool {
    tcp is None && tcp6 is None && udp is None && udp6 is None
}

/// The records of the tables that could be read, each enriched with what `ss` reported.
pub open spec fn linux_records(tcp: Option<String>, tcp6: Option<String>, udp: Option<String>, udp6: Option<String>, users: Seq<UserName>, ss: Option<String>) -> Seq<PortRecord> {
    all_tables(tcp, tcp6, udp, udp6, users).map_values(
        |x: PortRecord| enriched(x, ss_owners_of(ss, users)),
    )
}

/// The list is what some readable socket tables and some `ss` output give.
pub open spec fn is_linux_scan(rs: Seq<PortRecord>) -> bool {
    exists|
        tcp: Option<String>,
        tcp6: Option<String>,
        udp: Option<String>,
        udp6: Option<String>,
        users: Seq<UserName>,
        ss: Option<String>,
    |
        !no_table(tcp, tcp6, udp, udp6) && rs == linux_records(tcp, tcp6, udp, udp6, users, ss)
}

/// The Linux scan's result from the socket tables that could be read and from the output of
/// `ss`, where it ran: an error where no table could be read; else every table row, with the
/// owner `ss` reported and `"unknown"` for a name still missing.
pub fn linux_result(tcp: &Option<String>, tcp6: &Option<String>, udp: &Option<String>, udp6: &Option<String>, users: &Vec<UserName>, ss: &Option<String>) -> (r: Result<Vec<PortInfo>, PortError>)
    ensures
        no_table(*tcp, *tcp6, *udp, *udp6) ==> (r matches Err(
            PortError::CommandFailed { cmd, reason },
        ) && cmd@ == "/proc/net"@),
        !no_table(*tcp, *tcp6, *udp, *udp6) ==> (r matches Ok(v) && records(v@) == linux_records(
            *tcp,
            *tcp6,
            *udp,
            *udp6,
            users@,
            *ss,
        )),
{
    if tcp.is_none() && tcp6.is_none() && udp.is_none() && udp6.is_none() {
        return Err(
            PortError::CommandFailed {
                cmd: owned("/proc/net"),
                reason: owned("no socket table could be read"),
            },
        );
    }
    let mut ports = parse_socket_tables(tcp, tcp6, udp, udp6, users);
    match ss {
        Some(o) => {
            let owners = parse_ss_output(o.as_str(), users);
            enhance_ports_with_process_info(&mut ports, Some(&owners));
        },
        None => enhance_ports_with_process_info(&mut ports, None),
    }
    assert(records(ports@) =~= linux_records(*tcp, *tcp6, *udp, *udp6, users@, *ss));
    Ok(ports)
}

impl PortScanner for LinuxScanner {
    /// Reads the four socket tables that exist and, where they hold any row, asks `ss` for
    /// the owning processes.
    fn scan<S: SystemAccess>(&self, sys: &S) -> (r: Result<Vec<PortInfo>, PortError>)
        ensures
            r matches Ok(v) ==> is_linux_scan(records(v@)),
            r matches Err(e) ==> e matches PortError::CommandFailed { .. },
    {
        let tcp = sys.read_file("/proc/net/tcp");
        let tcp6 = sys.read_file("/proc/net/tcp6");
        let udp = sys.read_file("/proc/net/udp");
        let udp6 = sys.read_file("/proc/net/udp6");
        let any_rows = parse_socket_tables(&tcp, &tcp6, &udp, &udp6, &Vec::new()).len() > 0;
        let mut users: Vec<UserName> = Vec::new();
        add_table_users(sys, &mut users, &tcp);
        add_table_users(sys, &mut users, &tcp6);
        add_table_users(sys, &mut users, &udp);
        add_table_users(sys, &mut users, &udp6);
        let ss = if any_rows {
            let args = vec![owned("-tulpn")];
            match sys.run_command("ss", &args) {
                Ok(out) => {
                    add_ss_users(sys, &mut users, out.as_str());
                    Some(out)
                },
                Err(_) => None,
            }
        } else {
            None
        };
        let r = linux_result(&tcp, &tcp6, &udp, &udp6, &users, &ss);
        proof {
            if r is Ok {
                assert(records(r->Ok_0@) == linux_records(tcp, tcp6, udp, udp6, users@, ss));
            }
        }
        r
    }
}

/// A row of a socket table whose local address has no port that parses yields no record:
/// the table's records are those of the other rows.
pub proof fn law_table_row_without_port_dropped(ls: Seq<Seq<char>>, line: Seq<char>, protocol: Seq<char>, users: Seq<UserName>, tcp: bool)
    requires
        words(line).len() >= 12 ==> hex_port(words(line)[1]) is None,
    ensures
        table_row(line, protocol, users, tcp) is None,
        table_rows(ls.push(line), protocol, users, tcp) == table_rows(ls, protocol, users, tcp),
{
    assert(ls.push(line).drop_last() =~= ls);
    assert(table_rows(ls, protocol, users, tcp) + Seq::<PortRecord>::empty() =~= table_rows(
        ls,
        protocol,
        users,
        tcp,
    ));
}

/// The hex digit that the kernel prints for a value below 16.
pub open spec fn upper_hex_digit(d: nat) -> char {
    if d < 10 {
        ((d + 48) as u32) as char
    } else {
        ((d + 55) as u32) as char
    }
}

/// A byte as the kernel prints it: two upper-case hex digits.
pub open spec fn hex2(x: u8) -> Seq<char> {
    seq![upper_hex_digit(x as nat / 16), upper_hex_digit(x as nat % 16)]
}

proof fn lemma_upper_hex_digit(d: nat)
    requires
        d < 16,
    ensures
        digit_val(upper_hex_digit(d)) == d,
{
    let c = upper_hex_digit(d);
    if d < 10 {
        assert(c as u32 == d + 48);
    } else {
        assert(c as u32 == d + 55);
    }
}

proof fn lemma_hex2(x: u8)
    ensures
        all_digits(hex2(x), 16),
        digits_value(hex2(x), 16) == x as nat,
{
    let h = hex2(x);
    lemma_upper_hex_digit(x as nat / 16);
    lemma_upper_hex_digit(x as nat % 16);
    assert(h.drop_last().drop_last() =~= Seq::<char>::empty());
    assert(h.drop_last() =~= seq![upper_hex_digit(x as nat / 16)]);
    assert(digits_value(h.drop_last().drop_last(), 16) == 0);
    assert(h.drop_last().last() == upper_hex_digit(x as nat / 16));
    assert(digits_value(h.drop_last(), 16) == x as nat / 16);
    assert(h.last() == upper_hex_digit(x as nat % 16));
}

/// The kernel writes the IPv4 address `a.b.c.d` as the little-endian word `d c b a` in hex;
/// `hex_to_ip` reads that text back as `a.b.c.d`.
pub proof fn law_ipv4_round_trip(a: u8, b: u8, c: u8, d: u8)
    ensures
        hex_ip(hex2(d) + hex2(c) + hex2(b) + hex2(a)) == Some(
            dec_text(a as nat) + seq!['.'] + dec_text(b as nat) + seq!['.'] + dec_text(c as nat)
                + seq!['.'] + dec_text(d as nat),
        ),
{
    let s = hex2(d) + hex2(c) + hex2(b) + hex2(a);
    lemma_hex2(a);
    lemma_hex2(b);
    lemma_hex2(c);
    lemma_hex2(d);
    assert(s.subrange(0, 2) =~= hex2(d));
    assert(s.subrange(2, 4) =~= hex2(c));
    assert(s.subrange(4, 6) =~= hex2(b));
    assert(s.subrange(6, 8) =~= hex2(a));
    assert(all_digits(s, 16)) by {
        assert forall|i: int| 0 <= i < s.len() implies digit_val(#[trigger] s[i]) < 16 by {
            if i < 2 {
                assert(s[i] == hex2(d)[i]);
            } else if i < 4 {
                assert(s[i] == hex2(c)[i - 2]);
            } else if i < 6 {
                assert(s[i] == hex2(b)[i - 4]);
            } else {
                assert(s[i] == hex2(a)[i - 6]);
            }
        }
    }
}

} // verus!
