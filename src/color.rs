//! Colours written as `#rrggbb`.
use vstd::prelude::*;
use crate::text::{chars_of, owned, parse_unsigned, parse_unsigned_in};

verus! {

/// The text without its leading `#` characters.
pub open spec fn strip_hashes(s: Seq<char>) -> Seq<char>
    decreases s.len(),
{
    if s.len() > 0 && s[0] == '#' {
        strip_hashes(s.drop_first())
    } else {
        s
    }
}

pub open spec fn channel(s: Seq<char>, k: int) -> Option<nat> {
    parse_unsigned(s.subrange(2 * k, 2 * k + 2), 16, 255)
}

/// The red, green and blue values of a colour: the first six characters after any
/// leading `#`, two hex digits each.
pub open spec fn hex_color(s: Seq<char>) -> Result<(u8, u8, u8), Seq<char>> {
    let c = strip_hashes(s);
    if c.len() < 6 {
        Err("Invalid color format"@)
    } else if channel(c, 0) is None || channel(c, 1) is None || channel(c, 2) is None {
        Err("invalid digit found in string"@)
    } else {
        Ok((channel(c, 0)->0 as u8, channel(c, 1)->0 as u8, channel(c, 2)->0 as u8))
    }
}

/// Reads a colour written as `#rrggbb`.
pub fn parse_hex_color(color: &str) -> (r: Result<(u8, u8, u8), String>)
    ensures
        r matches Ok(t) ==> hex_color(color@) == Ok::<(u8, u8, u8), Seq<char>>(t),
        r matches Err(e) ==> hex_color(color@) == Err::<(u8, u8, u8), Seq<char>>(e@),
{
    let v = chars_of(color);
    let mut lo: usize = 0;
    assert(v@.subrange(0, v@.len() as int) =~= v@);
    while lo < v.len() && v[lo] == '#'
        invariant
            lo <= v@.len(),
            strip_hashes(v@) == strip_hashes(v@.subrange(lo as int, v@.len() as int)),
        decreases v@.len() - lo,
    {
        assert(v@.subrange(lo as int, v@.len() as int).drop_first() =~= v@.subrange(
            lo + 1,
            v@.len() as int,
        ));
        lo = lo + 1;
    }
    let ghost c = v@.subrange(lo as int, v@.len() as int);
    assert(strip_hashes(v@) == c);
    if v.len() - lo < 6 {
        return Err(owned("Invalid color format"));
    }
    assert(c.subrange(0, 2) =~= v@.subrange(lo as int, lo + 2));
    assert(c.subrange(2, 4) =~= v@.subrange(lo + 2, lo + 4));
    assert(c.subrange(4, 6) =~= v@.subrange(lo + 4, lo + 6));
    let r = parse_unsigned_in(&v, lo, lo + 2, 16, 255);
    let g = parse_unsigned_in(&v, lo + 2, lo + 4, 16, 255);
    let b = parse_unsigned_in(&v, lo + 4, lo + 6, 16, 255);
    match (r, g, b) {
        (Some(r), Some(g), Some(b)) => Ok((r as u8, g as u8, b as u8)),
        _ => Err(owned("invalid digit found in string")),
    }
}

} // verus!
