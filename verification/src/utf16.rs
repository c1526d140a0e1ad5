//! UTF-16 as wide text buffers hold it: one 16 bit unit for a character of the basic plane, a
//! high and a low surrogate for any other.
use vstd::prelude::*;
use vstd::utf8::{char_is_scalar, char_u32_cast};

verus! {

pub open spec fn is_high_surrogate(unit: u16) -> bool {
    0xD800 <= unit <= 0xDBFF
}

pub open spec fn is_low_surrogate(unit: u16) -> bool {
    0xDC00 <= unit <= 0xDFFF
}

pub open spec fn is_surrogate(unit: u16) -> bool {
    0xD800 <= unit <= 0xDFFF
}

/// The code point that a high and a low surrogate stand for together.
pub open spec fn pair_scalar(high: u16, low: u16) -> int {
    0x10000 + (high - 0xD800) * 0x400 + (low - 0xDC00)
}

/// The number of units that the first character of `units` takes, 0 where `units` is empty
/// or starts with a surrogate that has no partner.
pub open spec fn first_len(units: Seq<u16>) -> int {
    if units.len() == 0 {
        0
    } else if !is_surrogate(units[0]) {
        1
    } else if is_high_surrogate(units[0]) && units.len() >= 2 && is_low_surrogate(units[1]) {
        2
    } else {
        0
    }
}

/// The first character of `units`, where `first_len(units)` is not 0.
pub open spec fn first_char(units: Seq<u16>) -> char {
    if first_len(units) == 1 {
        (units[0] as u32) as char
    } else {
        (pair_scalar(units[0], units[1]) as u32) as char
    }
}

/// True when `units` is well-formed UTF-16: every surrogate is one half of a pair.
pub open spec fn valid_utf16(units: Seq<u16>) -> bool
    decreases units.len(),
{
    units.len() == 0 || (first_len(units) > 0 && valid_utf16(units.skip(first_len(units))))
}

/// The characters that well-formed `units` encode.
pub open spec fn decode_utf16(units: Seq<u16>) -> Seq<char>
    decreases units.len(),
{
    if units.len() == 0 || first_len(units) == 0 {
        Seq::<char>::empty()
    } else {
        seq![first_char(units)] + decode_utf16(units.skip(first_len(units)))
    }
}

/// The units that encode one character.
pub open spec fn encode_char_utf16(c: char) -> Seq<u16> {
    let v = c as u32;
    if v < 0x10000 {
        seq![v as u16]
    } else {
        seq![(0xD800 + (v - 0x10000) / 0x400) as u16, (0xDC00 + (v - 0x10000) % 0x400) as u16]
    }
}

/// The units that encode `chars`.
pub open spec fn encode_utf16(chars: Seq<char>) -> Seq<u16>
    decreases chars.len(),
{
    if chars.len() == 0 {
        Seq::<u16>::empty()
    } else {
        encode_char_utf16(chars[0]) + encode_utf16(chars.drop_first())
    }
}

/// Every text survives the way through UTF-16 unchanged, whether its characters take one unit
/// or two: what `encode_utf16` gives is well-formed, and `decode_utf16` gives the text back.
pub proof fn lemma_utf16_round_trip(chars: Seq<char>)
    ensures
        valid_utf16(encode_utf16(chars)),
        decode_utf16(encode_utf16(chars)) == chars,
    decreases chars.len(),
{
    if chars.len() > 0 {
        let c = chars[0];
        let v = c as u32;
        let head = encode_char_utf16(c);
        let rest = encode_utf16(chars.drop_first());
        let units = head + rest;
        lemma_utf16_round_trip(chars.drop_first());
        char_is_scalar(c);
        char_u32_cast(c, v);
        assert(v <= 0xD7FF || 0xE000 <= v <= 0x10FFFF);
        assert(first_len(units) == head.len());
        assert(units.skip(head.len() as int) =~= rest);
        if v < 0x10000 {
            assert(units[0] == v as u16);
            assert(units[0] as u32 == v);
            assert(first_char(units) == c);
        } else {
            assert(units[0] == head[0]);
            assert(units[1] == head[1]);
            assert(pair_scalar(units[0], units[1]) == v);
            assert(pair_scalar(units[0], units[1]) as u32 == v);
            assert(first_char(units) == c);
        }
        assert(seq![c] + chars.drop_first() =~= chars);
    }
}

/// Appends to `buf` the characters that `units` encode. Gives `false` where `units` is not
/// well-formed UTF-16; what `buf` then holds is of no use.
pub fn push_utf16(buf: &mut String, units: &[u16]) -> (valid: bool)
    ensures
        valid == valid_utf16(units@),
        valid ==> final(buf)@ == old(buf)@ + decode_utf16(units@),
{
    let ghost start = buf@;
    let mut i: usize = 0;
    assert(units@.skip(0) =~= units@);
    while i < units.len()
        invariant
            i <= units.len(),
            valid_utf16(units@) == valid_utf16(units@.skip(i as int)),
            valid_utf16(units@) ==> start + decode_utf16(units@) == buf@ + decode_utf16(
                units@.skip(i as int),
            ),
        decreases units.len() - i,
    {
        let ghost rest = units@.skip(i as int);
        let unit: u16 = units[i];
        assert(rest[0] == unit);
        if unit < 0xD800 || unit > 0xDFFF {
            let c: Option<char> = char::from_u32(unit as u32);
            let c: char = c.unwrap();
            proof {
                char_u32_cast(c, unit as u32);
            }
            assert(c == first_char(rest));
            assert(rest.skip(1) =~= units@.skip(i + 1));
            buf.push(c);
            assert(valid_utf16(units@) ==> start + decode_utf16(units@) =~= buf@ + decode_utf16(
                units@.skip(i + 1),
            ));
            i = i + 1;
        } else {
            if unit > 0xDBFF || i + 1 >= units.len() {
                assert(first_len(rest) == 0);
                return false;
            }
            let low: u16 = units[i + 1];
            assert(rest[1] == low);
            if low < 0xDC00 || low > 0xDFFF {
                assert(first_len(rest) == 0);
                return false;
            }
            let scalar: u32 = 0x10000 + (unit as u32 - 0xD800) * 0x400 + (low as u32 - 0xDC00);
            let c: Option<char> = char::from_u32(scalar);
            let c: char = c.unwrap();
            proof {
                char_u32_cast(c, scalar);
            }
            assert(scalar == pair_scalar(unit, low));
            assert(c == first_char(rest));
            assert(rest.skip(2) =~= units@.skip(i + 2));
            buf.push(c);
            assert(valid_utf16(units@) ==> start + decode_utf16(units@) =~= buf@ + decode_utf16(
                units@.skip(i + 2),
            ));
            i = i + 2;
        }
    }
    assert(units@.skip(i as int) =~= Seq::<u16>::empty());
    true
}

} // verus!
