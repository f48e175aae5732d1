//! UTF-16 text for the Windows API.
use vstd::prelude::*;

verus! {

broadcast use vstd::string::group_string_axioms;

/// The UTF-16 code units of one character: one unit below U+10000, else a
/// surrogate pair.
pub open spec fn utf16_units(c: char) -> Seq<u16> {
    let n = c as u32;
    if n < 0x10000 {
        seq![n as u16]
    } else {
        let m = n - 0x10000;
        seq![(0xd800 + m / 0x400) as u16, (0xdc00 + m % 0x400) as u16]
    }
}

/// The UTF-16 encoding of a character sequence (`str::encode_utf16`).
pub open spec fn utf16(s: Seq<char>) -> Seq<u16>
    decreases s.len(),
{
    if s.len() == 0 {
        seq![]
    } else {
        utf16(s.drop_last()) + utf16_units(s.last())
    }
}

/// The text in UTF-16, followed by a terminating zero unit.
pub fn to_wide(text: &str) -> (r: Vec<u16>)
    ensures
        r@ == utf16(text@).push(0u16),
{
    let mut r: Vec<u16> = Vec::new();
    assert(text@.take(0) =~= seq![]);
    for c in it: text.chars()
        invariant
            it.seq() == text@,
            r@ == utf16(it.seq().take(it.index() as int)),
    {
        let ghost i = it.index();
        proof {
            let t = it.seq().take(i + 1);
            assert(t.drop_last() =~= it.seq().take(i as int));
        }
        let n = c as u32;
        proof { vstd::utf8::char_is_scalar(c); }
        if n < 0x10000 {
            r.push(n as u16);
        } else {
            let m = n - 0x10000;
            r.push((0xd800 + m / 0x400) as u16);
            r.push((0xdc00 + m % 0x400) as u16);
        }
        assert(r@ =~= utf16(it.seq().take(i + 1)));
    }
    r.push(0);
    assert(text@.take(text@.len() as int) =~= text@);
    r
}

} // verus!
