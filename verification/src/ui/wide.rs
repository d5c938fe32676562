//! UTF-16 text for the Windows interface.

use crate::text;
use vstd::prelude::*;

verus! {

/// The UTF-16 code units of a character: one, or a surrogate pair.
pub open spec fn code_units(c: char) -> Seq<u16> {
    let n = c as u32 as int;
    if n < 0x10000 {
        seq![n as u16]
    } else {
        seq![(0xD800 + (n - 0x10000) / 0x400) as u16, (0xDC00 + (n - 0x10000) % 0x400) as u16]
    }
}

/// The UTF-16 code units of a text.
pub open spec fn utf16(s: Seq<char>) -> Seq<u16>
    decreases s.len(),
{
    if s.len() == 0 {
        seq![]
    } else {
        utf16(s.drop_last()) + code_units(s.last())
    }
}

/// The UTF-16 code units of a text.
pub fn encode_utf16(s: &str) -> (r: Vec<u16>)
    ensures
        r@ == utf16(s@),
{
    let v = text::chars_of(s);
    let mut out: Vec<u16> = Vec::new();
    let mut i: usize = 0;
    assert(v@.take(0) =~= Seq::<char>::empty());
    while i < v.len()
        invariant
            v@ == s@,
            i <= v@.len(),
            out@ == utf16(v@.take(i as int)),
        decreases v@.len() - i,
    {
        let ghost before = out@;
        assert(v@.take(i + 1).drop_last() =~= v@.take(i as int));
        let n: u32 = v[i] as u32;
        if n < 0x10000 {
            out.push(n as u16);
        } else {
            let rest: u32 = n - 0x10000;
            out.push((0xD800 + rest / 0x400) as u16);
            out.push((0xDC00 + rest % 0x400) as u16);
        }
        assert(out@ =~= before + code_units(v@[i as int]));
        i += 1;
    }
    assert(v@.take(v@.len() as int) =~= v@);
    out
}

/// The UTF-16 code units of a text, closed by a zero.
pub fn wide(s: &str) -> (r: Vec<u16>)
    ensures
        r@ == utf16(s@).push(0),
{
    let mut out = encode_utf16(s);
    out.push(0);
    out
}

/// `units` without the zeros at its end.
pub open spec fn without_zeros(units: Seq<u16>) -> Seq<u16>
    decreases units.len(),
{
    if units.len() > 0 && units.last() == 0 {
        without_zeros(units.drop_last())
    } else {
        units
    }
}

/// Takes the zeros at the end off.
pub fn strip_zeros(units: &mut Vec<u16>)
    ensures
        final(units)@ == without_zeros(old(units)@),
{
    while units.len() > 0 && units[units.len() - 1] == 0
        invariant
            without_zeros(units@) == without_zeros(old(units)@),
        decreases units@.len(),
    {
        let ghost before = units@;
        let last = units.pop();
        assert(units@ =~= before.drop_last());
    }
}

/// A text without zeros at its end survives being closed by a zero.
pub proof fn law_closing_zero_comes_off(s: Seq<char>)
    requires
        s.len() > 0 ==> s.last() != '\0',
    ensures
        without_zeros(utf16(s).push(0)) == utf16(s),
{
    let units = utf16(s);
    assert(units.push(0).drop_last() =~= units);
    if s.len() > 0 {
        lemma_last_unit(s.last());
        assert(units.last() == code_units(s.last()).last());
    }
    assert(without_zeros(units) == units);
}

proof fn lemma_last_unit(c: char)
    requires
        c != '\0',
    ensures
        code_units(c).last() != 0,
{
}

/// UTF-16 keeps every character, in order: one unit for each of the first 65536,
/// and a pair of surrogates, from which the character reads back, for each of the
/// others.
pub proof fn law_characters_read_back(a: Seq<char>, b: Seq<char>, c: char)
    ensures
        utf16(a + b) == utf16(a) + utf16(b),
        (c as u32) < 0x10000 ==> utf16(seq![c]).len() == 1 && utf16(seq![c])[0] == c as u32,
        c as u32 >= 0x10000 ==> ({
            let pair = utf16(seq![c]);
            &&& pair.len() == 2
            &&& 0xD800 <= pair[0] < 0xDC00 <= pair[1] < 0xE000
            &&& 0x10000 + 0x400 * (pair[0] - 0xD800) + (pair[1] - 0xDC00) == c as u32
        }),
    decreases b.len(),
{
    let n = c as u32;
    assert((seq![c]).drop_last() =~= Seq::<char>::empty());
    assert(utf16(seq![]) =~= Seq::<u16>::empty());
    assert(utf16(seq![c]) =~= code_units(c));
    assert(n <= 0x10FFFF);
    if b.len() == 0 {
        assert(a + b =~= a);
        assert(utf16(a) + Seq::<u16>::empty() =~= utf16(a));
    } else {
        law_characters_read_back(a, b.drop_last(), c);
        assert((a + b).drop_last() =~= a + b.drop_last());
        assert(utf16(a) + utf16(b.drop_last()) + code_units(b.last()) =~= utf16(a) + (utf16(
            b.drop_last(),
        ) + code_units(b.last())));
    }
}

/// Only zeros come off the end, and all of them. Returns how many.
pub proof fn law_only_zeros_come_off(units: Seq<u16>) -> (n: nat)
    ensures
        units == without_zeros(units) + Seq::new(n, |i: int| 0u16),
        without_zeros(units).len() > 0 ==> without_zeros(units).last() != 0,
    decreases units.len(),
{
    if units.len() > 0 && units.last() == 0 {
        let n = law_only_zeros_come_off(units.drop_last());
        let zeros = Seq::new(n, |i: int| 0u16);
        assert(units =~= units.drop_last().push(0));
        assert(zeros.push(0) =~= Seq::new(n + 1, |i: int| 0u16));
        assert((without_zeros(units) + zeros).push(0) =~= without_zeros(units) + zeros.push(0));
        n + 1
    } else {
        assert(units =~= units + Seq::new(0, |i: int| 0u16));
        0
    }
}

} // verus!
