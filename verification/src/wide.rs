//! Text as the wide strings of Windows: UTF-16, ended by a zero.

use crate::text::chars_of;
use vstd::prelude::*;

verus! {

/// The UTF-16 code units of a character: itself, or a pair of surrogates.
pub open spec fn utf16_units(c: char) -> Seq<u16> {
    if (c as int) < 0x10000 {
        seq![c as u16]
    } else {
        seq![
            (0xd800 + (c as int - 0x10000) / 0x400) as u16,
            (0xdc00 + (c as int - 0x10000) % 0x400) as u16,
        ]
    }
}

/// The UTF-16 code units of a text.
pub open spec fn utf16(s: Seq<char>) -> Seq<u16>
    decreases s.len(),
{
    if s.len() == 0 {
        Seq::empty()
    } else {
        utf16(s.drop_last()) + utf16_units(s.last())
    }
}

proof fn lemma_code_point(c: char)
    ensures
        0 <= c as int <= 0x10ffff,
        !(0xd800 <= c as int <= 0xdfff),
{
}

/// The UTF-16 code units of a text.
pub fn encode_utf16(value: &str) -> (r: Vec<u16>)
    ensures
        r@ == utf16(value@),
{
    let chars = chars_of(value);
    let mut units: Vec<u16> = Vec::new();
    let mut i: usize = 0;
    assert(chars@.take(0) =~= Seq::empty());
    while i < chars.len()
        invariant
            i <= chars@.len(),
            units@ == utf16(chars@.take(i as int)),
        decreases chars@.len() - i,
    {
        proof {
            assert(chars@.take(i + 1).drop_last() =~= chars@.take(i as int));
            assert(chars@.take(i + 1).last() == chars@[i as int]);
        }
        let ghost before = units@;
        let c = chars[i];
        let code: u32 = c as u32;
        proof {
            lemma_code_point(c);
        }
        if code < 0x10000 {
            units.push(code as u16);
            assert(units@ =~= before + utf16_units(chars@[i as int]));
        } else {
            let rest: u32 = code - 0x10000;
            units.push((0xd800 + rest / 0x400) as u16);
            units.push((0xdc00 + rest % 0x400) as u16);
            assert(units@ =~= before + utf16_units(chars@[i as int]));
        }
        i += 1;
    }
    assert(chars@.take(chars@.len() as int) =~= chars@);
    units
}

/// The text as a wide string: its UTF-16 code units, and a zero behind them.
pub fn wide_str(value: &str) -> (r: Vec<u16>)
    ensures
        r@ == utf16(value@).push(0),
{
    let mut units = encode_utf16(value);
    units.push(0);
    units
}

/// Copies the text's UTF-16 code units to the start of `target`, as many as fit.
pub fn copy_wide<const N: usize>(target: &mut [u16; N], value: &str)
    ensures
        forall|i: int|
            0 <= i < N ==> #[trigger] final(target)@[i] == (if i < utf16(value@).len() {
                utf16(value@)[i]
            } else {
                old(target)@[i]
            }),
{
    let units = encode_utf16(value);
    let mut i: usize = 0;
    while i < N && i < units.len()
        invariant
            i <= N,
            i <= units@.len(),
            units@ == utf16(value@),
            forall|j: int|
                0 <= j < N ==> #[trigger] target@[j] == (if j < i {
                    units@[j]
                } else {
                    old(target)@[j]
                }),
        decreases N - i,
    {
        target[i] = units[i];
        i += 1;
    }
}

// ---------------------------------------------------------------------------
// Nothing is lost
// ---------------------------------------------------------------------------

/// Whether a unit is the second of a pair.
pub open spec fn is_low_surrogate(u: u16) -> bool {
    0xdc00 <= u < 0xe000
}

/// What the units of a character are: a unit of its own, or a pair.
pub proof fn lemma_units(c: char)
    ensures
        ({
            let u = utf16_units(c);
            &&& (c as int) < 0x10000 ==> u.len() == 1 && u[0] == c as int && !is_low_surrogate(u[0])
            &&& (c as int) >= 0x10000 ==> {
                &&& u.len() == 2
                &&& 0xd800 <= u[0] < 0xdc00
                &&& is_low_surrogate(u[1])
                &&& c as int == 0x10000 + (u[0] - 0xd800) * 0x400 + (u[1] - 0xdc00)
            }
        }),
{
    let rest = c as int - 0x10000;
    if rest >= 0 {
        assert(rest / 0x400 < 0x400);
        assert(rest == rest / 0x400 * 0x400 + rest % 0x400);
    }
}

/// Different texts have different UTF-16 code units.
pub proof fn law_utf16_is_injective(a: Seq<char>, b: Seq<char>)
    requires
        utf16(a) == utf16(b),
    ensures
        a == b,
    decreases a.len(),
{
    if a.len() == 0 || b.len() == 0 {
        if a.len() > 0 {
            lemma_units(a.last());
            assert(utf16(a).len() > 0);
        }
        if b.len() > 0 {
            lemma_units(b.last());
            assert(utf16(b).len() > 0);
        }
        assert(a =~= b);
    } else {
        let whole = utf16(a);
        let ua = utf16_units(a.last());
        let ub = utf16_units(b.last());
        let a0 = utf16(a.drop_last());
        let b0 = utf16(b.drop_last());
        lemma_units(a.last());
        lemma_units(b.last());
        assert(whole.last() == ua.last() && whole.last() == ub.last());
        assert(ua.len() == ub.len());
        assert(a0.len() == b0.len());
        assert(ua =~= ub) by {
            assert forall|i: int| 0 <= i < ua.len() implies ua[i] == ub[i] by {
                assert(whole[a0.len() + i] == ua[i]);
                assert(whole[b0.len() + i] == ub[i]);
            }
        }
        assert(a0 =~= b0) by {
            assert forall|i: int| 0 <= i < a0.len() implies a0[i] == b0[i] by {
                assert(whole[i] == a0[i]);
                assert(whole[i] == b0[i]);
            }
        }
        law_utf16_is_injective(a.drop_last(), b.drop_last());
        assert(a =~= a.drop_last().push(a.last()));
        assert(b =~= b.drop_last().push(b.last()));
    }
}

/// A text is written unit by unit, in the order of its characters: a character of
/// the basic plane as its own code, and any other as the two units that make up its
/// code.
pub proof fn law_utf16_goes_by_characters(s: Seq<char>, c: char)
    ensures
        utf16(Seq::empty()).len() == 0,
        ({
            let all = utf16(s.push(c));
            let n = utf16(s).len() as int;
            &&& all.take(n) == utf16(s)
            &&& (c as int) < 0x10000 ==> all.len() == n + 1 && all[n] == c as int
            &&& (c as int) >= 0x10000 ==> {
                &&& all.len() == n + 2
                &&& 0xd800 <= all[n] < 0xdc00 && 0xdc00 <= all[n + 1] < 0xe000
                &&& c as int == 0x10000 + (all[n] - 0xd800) * 0x400 + (all[n + 1] - 0xdc00)
            }
        }),
{
    assert(s.push(c).drop_last() =~= s);
    lemma_units(c);
    let all = utf16(s.push(c));
    assert(all.take(utf16(s).len() as int) =~= utf16(s));
}

} // verus!
