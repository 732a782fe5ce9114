//! Wide strings for the registry, and the value the startup entry holds.
//!
//! The registry itself is reached through Win32 calls in the application.

use vstd::prelude::*;

use crate::unicode::{
    decode_utf16_lossy, encode_utf16, lemma_decode_encode_utf16, lemma_encode_utf16_no_zero,
    string_from_utf16_lossy, utf16_units,
};

verus! {

/// `text` as a NUL-terminated UTF-16 string.
pub fn wide(text: &str) -> (w: Vec<u16>)
    ensures
        w@ == encode_utf16(text@).push(0),
{
    let mut w = utf16_units(text);
    w.push(0);
    w
}

/// The little-endian 16-bit units held in `bytes`; a trailing odd byte is
/// ignored.
pub open spec fn le_units(bytes: Seq<u8>) -> Seq<u16> {
    Seq::new(bytes.len() / 2, |i: int| (bytes[2 * i] + 256 * bytes[2 * i + 1]) as u16)
}

/// Index of the first NUL unit, or the length when there is none.
pub open spec fn nul_index(units: Seq<u16>) -> int
    decreases units.len(),
{
    if units.len() == 0 || units[0] == 0 {
        0
    } else {
        1 + nul_index(units.drop_first())
    }
}

proof fn lemma_nul_index(units: Seq<u16>)
    ensures
        0 <= nul_index(units) <= units.len(),
        nul_index(units) < units.len() ==> units[nul_index(units)] == 0,
        forall|i: int| 0 <= i < nul_index(units) ==> #[trigger] units[i] != 0,
    decreases units.len(),
{
    if units.len() > 0 && units[0] != 0 {
        let t = units.drop_first();
        lemma_nul_index(t);
        assert forall|i: int| 0 <= i < nul_index(units) implies #[trigger] units[i] != 0 by {
            if i > 0 {
                assert(units[i] == t[i - 1]);
            }
        }
    }
}

/// The text a NUL-terminated wide string's bytes hold: the little-endian
/// units up to the first NUL, decoded with invalid UTF-16 replaced.
pub open spec fn wide_text(bytes: Seq<u8>) -> Seq<char> {
    decode_utf16_lossy(le_units(bytes).take(nul_index(le_units(bytes))))
}

/// A NUL-terminated wide string, as a registry read returns it, read back
/// into text. Invalid UTF-16 is replaced, as `String::from_utf16_lossy` does.
pub fn from_wide_bytes(bytes: &[u8]) -> (s: String)
    ensures
        s@ == wide_text(bytes@),
{
    let ghost all = le_units(bytes@);
    proof {
        lemma_nul_index(all);
    }
    let mut units: Vec<u16> = Vec::new();
    let n = bytes.len();
    let pairs = n / 2;
    let mut i: usize = 0;
    while i < pairs
        invariant
            pairs == bytes@.len() / 2,
            n == bytes@.len(),
            all == le_units(bytes@),
            i <= pairs,
            i <= nul_index(all),
            units@ == all.take(i as int),
            0 <= nul_index(all) <= all.len(),
            nul_index(all) < all.len() ==> all[nul_index(all)] == 0,
            forall|k: int| 0 <= k < nul_index(all) ==> #[trigger] all[k] != 0,
        ensures
            i == nul_index(all),
            units@ == all.take(i as int),
        decreases pairs - i,
    {
        assert(2 * i + 1 < bytes@.len()) by (nonlinear_arith)
            requires
                i < pairs,
                pairs == bytes@.len() / 2,
        ;
        let unit = (bytes[2 * i] as u16) + 256 * (bytes[2 * i + 1] as u16);
        assert(unit == all[i as int]);
        if unit == 0 {
            break;
        }
        units.push(unit);
        i = i + 1;
        assert(units@ =~= all.take(i as int));
    }
    assert(i == nul_index(all));
    string_from_utf16_lossy(units.as_slice())
}

/// The bytes of UTF-16 units, each written little-endian, as the registry
/// stores a string value.
pub open spec fn units_le_bytes(units: Seq<u16>) -> Seq<u8> {
    Seq::new(
        2 * units.len(),
        |i: int|
            if i % 2 == 0 {
                (units[i / 2] % 256) as u8
            } else {
                (units[i / 2] / 256) as u8
            },
    )
}

/// What is written as a string value reads back unchanged: the bytes of
/// [`wide`]'s units, followed by anything at all, decode to the text, provided
/// the text holds no NUL (where the read stops).
pub proof fn law_wide_bytes_round_trip(text: Seq<char>, extra: Seq<u8>)
    requires
        forall|i: int| 0 <= i < text.len() ==> #[trigger] text[i] != '\0',
    ensures
        wide_text(units_le_bytes(encode_utf16(text).push(0)) + extra) == text,
{
    let e = encode_utf16(text);
    let u = e.push(0);
    let b = units_le_bytes(u) + extra;
    let l = le_units(b);
    let n = e.len() as int;
    lemma_encode_utf16_no_zero(text);
    assert forall|k: int| 0 <= k < u.len() implies #[trigger] l[k] == u[k] by {
        assert(b[2 * k] == (u[k] % 256) as u8);
        assert(b[2 * k + 1] == (u[k] / 256) as u8);
        assert((u[k] % 256) + 256 * (u[k] / 256) == u[k]);
    }
    lemma_nul_index(l);
    assert(l[n] == 0);
    assert(nul_index(l) == n) by {
        if nul_index(l) > n {
            assert(l[n] != 0);
        }
        if nul_index(l) < n {
            assert(l[nul_index(l)] == e[nul_index(l)]);
        }
    }
    assert(l.take(n) =~= e);
    lemma_decode_encode_utf16(text);
}

/// `exe` quoted, so a path containing spaces survives the shell that launches
/// it at logon. This is what the startup entry holds.
pub fn quoted(exe: &str) -> (q: String)
    ensures
        q@ == seq!['"'] + exe@ + seq!['"'],
{
    let mut q = String::from_str("\"");
    q.append(exe);
    q.append("\"");
    proof {
        reveal_strlit("\"");
    }
    q
}

} // verus!
