//! Working out what to send to rewrite the on-screen preview.

use vstd::prelude::*;
use vstd::string::StringSliceAdditionalSpecFns;
use vstd::utf8::*;

use crate::unicode::{
    common_prefix_len, encode_utf16, lemma_byte_prefix_rounds_to_char_prefix,
    lemma_common_prefix_len, lemma_common_prefix_len_is_longest, lemma_encode_utf16_concat,
    lemma_encode_utf8_injective, lemma_encode_utf8_split, utf16_count, utf16_len,
};

verus! {

broadcast use vstd::utf8::group_utf8_lib;

/// The keystrokes needed to turn `old` into `new` on the target's screen.
#[derive(Debug, PartialEq, Eq)]
pub struct Replacement {
    pub backspaces: usize,
    pub text: String,
}

/// Characters of `old` that the rewrite keeps: the longest prefix it shares
/// with `new`.
pub open spec fn kept_len(old: Seq<char>, new: Seq<char>) -> nat {
    common_prefix_len(old, new)
}

/// What [`diff`] sends: erase the UTF-16 units of `old` past the shared
/// prefix, then type the characters of `new` past it.
pub open spec fn replacement_spec(old: Seq<char>, new: Seq<char>) -> (nat, Seq<char>) {
    let k = kept_len(old, new) as int;
    (utf16_len(old.skip(k)), new.skip(k))
}

/// Compute the minimal replacement: keep the shared prefix, erase the rest of
/// `old`, then type the rest of `new`.
///
/// One backspace erases one UTF-16 code unit. The prefix is found by
/// comparing bytes and stepping back to a character boundary of `old`, which
/// is the longest prefix of whole characters the two strings share.
pub fn diff(old: &str, new: &str) -> (r: Replacement)
    ensures
        r.backspaces == replacement_spec(old@, new@).0,
        r.text@ == replacement_spec(old@, new@).1,
{
    let ob = old.as_bytes();
    let nb = new.as_bytes();
    let mut at: usize = 0;
    while at < ob.len() && at < nb.len() && ob[at] == nb[at]
        invariant
            at <= ob@.len(),
            at <= nb@.len(),
            forall|i: int| 0 <= i < at ==> ob@[i] == nb@[i],
        decreases ob@.len() - at,
    {
        at = at + 1;
    }
    let ghost l = at as int;
    let ghost k = common_prefix_len(old@, new@) as int;
    let ghost p = encode_utf8(old@.take(k)).len() as int;
    proof {
        lemma_byte_prefix_rounds_to_char_prefix(old@, new@, l);
    }
    while at > 0 && !old.is_char_boundary(at)
        invariant
            p <= at <= l,
            l <= ob@.len(),
            ob@ == encode_utf8(old@),
            is_char_boundary(encode_utf8(old@), p),
            forall|j: int| p < j <= l ==> !is_char_boundary(encode_utf8(old@), j),
        decreases at,
    {
        at = at - 1;
    }
    assert(at == p);
    proof {
        lemma_common_prefix_len(old@, new@);
        lemma_encode_utf8_split(old@, k);
        lemma_encode_utf8_split(new@, k);
        assert(encode_utf8(new@.take(k)) == encode_utf8(old@.take(k)));
    }
    let (_, old_tail) = old.split_at(at);
    let (_, new_tail) = new.split_at(at);
    proof {
        assert(encode_utf8(old_tail@) == encode_utf8(old@.skip(k)));
        lemma_encode_utf8_injective(old_tail@, old@.skip(k));
        assert(encode_utf8(new_tail@) == encode_utf8(new@.skip(k)));
        lemma_encode_utf8_injective(new_tail@, new@.skip(k));
    }
    Replacement { backspaces: utf16_count(old_tail), text: new_tail.to_string() }
}

/// Applying a replacement to a screen that shows `old` leaves it showing
/// `new`: keep the shared prefix, then type the rest of `new`.
///
/// Stated both in characters and in the UTF-16 code units that a text control
/// erases one backspace at a time.
pub proof fn law_replacement_rebuilds_new(old: Seq<char>, new: Seq<char>)
    ensures
        ({
            let (backspaces, text) = replacement_spec(old, new);
            let kept = kept_len(old, new) as int;
            &&& old.take(kept) + text == new
            &&& backspaces <= utf16_len(old)
            &&& encode_utf16(old).take(utf16_len(old) - backspaces) + encode_utf16(text)
                == encode_utf16(new)
        }),
{
    lemma_common_prefix_len(old, new);
    let k = kept_len(old, new) as int;
    assert(old.take(k) + new.skip(k) =~= new) by {
        assert(new =~= new.take(k) + new.skip(k));
    }
    assert(old =~= old.take(k) + old.skip(k));
    lemma_encode_utf16_concat(old.take(k), old.skip(k));
    assert(new =~= new.take(k) + new.skip(k));
    lemma_encode_utf16_concat(new.take(k), new.skip(k));
    let e = encode_utf16(old);
    assert(e.take(e.len() - utf16_len(old.skip(k))) =~= encode_utf16(old.take(k)));
}

/// No shorter erase would do: every prefix of `old` that `new` also starts
/// with is no longer than the one [`diff`] keeps, so keeping it instead costs
/// at least as many backspaces.
pub proof fn law_replacement_is_minimal(old: Seq<char>, new: Seq<char>, j: int)
    requires
        0 <= j <= old.len(),
        j <= new.len(),
        old.take(j) == new.take(j),
    ensures
        j <= kept_len(old, new),
        replacement_spec(old, new).0 <= utf16_len(old.skip(j)),
{
    lemma_common_prefix_len_is_longest(old, new, j);
    lemma_common_prefix_len(old, new);
    let k = kept_len(old, new) as int;
    let tail = old.skip(j);
    assert(tail =~= tail.take(k - j) + old.skip(k));
    lemma_encode_utf16_concat(tail.take(k - j), old.skip(k));
}

/// Rewriting a string into itself sends nothing.
pub proof fn law_identical_strings_need_no_work(s: Seq<char>)
    ensures
        replacement_spec(s, s).0 == 0,
        replacement_spec(s, s).1 == Seq::<char>::empty(),
{
    lemma_common_prefix_len(s, s);
    let k = kept_len(s, s) as int;
    if k < s.len() {
        assert(s[k] == s[k]);
    }
    assert(s.skip(k) =~= Seq::<char>::empty());
    assert(encode_utf16(Seq::<char>::empty()) =~= Seq::<u16>::empty());
}

/// Extending a string only types the extension.
pub proof fn law_appending_needs_no_backspaces(s: Seq<char>, extra: Seq<char>)
    ensures
        replacement_spec(s, s + extra).0 == 0,
        replacement_spec(s, s + extra).1 == extra,
{
    let n = s + extra;
    assert(n.take(s.len() as int) =~= s.take(s.len() as int));
    lemma_common_prefix_len_is_longest(s, n, s.len() as int);
    lemma_common_prefix_len(s, n);
    let k = kept_len(s, n) as int;
    assert(k == s.len());
    assert(s.skip(k) =~= Seq::<char>::empty());
    assert(n.skip(k) =~= extra);
    assert(encode_utf16(Seq::<char>::empty()) =~= Seq::<u16>::empty());
}

} // verus!
