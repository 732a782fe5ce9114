//! UTF-8 and UTF-16 facts that the on-screen rewrite relies on.
//!
//! Strings are modelled by their characters (`s@`). Their bytes are
//! `vstd::utf8::encode_utf8(s@)`, and the code units a Windows text control
//! counts are [`encode_utf16`].

use vstd::prelude::*;
use vstd::string::StringSliceAdditionalSpecFns;
use vstd::utf8::*;

verus! {

broadcast use vstd::utf8::group_utf8_lib;

// ---------------------------------------------------------------------------
// Common prefixes of character sequences
// ---------------------------------------------------------------------------

/// Number of leading characters that `a` and `b` share.
pub open spec fn common_prefix_len(a: Seq<char>, b: Seq<char>) -> nat
    decreases a.len(),
{
    if a.len() == 0 || b.len() == 0 || a[0] != b[0] {
        0
    } else {
        1 + common_prefix_len(a.drop_first(), b.drop_first())
    }
}

/// `common_prefix_len` is the length of the longest common prefix.
pub proof fn lemma_common_prefix_len(a: Seq<char>, b: Seq<char>)
    ensures
        common_prefix_len(a, b) <= a.len(),
        common_prefix_len(a, b) <= b.len(),
        a.take(common_prefix_len(a, b) as int) == b.take(common_prefix_len(a, b) as int),
        common_prefix_len(a, b) == a.len() || common_prefix_len(a, b) == b.len() || a[common_prefix_len(
            a,
            b,
        ) as int] != b[common_prefix_len(a, b) as int],
    decreases a.len(),
{
    let k = common_prefix_len(a, b);
    if a.len() == 0 || b.len() == 0 || a[0] != b[0] {
        assert(a.take(0) =~= b.take(0));
    } else {
        lemma_common_prefix_len(a.drop_first(), b.drop_first());
        let k1 = common_prefix_len(a.drop_first(), b.drop_first());
        assert(a.take(k as int) =~= seq![a[0]] + a.drop_first().take(k1 as int));
        assert(b.take(k as int) =~= seq![b[0]] + b.drop_first().take(k1 as int));
    }
}

/// Any common prefix is at most as long as `common_prefix_len`.
pub proof fn lemma_common_prefix_len_is_longest(a: Seq<char>, b: Seq<char>, j: int)
    requires
        0 <= j <= a.len(),
        j <= b.len(),
        a.take(j) == b.take(j),
    ensures
        j <= common_prefix_len(a, b),
    decreases a.len(),
{
    if j > 0 {
        assert(a[0] == a.take(j)[0]);
        assert(b[0] == b.take(j)[0]);
        assert(a.drop_first().take(j - 1) =~= a.take(j).drop_first());
        assert(b.drop_first().take(j - 1) =~= b.take(j).drop_first());
        lemma_common_prefix_len_is_longest(a.drop_first(), b.drop_first(), j - 1);
    }
}

// ---------------------------------------------------------------------------
// UTF-8
// ---------------------------------------------------------------------------

/// The UTF-8 encoding of a concatenation is the concatenation of the encodings.
pub proof fn lemma_encode_utf8_concat(a: Seq<char>, b: Seq<char>)
    ensures
        encode_utf8(a + b) == encode_utf8(a) + encode_utf8(b),
    decreases a.len(),
{
    if a.len() == 0 {
        assert(a + b =~= b);
        assert(encode_utf8(a) + encode_utf8(b) =~= encode_utf8(b));
    } else {
        lemma_encode_utf8_concat(a.drop_first(), b);
        assert((a + b).drop_first() =~= a.drop_first() + b);
        assert((a + b)[0] == a[0]);
        let e = encode_scalar(a[0] as u32);
        assert(encode_utf8(a + b) == e + encode_utf8(a.drop_first() + b));
        assert(encode_utf8(a) == e + encode_utf8(a.drop_first()));
        assert(e + (encode_utf8(a.drop_first()) + encode_utf8(b)) =~= (e + encode_utf8(
            a.drop_first(),
        )) + encode_utf8(b));
    }
}

/// Splitting characters at `k` splits their UTF-8 encoding.
pub proof fn lemma_encode_utf8_split(s: Seq<char>, k: int)
    requires
        0 <= k <= s.len(),
    ensures
        encode_utf8(s) == encode_utf8(s.take(k)) + encode_utf8(s.skip(k)),
{
    assert(s =~= s.take(k) + s.skip(k));
    lemma_encode_utf8_concat(s.take(k), s.skip(k));
}

/// Width in bytes of a UTF-8 sequence announced by its leading byte.
pub open spec fn leading_byte_width(b: u8) -> int {
    if is_leading_byte_width_1(b) {
        1
    } else if is_leading_byte_width_2(b) {
        2
    } else if is_leading_byte_width_3(b) {
        3
    } else {
        4
    }
}

/// A single character encodes to its scalar encoding.
pub proof fn lemma_encode_utf8_single(c: char)
    ensures
        encode_utf8(seq![c]) == encode_scalar(c as u32),
{
    let s = seq![c];
    assert(s.len() == 1);
    assert(s[0] == c);
    assert(s.drop_first() =~= Seq::<char>::empty());
    assert(encode_utf8(Seq::<char>::empty()) =~= Seq::<u8>::empty());
    assert(encode_utf8(s) == encode_scalar(s[0] as u32) + encode_utf8(s.drop_first()));
    assert(encode_scalar(c as u32) + Seq::<u8>::empty() =~= encode_scalar(c as u32));
}

/// The encoding of one character: a leading byte that announces its width,
/// followed by continuation bytes.
pub proof fn lemma_encode_scalar_shape(c: char)
    ensures
        ({
            let e = encode_scalar(c as u32);
            &&& 1 <= e.len() <= 4
            &&& !is_continuation_byte(e[0])
            &&& e.len() == leading_byte_width(e[0])
            &&& forall|i: int| 1 <= i < e.len() ==> is_continuation_byte(#[trigger] e[i])
        }),
{
    let e = encode_scalar(c as u32);
    lemma_encode_utf8_single(c);
    encode_utf8_first_scalar(seq![c]);
}

/// Two characters with the same encoding are the same character.
pub proof fn lemma_encode_scalar_injective(a: char, b: char)
    requires
        encode_scalar(a as u32) == encode_scalar(b as u32),
    ensures
        a == b,
{
    lemma_encode_utf8_single(a);
    lemma_encode_utf8_single(b);
    encode_utf8_decode_utf8(seq![a]);
    encode_utf8_decode_utf8(seq![b]);
    assert(seq![a][0] == seq![b][0]);
}

/// Character sequences with the same UTF-8 encoding are equal.
pub proof fn lemma_encode_utf8_injective(a: Seq<char>, b: Seq<char>)
    requires
        encode_utf8(a) == encode_utf8(b),
    ensures
        a == b,
{
    encode_utf8_decode_utf8(a);
    encode_utf8_decode_utf8(b);
}

/// The end of an encoded prefix is a character boundary.
pub proof fn lemma_prefix_end_is_boundary(s: Seq<char>, k: int)
    requires
        0 <= k <= s.len(),
    ensures
        is_char_boundary(encode_utf8(s), encode_utf8(s.take(k)).len() as int),
{
    let bytes = encode_utf8(s);
    let p = encode_utf8(s.take(k)).len() as int;
    lemma_encode_utf8_split(s, k);
    encode_utf8_valid_utf8(s);
    is_char_boundary_start_end_of_seq(bytes);
    if p < bytes.len() {
        let rest = s.skip(k);
        if rest.len() == 0 {
            assert(encode_utf8(rest) =~= Seq::<u8>::empty());
            assert(false);
        }
        assert(bytes[p] == encode_utf8(rest)[0]);
        assert(encode_utf8(rest)[0] == encode_scalar(rest[0] as u32)[0]);
        lemma_encode_scalar_shape(rest[0]);
        is_char_boundary_iff_not_is_continuation_byte(bytes, p);
    }
}

/// Comparing two encodings byte by byte and then stepping back to a character
/// boundary of the first one lands exactly at the end of their longest common
/// character prefix.
///
/// `l` is where a byte-wise comparison stops: at the end of either encoding or
/// at the first byte where they differ.
pub proof fn lemma_byte_prefix_rounds_to_char_prefix(o: Seq<char>, n: Seq<char>, l: int)
    requires
        0 <= l <= encode_utf8(o).len(),
        l <= encode_utf8(n).len(),
        forall|i: int| 0 <= i < l ==> encode_utf8(o)[i] == encode_utf8(n)[i],
        l == encode_utf8(o).len() || l == encode_utf8(n).len() || encode_utf8(o)[l]
            != encode_utf8(n)[l],
    ensures
        ({
            let p = encode_utf8(o.take(common_prefix_len(o, n) as int)).len() as int;
            &&& p <= l
            &&& is_char_boundary(encode_utf8(o), p)
            &&& is_char_boundary(encode_utf8(n), p)
            &&& forall|j: int| p < j <= l ==> !is_char_boundary(encode_utf8(o), j)
        }),
{
    lemma_common_prefix_len(o, n);
    let k = common_prefix_len(o, n) as int;
    let eo = encode_utf8(o);
    let en = encode_utf8(n);
    let pre = encode_utf8(o.take(k));
    let p = pre.len() as int;
    lemma_encode_utf8_split(o, k);
    lemma_encode_utf8_split(n, k);
    assert(encode_utf8(n.take(k)) == pre);
    lemma_prefix_end_is_boundary(o, k);
    lemma_prefix_end_is_boundary(n, k);
    // The shared prefix is matched byte for byte, so the comparison gets past it.
    if l < p {
        assert(eo[l] == pre[l]);
        assert(en[l] == pre[l]);
    }
    assert(p <= l);
    if p < l {
        // Both words continue past the shared prefix, with different characters.
        if k == o.len() {
            assert(o.skip(k) =~= Seq::<char>::empty());
        }
        if k == n.len() {
            assert(n.skip(k) =~= Seq::<char>::empty());
        }
        assert(k < o.len() && k < n.len());
        let ro = o.skip(k);
        let rn = n.skip(k);
        let so = encode_scalar(ro[0] as u32);
        let sn = encode_scalar(rn[0] as u32);
        lemma_encode_scalar_shape(ro[0]);
        lemma_encode_scalar_shape(rn[0]);
        assert(encode_utf8(ro) == so + encode_utf8(ro.drop_first()));
        assert(encode_utf8(rn) == sn + encode_utf8(rn.drop_first()));
        assert forall|i: int| 0 <= i < so.len() implies eo[p + i] == so[i] by {
            assert(eo[p + i] == encode_utf8(ro)[i]);
        }
        assert forall|i: int| 0 <= i < sn.len() implies en[p + i] == sn[i] by {
            assert(en[p + i] == encode_utf8(rn)[i]);
        }
        // The comparison stops inside the first differing character.
        if l >= p + so.len() {
            assert(eo[p] == en[p]);
            assert(so[0] == sn[0]);
            assert(so.len() == sn.len());
            assert forall|i: int| 0 <= i < so.len() implies so[i] == sn[i] by {
                assert(eo[p + i] == en[p + i]);
            }
            assert(so =~= sn);
            lemma_encode_scalar_injective(ro[0], rn[0]);
            assert(ro[0] == o[k]);
            assert(rn[0] == n[k]);
            assert(false);
        }
        assert forall|j: int| p < j <= l implies !is_char_boundary(eo, j) by {
            assert(is_continuation_byte(so[j - p]));
            assert(eo[j] == so[j - p]);
            encode_utf8_valid_utf8(o);
            is_char_boundary_iff_not_is_continuation_byte(eo, j);
        }
    }
}

// ---------------------------------------------------------------------------
// UTF-16
// ---------------------------------------------------------------------------

/// The UTF-16 code units of one character.
pub open spec fn encode_utf16_char(c: char) -> Seq<u16> {
    let v = c as u32;
    if v < 0x10000 {
        seq![v as u16]
    } else {
        let w = v - 0x10000;
        seq![(0xD800 + w / 0x400) as u16, (0xDC00 + w % 0x400) as u16]
    }
}

/// The UTF-16 code units of a character sequence.
pub open spec fn encode_utf16(s: Seq<char>) -> Seq<u16>
    decreases s.len(),
{
    if s.len() == 0 {
        seq![]
    } else {
        encode_utf16_char(s[0]) + encode_utf16(s.drop_first())
    }
}

/// Number of UTF-16 code units in a character sequence.
pub open spec fn utf16_len(s: Seq<char>) -> nat {
    encode_utf16(s).len()
}

/// The UTF-16 encoding of a concatenation is the concatenation of the encodings.
pub proof fn lemma_encode_utf16_concat(a: Seq<char>, b: Seq<char>)
    ensures
        encode_utf16(a + b) == encode_utf16(a) + encode_utf16(b),
    decreases a.len(),
{
    if a.len() == 0 {
        assert(a + b =~= b);
        assert(encode_utf16(a) + encode_utf16(b) =~= encode_utf16(b));
    } else {
        lemma_encode_utf16_concat(a.drop_first(), b);
        assert((a + b).drop_first() =~= a.drop_first() + b);
        assert((a + b)[0] == a[0]);
        let e = encode_utf16_char(a[0]);
        assert(e + (encode_utf16(a.drop_first()) + encode_utf16(b)) =~= (e + encode_utf16(
            a.drop_first(),
        )) + encode_utf16(b));
    }
}

/// Appending one character appends its code units.
pub proof fn lemma_encode_utf16_push(s: Seq<char>, c: char)
    ensures
        encode_utf16(s.push(c)) == encode_utf16(s) + encode_utf16_char(c),
{
    assert(s.push(c) =~= s + seq![c]);
    lemma_encode_utf16_concat(s, seq![c]);
    let one = seq![c];
    assert(one.len() == 1);
    assert(one[0] == c);
    assert(one.drop_first() =~= Seq::<char>::empty());
    assert(encode_utf16(Seq::<char>::empty()) =~= Seq::<u16>::empty());
    assert(encode_utf16(one) == encode_utf16_char(one[0]) + encode_utf16(one.drop_first()));
    assert(encode_utf16(one) =~= encode_utf16_char(c));
}

/// A UTF-8 string never has more UTF-16 code units than bytes.
pub proof fn lemma_utf16_len_le_utf8_len(s: Seq<char>)
    ensures
        utf16_len(s) <= encode_utf8(s).len(),
    decreases s.len(),
{
    if s.len() > 0 {
        lemma_utf16_len_le_utf8_len(s.drop_first());
        char_is_scalar(s[0]);
    }
}

/// Append the UTF-16 code units of `c` to `out`.
pub fn push_utf16(out: &mut Vec<u16>, c: char)
    ensures
        final(out)@ == old(out)@ + encode_utf16_char(c),
{
    proof {
        char_is_scalar(c);
    }
    let v = c as u32;
    if v < 0x10000 {
        out.push(v as u16);
        assert(old(out)@ + encode_utf16_char(c) =~= old(out)@.push(v as u16));
    } else {
        let w = v - 0x10000;
        out.push((0xD800 + w / 0x400) as u16);
        out.push((0xDC00 + w % 0x400) as u16);
        assert(final(out)@ =~= old(out)@ + encode_utf16_char(c));
    }
}

/// The characters of `s`, in order.
pub fn chars_of(s: &str) -> (out: Vec<char>)
    ensures
        out@ == s@,
{
    let mut out: Vec<char> = Vec::new();
    for c in it: s.chars()
        invariant
            out@ == it.seq().take(it.index() as int),
            it.seq() == s@,
    {
        out.push(c);
    }
    out
}

/// Whether `a` and `b` hold the same characters.
pub fn str_equal(a: &str, b: &str) -> (eq: bool)
    ensures
        eq == (a@ == b@),
{
    let x = chars_of(a);
    let y = chars_of(b);
    if x.len() != y.len() {
        return false;
    }
    let mut i: usize = 0;
    while i < x.len()
        invariant
            x@ == a@,
            y@ == b@,
            x@.len() == y@.len(),
            i <= x@.len(),
            forall|k: int| 0 <= k < i ==> x@[k] == y@[k],
        decreases x@.len() - i,
    {
        if x[i] != y[i] {
            return false;
        }
        i = i + 1;
    }
    assert(a@ =~= b@);
    true
}

/// Whether `s` begins with `p`.
pub open spec fn has_prefix(s: Seq<char>, p: Seq<char>) -> bool {
    p.len() <= s.len() && s.take(p.len() as int) == p
}

/// Whether `s` ends with `p`.
pub open spec fn has_suffix(s: Seq<char>, p: Seq<char>) -> bool {
    p.len() <= s.len() && s.skip(s.len() - p.len()) == p
}

/// Whether `s` begins with `p`.
pub fn starts_with(s: &str, p: &str) -> (b: bool)
    ensures
        b == has_prefix(s@, p@),
{
    let x = chars_of(s);
    let y = chars_of(p);
    if y.len() > x.len() {
        return false;
    }
    let mut i: usize = 0;
    while i < y.len()
        invariant
            x@ == s@,
            y@ == p@,
            y@.len() <= x@.len(),
            i <= y@.len(),
            forall|k: int| 0 <= k < i ==> x@[k] == y@[k],
        decreases y@.len() - i,
    {
        if x[i] != y[i] {
            assert(s@.take(p@.len() as int)[i as int] != p@[i as int]);
            return false;
        }
        i = i + 1;
    }
    assert(s@.take(p@.len() as int) =~= p@);
    true
}

/// Whether `s` ends with `p`.
pub fn ends_with(s: &str, p: &str) -> (b: bool)
    ensures
        b == has_suffix(s@, p@),
{
    let x = chars_of(s);
    let y = chars_of(p);
    if y.len() > x.len() {
        return false;
    }
    let xl = x.len();
    let off = xl - y.len();
    let mut i: usize = 0;
    while i < y.len()
        invariant
            xl == x@.len(),
            x@ == s@,
            y@ == p@,
            off == x@.len() - y@.len(),
            i <= y@.len(),
            forall|k: int| 0 <= k < i ==> x@[off + k] == y@[k],
        decreases y@.len() - i,
    {
        if x[off + i] != y[i] {
            assert(s@.skip(off as int)[i as int] != p@[i as int]);
            return false;
        }
        i = i + 1;
    }
    assert(s@.skip(off as int) =~= p@);
    true
}

/// The UTF-16 code units of `s`.
pub fn utf16_units(s: &str) -> (out: Vec<u16>)
    ensures
        out@ == encode_utf16(s@),
{
    let chars = chars_of(s);
    let mut out: Vec<u16> = Vec::new();
    let mut i: usize = 0;
    while i < chars.len()
        invariant
            chars@ == s@,
            i <= chars.len(),
            out@ == encode_utf16(s@.take(i as int)),
        decreases chars.len() - i,
    {
        proof {
            assert(s@.take(i + 1) =~= s@.take(i as int).push(chars[i as int]));
            lemma_encode_utf16_push(s@.take(i as int), chars[i as int]);
        }
        push_utf16(&mut out, chars[i]);
        i = i + 1;
    }
    assert(s@.take(i as int) =~= s@);
    out
}

/// Number of UTF-16 code units in `s`.
pub fn utf16_count(s: &str) -> (n: usize)
    ensures
        n == utf16_len(s@),
{
    let byte_len = s.as_bytes().len();
    let chars = chars_of(s);
    let mut n: usize = 0;
    let mut i: usize = 0;
    proof {
        lemma_utf16_len_le_utf8_len(s@);
    }
    while i < chars.len()
        invariant
            chars@ == s@,
            i <= chars.len(),
            n == utf16_len(s@.take(i as int)),
            utf16_len(s@) <= byte_len,
        decreases chars.len() - i,
    {
        let c = chars[i];
        proof {
            assert(s@.take(i + 1) =~= s@.take(i as int).push(c));
            lemma_encode_utf16_push(s@.take(i as int), c);
            assert(s@ =~= s@.take(i + 1) + s@.skip(i + 1));
            lemma_encode_utf16_concat(s@.take(i + 1), s@.skip(i + 1));
        }
        if (c as u32) < 0x10000 {
            n = n + 1;
        } else {
            n = n + 2;
        }
        i = i + 1;
    }
    assert(s@.take(i as int) =~= s@);
    n
}

/// Whether `u` is a leading (high) surrogate.
pub open spec fn is_high_surrogate(u: u16) -> bool {
    0xD800 <= u <= 0xDBFF
}

/// Whether `u` is a trailing (low) surrogate.
pub open spec fn is_low_surrogate(u: u16) -> bool {
    0xDC00 <= u <= 0xDFFF
}

/// UTF-16 decoded to characters, each unpaired surrogate replaced by U+FFFD.
pub open spec fn decode_utf16_lossy(units: Seq<u16>) -> Seq<char>
    decreases units.len(),
{
    if units.len() == 0 {
        seq![]
    } else if is_high_surrogate(units[0]) && units.len() > 1 && is_low_surrogate(units[1]) {
        seq![(0x10000 + (units[0] - 0xD800) * 0x400 + (units[1] - 0xDC00)) as char]
            + decode_utf16_lossy(units.skip(2))
    } else if is_high_surrogate(units[0]) || is_low_surrogate(units[0]) {
        seq!['\u{FFFD}'] + decode_utf16_lossy(units.drop_first())
    } else {
        seq![units[0] as char] + decode_utf16_lossy(units.drop_first())
    }
}

/// Decoding what `encode_utf16` produced gives the characters back.
pub proof fn lemma_decode_encode_utf16(s: Seq<char>)
    ensures
        decode_utf16_lossy(encode_utf16(s)) == s,
    decreases s.len(),
{
    if s.len() > 0 {
        let c = s[0];
        let rest = s.drop_first();
        lemma_decode_encode_utf16(rest);
        char_is_scalar(c);
        let e = encode_utf16_char(c);
        let u = e + encode_utf16(rest);
        let v = c as u32;
        if v < 0x10000 {
            assert(u[0] == v as u16);
            assert(u.drop_first() =~= encode_utf16(rest));
            assert(!is_high_surrogate(u[0]) && !is_low_surrogate(u[0]));
            assert(u[0] as u32 == v);
            vstd::utf8::char_u32_cast(c, v);
            assert((u[0] as char) == c);
            assert(decode_utf16_lossy(u) == seq![c] + rest);
        } else {
            let w = v - 0x10000;
            assert(u[0] == (0xD800 + w / 0x400) as u16);
            assert(u[1] == (0xDC00 + w % 0x400) as u16);
            assert(is_high_surrogate(u[0]) && is_low_surrogate(u[1]));
            assert(u.skip(2) =~= encode_utf16(rest));
            assert((w / 0x400) * 0x400 + w % 0x400 == w);
            assert(0x10000 + (u[0] - 0xD800) * 0x400 + (u[1] - 0xDC00) == v);
            vstd::utf8::char_u32_cast(c, v);
            assert((0x10000 + (u[0] - 0xD800) * 0x400 + (u[1] - 0xDC00)) as char == c);
            assert(decode_utf16_lossy(u) == seq![c] + rest);
        }
        assert(seq![c] + rest =~= s);
    } else {
        assert(encode_utf16(s) =~= Seq::<u16>::empty());
    }
}

/// Text without a NUL character encodes to UTF-16 without a zero unit.
pub proof fn lemma_encode_utf16_no_zero(s: Seq<char>)
    requires
        forall|i: int| 0 <= i < s.len() ==> #[trigger] s[i] != '\0',
    ensures
        forall|k: int| 0 <= k < encode_utf16(s).len() ==> #[trigger] encode_utf16(s)[k] != 0,
    decreases s.len(),
{
    if s.len() > 0 {
        let c = s[0];
        let rest = s.drop_first();
        assert forall|i: int| 0 <= i < rest.len() implies #[trigger] rest[i] != '\0' by {
            assert(rest[i] == s[i + 1]);
        }
        lemma_encode_utf16_no_zero(rest);
        char_is_scalar(c);
        assert(c != '\0');
        let e = encode_utf16_char(c);
        if c as u32 == 0 {
            assert(('\0' as u32) == 0);
            vstd::utf8::char_u32_cast(c, 0);
            vstd::utf8::char_u32_cast('\0', 0);
        }
        assert(c as u32 != 0);
        if (c as u32) < 0x10000 {
            assert(e[0] == (c as u32) as u16);
        }
        assert forall|k: int| 0 <= k < e.len() implies #[trigger] e[k] != 0 by {}
        let u = e + encode_utf16(rest);
        assert forall|k: int| 0 <= k < u.len() implies #[trigger] u[k] != 0 by {
            if k >= e.len() {
                assert(u[k] == encode_utf16(rest)[k - e.len()]);
            }
        }
    }
}

// ---------------------------------------------------------------------------
// std's `String` methods that vstd leaves unspecified
// ---------------------------------------------------------------------------

/// std's `String::clear`, which its documentation says truncates the string
/// to zero length.
#[verifier::external_body]
pub(crate) fn string_clear(s: &mut String)
    ensures
        final(s)@ == Seq::<char>::empty(),
{
    s.clear()
}

/// std's `String::push`, which its documentation says appends the character
/// to the end of the string.
#[verifier::external_body]
pub(crate) fn string_push(s: &mut String, c: char)
    ensures
        final(s)@ == old(s)@.push(c),
{
    s.push(c)
}

/// std's `String::from_utf16_lossy`, which its documentation says decodes
/// UTF-16 and replaces invalid data (an unpaired surrogate) with U+FFFD.
#[verifier::external_body]
pub(crate) fn string_from_utf16_lossy(units: &[u16]) -> (s: String)
    ensures
        s@ == decode_utf16_lossy(units@),
{
    String::from_utf16_lossy(units)
}

} // verus!
