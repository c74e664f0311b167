//! The label codec: a bijection between the ordinal of a selectable listing
//! entry and the two-letter mnemonic shown next to it.
//!
//! An ordinal `n` is written as two lowercase letters, `n / 26` and `n % 26`
//! positions past `'a'`.  Only ordinals up to `675` (`"zz"`) are
//! representable; larger ordinals have no label.

use vstd::prelude::*;

verus! {

/// True for the lowercase ASCII letters, the only characters a label may use.
pub open spec fn is_lower(c: char) -> bool {
    'a' <= c && c <= 'z'
}

/// The two-letter label of ordinal `n`.
pub open spec fn encode_label(n: u16) -> (char, char)
    recommends
        n <= 675,
{
    ((('a' as int) + n / 26) as char, (('a' as int) + n % 26) as char)
}

/// The ordinal named by a pair of characters, or `None` unless both are
/// lowercase letters.
pub open spec fn decode_label(c1: char, c2: char) -> Option<u16> {
    if is_lower(c1) && is_lower(c2) {
        Some(((c1 as int - 'a' as int) * 26 + (c2 as int - 'a' as int)) as u16)
    } else {
        None
    }
}

/// Encodes ordinal `n` as its two-letter label.
pub fn n_alpha(n: u16) -> (r: (char, char))
    requires
        n <= 675,
    ensures
        r == encode_label(n),
        is_lower(r.0) && is_lower(r.1),
{
    let c1: char = (97u8 + (n / 26) as u8) as char;
    let c2: char = (97u8 + (n % 26) as u8) as char;
    (c1, c2)
}

/// Decodes a two-character label back into its ordinal.
pub fn alpha_nth(chrs: (char, char)) -> (r: Option<u16>)
    ensures
        r == decode_label(chrs.0, chrs.1),
{
    let (c1, c2) = chrs;
    if !('a' <= c1 && c1 <= 'z') {
        None
    } else if !('a' <= c2 && c2 <= 'z') {
        None
    } else {
        let d1 = (c1 as u8) - 97u8;
        let d2 = (c2 as u8) - 97u8;
        Some((d1 as u16) * 26 + (d2 as u16))
    }
}

/// The codec is a bijection over its domain: decoding the label of any
/// representable ordinal gives that ordinal back.
pub proof fn lemma_label_round_trip(n: u16)
    requires
        n <= 675,
    ensures
        decode_label(encode_label(n).0, encode_label(n).1) == Some(n),
{
    assert(n / 26 <= 25) by (nonlinear_arith)
        requires
            n <= 675,
    ;
    assert(n % 26 <= 25);
    assert((n / 26) * 26 + n % 26 == n) by (nonlinear_arith);
}

/// Decoding rejects every pair that contains a character outside the
/// lowercase alphabet.
pub proof fn lemma_decode_rejects_non_lower(c1: char, c2: char)
    requires
        !is_lower(c1) || !is_lower(c2),
    ensures
        decode_label(c1, c2) is None,
{
}

} // verus!
