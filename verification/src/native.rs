//! What crosses the boundary to the native engine: text that goes out must
//! hold no NUL, and text that comes back sits in a buffer of fixed size,
//! ended by a NUL where it is shorter than the buffer.

use crate::text::to_chars;
use vstd::prelude::*;
use vstd::string::*;
use vstd::utf8::{decode_utf8, valid_utf8};

verus! {

/// The text that `String::from_utf8_lossy` makes of `bytes`.
pub uninterp spec fn utf8_lossy(bytes: Seq<u8>) -> Seq<char>;

/// The position of the first NUL in `bytes`; their number where there is
/// none.
pub open spec fn first_nul(bytes: Seq<u8>) -> int
    decreases bytes.len(),
{
    if bytes.len() == 0 || bytes[0] == 0 {
        0
    } else {
        1 + first_nul(bytes.drop_first())
    }
}

/// The bytes of a buffer that belong to its text: those before the first
/// NUL.
pub open spec fn before_nul(bytes: Seq<u8>) -> Seq<u8> {
    bytes.subrange(0, first_nul(bytes))
}

/// The text to hand to the native engine for `s`: `s` itself, or nothing
/// where `s` holds a NUL and so cannot be handed over whole.
pub open spec fn c_text(s: Seq<char>) -> Seq<char> {
    if s.contains('\0') {
        Seq::empty()
    } else {
        s
    }
}

/// `first_nul` names the first position that holds a NUL.
pub proof fn lemma_first_nul(bytes: Seq<u8>)
    ensures
        0 <= first_nul(bytes) <= bytes.len(),
        first_nul(bytes) < bytes.len() ==> bytes[first_nul(bytes)] == 0,
        forall|i: int| 0 <= i < first_nul(bytes) ==> #[trigger] bytes[i] != 0,
    decreases bytes.len(),
{
    if bytes.len() > 0 && bytes[0] != 0 {
        let rest = bytes.drop_first();
        lemma_first_nul(rest);
        assert forall|i: int| 0 <= i < first_nul(bytes) implies #[trigger] bytes[i] != 0 by {
            if i > 0 {
                assert(bytes[i] == rest[i - 1]);
            }
        }
    }
}

/// A position with a NUL, or the end, before which no NUL stands is the
/// one that `first_nul` names.
pub proof fn lemma_first_nul_is(bytes: Seq<u8>, n: int)
    requires
        0 <= n <= bytes.len(),
        n < bytes.len() ==> bytes[n] == 0,
        forall|i: int| 0 <= i < n ==> #[trigger] bytes[i] != 0,
    ensures
        first_nul(bytes) == n,
{
    lemma_first_nul(bytes);
    let m = first_nul(bytes);
    if m < n {
        assert(bytes[m] != 0);
    }
    if n < m {
        assert(bytes[n] != 0);
    }
}

/// The text of a buffer is never longer than the buffer, and holds no NUL.
pub proof fn lemma_before_nul_bounded(bytes: Seq<u8>)
    ensures
        before_nul(bytes).len() <= bytes.len(),
        !before_nul(bytes).contains(0u8),
{
    lemma_first_nul(bytes);
    let text = before_nul(bytes);
    if text.contains(0u8) {
        let i = choose|i: int| 0 <= i < text.len() && text[i] == 0u8;
        assert(text[i] == bytes[i]);
    }
}

/// `String::from_utf8_lossy`, with the result owned: the text that the
/// bytes encode, with a replacement character for whatever is not UTF-8.
/// Bytes that are valid UTF-8 come out as the text they encode.
#[verifier::external_body]
fn decode_lossy(bytes: &[u8]) -> (s: String)
    ensures
        s@ == utf8_lossy(bytes@),
        valid_utf8(bytes@) ==> s@ == decode_utf8(bytes@),
{
    String::from_utf8_lossy(bytes).into_owned()
}

/// The bytes of `buffer` that belong to its text.
pub fn text_bytes(buffer: &[u8]) -> (r: Vec<u8>)
    ensures
        r@ == before_nul(buffer@),
{
    let mut r: Vec<u8> = Vec::new();
    let mut i: usize = 0;
    while i < buffer.len() && buffer[i] != 0
        invariant
            i <= buffer.len(),
            r@ == buffer@.subrange(0, i as int),
            forall|k: int| 0 <= k < i ==> #[trigger] buffer@[k] != 0,
        decreases buffer.len() - i,
    {
        r.push(buffer[i]);
        i += 1;
        assert(buffer@.subrange(0, i as int) == buffer@.subrange(0, i - 1).push(buffer@[i - 1]));
    }
    proof {
        lemma_first_nul_is(buffer@, i as int);
    }
    r
}

/// Reads the text that the native engine left in `buffer`: the bytes before
/// the first NUL, or all of them where the text filled the buffer, decoded
/// leniently.
pub fn text_from_buffer(buffer: &[u8]) -> (s: String)
    ensures
        s@ == utf8_lossy(before_nul(buffer@)),
        valid_utf8(before_nul(buffer@)) ==> s@ == decode_utf8(before_nul(buffer@)),
{
    let bytes = text_bytes(buffer);
    decode_lossy(bytes.as_slice())
}

/// Tells whether `s` holds a NUL.
pub fn has_nul(s: &str) -> (b: bool)
    ensures
        b == s@.contains('\0'),
{
    let v = to_chars(s);
    let mut i: usize = 0;
    while i < v.len()
        invariant
            i <= v.len(),
            v@ == s@,
            forall|k: int| 0 <= k < i ==> #[trigger] v@[k] != '\0',
        decreases v.len() - i,
    {
        if v[i] == '\0' {
            return true;
        }
        i += 1;
    }
    false
}

/// The text to hand to the native engine for `s`.
pub fn to_c_text(s: &str) -> (r: String)
    ensures
        r@ == c_text(s@),
{
    if has_nul(s) {
        String::new()
    } else {
        String::from_str(s)
    }
}

} // verus!
