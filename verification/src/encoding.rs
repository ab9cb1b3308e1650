//! Byte/text bridges used by key export and the stored envelope: standard
//! base64 and character-level access to strings.

use vstd::prelude::*;

verus! {

/// Whether `c` belongs to the standard base64 alphabet, padding included.
pub open spec fn is_base64_char(c: char) -> bool {
    ||| 'A' <= c && c <= 'Z'
    ||| 'a' <= c && c <= 'z'
    ||| '0' <= c && c <= '9'
    ||| c == '+'
    ||| c == '/'
    ||| c == '='
}

/// The standard base64 text for a byte sequence. The result depends on the
/// bytes alone.
pub uninterp spec fn b64_encode_of(bytes: Seq<u8>) -> Seq<char>;

/// What standard base64 decoding returns for a text: the bytes when the text
/// is valid base64, nothing otherwise. The result depends on the text alone.
pub uninterp spec fn b64_decode_of(text: Seq<char>) -> Option<Seq<u8>>;

/// Relies on base64's STANDARD engine encode: the text is a function of the
/// bytes alone, is drawn from the base64 alphabet with `=` padding, has
/// length 4·⌈n/3⌉, and decoding it yields the bytes back.
#[verifier::external_body]
pub(crate) fn base64_encode(data: &[u8]) -> (r: String)
    ensures
        r@ == b64_encode_of(data@),
        b64_decode_of(r@) == Some(data@),
        r@.len() == 4 * ((data@.len() + 2) / 3),
        forall|i: int| 0 <= i < r@.len() ==> is_base64_char(#[trigger] r@[i]),
{
    base64::Engine::encode(&base64::engine::general_purpose::STANDARD, data)
}

/// Relies on base64's STANDARD engine decode: the outcome is a function of
/// the text alone.
#[verifier::external_body]
pub(crate) fn base64_decode(text: &str) -> (r: Option<Vec<u8>>)
    ensures
        r matches Some(v) ==> b64_decode_of(text@) == Some(v@),
        r is None ==> b64_decode_of(text@) is None,
{
    base64::Engine::decode(&base64::engine::general_purpose::STANDARD, text).ok()
}

/// Relies on str::chars: the characters of the string, in order.
#[verifier::external_body]
pub(crate) fn str_to_chars(s: &str) -> (r: Vec<char>)
    ensures
        r@ == s@,
{
    s.chars().collect()
}

/// Relies on String::from_iter over chars: the string made of exactly these
/// characters.
#[verifier::external_body]
pub(crate) fn chars_to_string(v: &[char]) -> (r: String)
    ensures
        r@ == v@,
{
    v.iter().collect()
}

/// Whether two strings hold the same characters.
pub(crate) fn str_eq(a: &str, b: &str) -> (r: bool)
    ensures
        r == (a@ == b@),
{
    let ca = str_to_chars(a);
    let cb = str_to_chars(b);
    if ca.len() != cb.len() {
        proof {
            assert(a@ != b@);
        }
        return false;
    }
    let mut i: usize = 0;
    while i < ca.len()
        invariant
            i <= ca@.len(),
            ca@.len() == cb@.len(),
            ca@ == a@,
            cb@ == b@,
            forall|j: int| 0 <= j < i ==> ca@[j] == cb@[j],
        decreases ca@.len() - i,
    {
        if ca[i] != cb[i] {
            return false;
        }
        i += 1;
    }
    proof {
        assert(a@ =~= b@);
    }
    true
}

/// Copies a byte slice into a fresh vector.
pub(crate) fn copy_bytes(s: &[u8]) -> (r: Vec<u8>)
    ensures
        r@ == s@,
{
    let mut out: Vec<u8> = Vec::new();
    let mut i: usize = 0;
    while i < s.len()
        invariant
            i <= s@.len(),
            out@ == s@.subrange(0, i as int),
        decreases s@.len() - i,
    {
        out.push(s[i]);
        proof {
            assert(out@ =~= s@.subrange(0, (i + 1) as int));
        }
        i += 1;
    }
    proof {
        assert(out@ =~= s@);
    }
    out
}

} // verus!
