//! Base64 encoding and decoding of text, in the standard alphabet with padding.
use base64::engine::general_purpose::STANDARD;
use base64::Engine;
use vstd::prelude::*;
use vstd::utf8::{decode_utf8, encode_utf8, valid_utf8};

use crate::text::{blank, is_blank, is_ws};

verus! {

/// What `STANDARD.encode` returns for the bytes `b`.
pub uninterp spec fn base64_of(b: Seq<u8>) -> Seq<char>;

/// What `STANDARD.decode` returns for the text `s`: the bytes, or `None` when it fails.
pub uninterp spec fn base64_decoded(s: Seq<char>) -> Option<Seq<u8>>;

/// A symbol of the standard alphabet, or the padding `=`.
pub open spec fn is_base64_symbol(c: char) -> bool {
    ('A' <= c && c <= 'Z') || ('a' <= c && c <= 'z') || ('0' <= c && c <= '9') || c == '+' || c
        == '/' || c == '='
}

/// The number of `=` that end the padded encoding of `n` bytes.
pub open spec fn padding_len(n: nat) -> nat {
    ((3 - n % 3) % 3) as nat
}

/// `s` is a padded standard encoding in form: symbols of the alphabet, and
/// `=` exactly in the last `padding_len(n)` places, for `n` encoded bytes.
pub open spec fn well_formed_encoding(s: Seq<char>, n: nat) -> bool {
    &&& s.len() == encoded_len(n)
    &&& forall|i: int| 0 <= i < s.len() ==> is_base64_symbol(#[trigger] s[i])
    &&& forall|i: int| 0 <= i < s.len() ==> (#[trigger] s[i] == '=' <==> i >= s.len() - padding_len(n))
}

/// The length of the padded encoding of `n` bytes.
pub open spec fn encoded_len(n: nat) -> nat {
    4 * ((n + 2) / 3)
}

/// Why a text is not Base64, as the decoder reports it.
#[derive(Clone, Copy, Debug, PartialEq, Eq)]
pub enum DecodeFailure {
    /// A byte outside the alphabet, or misplaced padding: its offset and value.
    InvalidByte(usize, u8),
    /// The number of symbols cannot be the encoding of any bytes.
    InvalidLength(usize),
    /// The last symbol carries bits that decoding would drop: its offset and value.
    InvalidLastSymbol(usize, u8),
    /// Padding absent or not canonical.
    InvalidPadding,
}

/// A failure of `decode`.
#[derive(Clone, Copy, Debug, PartialEq, Eq)]
pub enum Base64Error {
    /// The input is not Base64.
    Decode(DecodeFailure),
    /// The input is Base64, but the bytes it holds are not UTF-8.
    Encoding,
}

/// The direction in which the codec works.
#[derive(Clone, Copy, Debug, PartialEq, Eq)]
pub enum Base64Mode {
    Encode,
    Decode,
}

/// Relies on `Engine::encode` of `STANDARD`: it pads, so it writes four
/// symbols for every three bytes begun, the last one or two of them `=`
/// when the bytes end in a partial group; it panics only where that
/// length overflows `usize`.
#[verifier::external_body]
fn standard_encode(b: &[u8]) -> (r: String)
    requires
        encoded_len(b@.len()) <= usize::MAX,
    ensures
        r@ == base64_of(b@),
        well_formed_encoding(r@, b@.len()),
{
    STANDARD.encode(b)
}

/// Relies on `Engine::decode` of `STANDARD`, which gives back the bytes of
/// any text that `Engine::encode` of `STANDARD` wrote, and, requiring
/// canonical padding and no trailing bits, accepts no other text; what it
/// accepts holds only symbols of the alphabet and `=`.
#[verifier::external_body]
fn standard_decode(s: &str) -> (r: Result<Vec<u8>, DecodeFailure>)
    ensures
        r is Ok ==> base64_of(r->Ok_0@) == s@,
        r is Ok <==> base64_decoded(s@) is Some,
        r matches Ok(v) ==> base64_decoded(s@) == Some(v@),
        forall|b: Seq<u8>| base64_of(b) == s@ ==> r is Ok && r->Ok_0@ == b,
        r is Ok ==> forall|i: int|
            #![trigger s@[i]]
            0 <= i < s@.len() ==> is_base64_symbol(s@[i]),
{
    STANDARD.decode(s).map_err(|e| match e {
        base64::DecodeError::InvalidByte(at, byte) => DecodeFailure::InvalidByte(at, byte),
        base64::DecodeError::InvalidLength(n) => DecodeFailure::InvalidLength(n),
        base64::DecodeError::InvalidLastSymbol(at, byte) => DecodeFailure::InvalidLastSymbol(at, byte),
        base64::DecodeError::InvalidPadding => DecodeFailure::InvalidPadding,
    })
}

/// Relies on `String::from_utf8`: it succeeds exactly on valid UTF-8, with
/// the characters that the bytes encode.
#[verifier::external_body]
fn utf8_text(b: Vec<u8>) -> (r: Option<String>)
    ensures
        r is Some <==> valid_utf8(b@),
        r matches Some(s) ==> s@ == decode_utf8(b@),
{
    String::from_utf8(b).ok()
}

/// The encoding of `s`: empty for a blank text, else the Base64 of its UTF-8 bytes.
pub open spec fn encoded_text(s: Seq<char>) -> Seq<char> {
    if is_blank(s) {
        seq![]
    } else {
        base64_of(encode_utf8(s))
    }
}

/// The text that decoding `s` gives: empty for a blank `s`; `None` when `s`
/// is not Base64 or holds bytes that are not UTF-8.
pub open spec fn decoded_text(s: Seq<char>) -> Option<Seq<char>> {
    if is_blank(s) {
        Some(seq![])
    } else {
        match base64_decoded(s) {
            Some(b) => if valid_utf8(b) {
                Some(decode_utf8(b))
            } else {
                None
            },
            None => None,
        }
    }
}

/// A text that decoding rejects as not Base64: not blank, and the encoding
/// of no bytes.
pub open spec fn is_bad_base64(s: Seq<char>) -> bool {
    !is_blank(s) && forall|b: Seq<u8>| #[trigger] base64_of(b) != s
}

/// Base64 of the UTF-8 bytes of `text`; a blank text gives an empty result.
pub fn encode(text: &str) -> (r: String)
    requires
        encoded_len(encode_utf8(text@).len()) <= usize::MAX,
    ensures
        r@ == encoded_text(text@),
        !is_blank(text@) ==> !is_blank(r@),
        !is_blank(text@) ==> well_formed_encoding(r@, encode_utf8(text@).len()),
{
    if blank(text) {
        return String::new();
    }
    let r = standard_encode(text.as_bytes());
    proof {
        assert(text@.len() > 0);
        lemma_encode_utf8_nonempty(text@);
        assert(r@.len() > 0);
        assert(is_base64_symbol(r@[0]));
        assert(!is_ws(r@[0]));
    }
    r
}

proof fn lemma_encode_utf8_nonempty(s: Seq<char>)
    requires
        s.len() > 0,
    ensures
        encode_utf8(s).len() > 0,
{
    vstd::utf8::encode_utf8_first_scalar(s);
}

/// The text that the outcome of Base64 decoding holds: the decoder's
/// failure passed on, or the bytes read as UTF-8.
pub fn text_from_decoded(decoded: Result<Vec<u8>, DecodeFailure>) -> (r: Result<String, Base64Error>)
    ensures
        decoded matches Err(f) ==> r == Err::<String, Base64Error>(Base64Error::Decode(f)),
        decoded matches Ok(b) ==> (r is Ok <==> valid_utf8(b@)),
        decoded matches Ok(b) ==> (r is Ok ==> r->Ok_0@ == decode_utf8(b@)),
        decoded is Ok && r is Err ==> r == Err::<String, Base64Error>(Base64Error::Encoding),
{
    match decoded {
        Ok(bytes) => match utf8_text(bytes) {
            Some(s) => Ok(s),
            None => Err(Base64Error::Encoding),
        },
        Err(f) => Err(Base64Error::Decode(f)),
    }
}

/// The text whose UTF-8 bytes `text` encodes in Base64; a blank `text` gives
/// an empty text. Decoding the encoding of a non-blank text gives it back.
pub fn decode(text: &str) -> (r: Result<String, Base64Error>)
    ensures
        r is Ok <==> decoded_text(text@) is Some,
        r matches Ok(t) ==> decoded_text(text@) == Some(t@),
        r matches Err(Base64Error::Decode(_)) <==> is_bad_base64(text@),
        forall|t: Seq<char>|
            #![trigger encoded_text(t)]
            encoded_text(t) == text@ && !is_blank(text@) ==> (r matches Ok(x) && x@ == t),
        r is Ok && !is_blank(r->Ok_0@) ==> encoded_text(r->Ok_0@) == text@,
        forall|b: Seq<u8>|
            #![trigger base64_of(b)]
            base64_of(b) == text@ && !is_blank(text@) ==> (r is Ok <==> valid_utf8(b)) && (r is Ok
                ==> r->Ok_0@ == decode_utf8(b)),
        !is_blank(text@) && (exists|i: int|
            0 <= i < text@.len() && !is_base64_symbol(#[trigger] text@[i])) ==> r matches Err(
            Base64Error::Decode(_),
        ),
{
    if blank(text) {
        return Ok(String::new());
    }
    let decoded = standard_decode(text);
    let ghost d = decoded;
    let r = text_from_decoded(decoded);
    proof {
        if d is Ok {
            assert(base64_of(d->Ok_0@) == text@);
            if r is Ok {
                vstd::utf8::decode_utf8_encode_utf8(d->Ok_0@);
                assert(encode_utf8(r->Ok_0@) == d->Ok_0@);
            }
        }
        assert forall|t: Seq<char>| #[trigger] encoded_text(t) == text@ implies (r matches Ok(x)
            && x@ == t) by {
            if is_blank(t) {
                assert(text@.len() == 0);
            } else {
                assert(base64_of(encode_utf8(t)) == text@);
                vstd::utf8::encode_utf8_valid_utf8(t);
                vstd::utf8::encode_utf8_decode_utf8(t);
            }
        }
    }
    r
}

/// Encodes or decodes `text`, as `mode` says.
pub fn convert(mode: Base64Mode, text: &str) -> (r: Result<String, Base64Error>)
    requires
        mode == Base64Mode::Encode ==> encoded_len(encode_utf8(text@).len()) <= usize::MAX,
    ensures
        mode == Base64Mode::Encode ==> r is Ok && r->Ok_0@ == encoded_text(text@),
        mode == Base64Mode::Decode ==> (r is Ok <==> decoded_text(text@) is Some),
        mode == Base64Mode::Decode && r is Ok ==> decoded_text(text@) == Some(r->Ok_0@),
        mode == Base64Mode::Encode && !is_blank(text@) ==> well_formed_encoding(
            r->Ok_0@,
            encode_utf8(text@).len(),
        ),
        mode == Base64Mode::Decode ==> (r matches Err(Base64Error::Decode(_)) <==> is_bad_base64(
            text@,
        )),
        mode == Base64Mode::Decode ==> forall|t: Seq<char>|
            #![trigger encoded_text(t)]
            encoded_text(t) == text@ && !is_blank(text@) ==> (r matches Ok(x) && x@ == t),        mode == Base64Mode::Decode && r is Ok && !is_blank(r->Ok_0@) ==> encoded_text(r->Ok_0@) == text@,
        mode == Base64Mode::Decode ==> forall|b: Seq<u8>|
            #![trigger base64_of(b)]
            base64_of(b) == text@ && !is_blank(text@) ==> (r is Ok <==> valid_utf8(b)) && (r is Ok
                ==> r->Ok_0@ == decode_utf8(b)),
        mode == Base64Mode::Decode && !is_blank(text@) && (exists|i: int|
            0 <= i < text@.len() && !is_base64_symbol(#[trigger] text@[i])) ==> r matches Err(
            Base64Error::Decode(_),
        ),
{
    match mode {
        Base64Mode::Encode => Ok(encode(text)),
        Base64Mode::Decode => decode(text),
    }
}

} // verus!
