//! Building the address of a QR-code image for a text, and describing that text.
use vstd::prelude::*;
use vstd::string::StringExecFns;
use vstd::utf8::encode_utf8;

use crate::chars::{chars_of, digit_char, string_from_chars};
use crate::text::{blank, is_blank};

verus! {

/// The address of the image service, up to the encoded text.
pub const QR_ENDPOINT: &'static str = "https://api.qrserver.com/v1/create-qr-code/?size=200x200&data=";

/// The largest number of characters that a QR code is made for.
pub const MAX_QR_CHARS: usize = 2000;

/// A byte that percent-encoding leaves as it is: ASCII letters and digits, `-`, `.`, `_`, `~`.
pub open spec fn is_unreserved(b: u8) -> bool {
    (48 <= b && b <= 57) || (65 <= b && b <= 90) || (97 <= b && b <= 122) || b == 45 || b == 46
        || b == 95 || b == 126
}

/// The upper-case hexadecimal digit for `d < 16`.
pub open spec fn hex_char(d: nat) -> char {
    if d < 10 {
        digit_char(d)
    } else if d == 10 {
        'A'
    } else if d == 11 {
        'B'
    } else if d == 12 {
        'C'
    } else if d == 13 {
        'D'
    } else if d == 14 {
        'E'
    } else {
        'F'
    }
}

/// Percent-encoding of `b`: an unreserved byte stands for itself, any other
/// as `%` and two upper-case hexadecimal digits.
pub open spec fn percent_encoded(b: Seq<u8>) -> Seq<char>
    decreases b.len(),
{
    if b.len() == 0 {
        seq![]
    } else {
        let x = b.last();
        percent_encoded(b.drop_last()) + if is_unreserved(x) {
            seq![x as char]
        } else {
            seq!['%', hex_char((x / 16) as nat), hex_char((x % 16) as nat)]
        }
    }
}

/// Relies on `urlencoding::encode`, which percent-encodes every byte of the
/// UTF-8 form of `s` but ASCII letters, digits, `-`, `.`, `_` and `~`, with
/// upper-case digits.
#[verifier::external_body]
fn url_encode(s: &str) -> (r: String)
    ensures
        r@ == percent_encoded(encode_utf8(s@)),
{
    urlencoding::encode(s).into_owned()
}

/// Why a text gets no QR code.
#[derive(Clone, Copy, Debug, PartialEq, Eq)]
pub enum QrError {
    /// The text is empty or only whitespace.
    Empty,
    /// The text has more than `MAX_QR_CHARS` characters.
    TooLong,
}

impl QrError {
    /// The message shown for this error.
    pub open spec fn message_spec(self) -> Seq<char> {
        match self {
            QrError::Empty => "Text cannot be empty"@,
            QrError::TooLong => "Text too long (max 2000 chars)"@,
        }
    }

    /// The message shown for this error.
    pub fn message(&self) -> (r: String)
        ensures
            r@ == self.message_spec(),
    {
        match self {
            QrError::Empty => "Text cannot be empty".to_owned(),
            QrError::TooLong => "Text too long (max 2000 chars)".to_owned(),
        }
    }
}

/// The address of the QR image for `s`.
pub open spec fn qr_url(s: Seq<char>) -> Seq<char> {
    QR_ENDPOINT@ + percent_encoded(encode_utf8(s))
}

/// The address of a 200x200 QR image for `text`, the text percent-encoded
/// into the query. Blank texts and texts over `MAX_QR_CHARS` characters are
/// refused.
pub fn generate_qr_code(text: &str) -> (r: Result<String, QrError>)
    ensures
        r == Err::<String, QrError>(QrError::Empty) <==> is_blank(text@),
        r == Err::<String, QrError>(QrError::TooLong) <==> (!is_blank(text@) && text@.len()
            > MAX_QR_CHARS),
        r is Ok ==> r->Ok_0@ == qr_url(text@),
{
    if blank(text) {
        return Err(QrError::Empty);
    }
    let n = chars_of(text).len();
    if n > MAX_QR_CHARS {
        return Err(QrError::TooLong);
    }
    let encoded = url_encode(text);
    let base = QR_ENDPOINT.to_owned();
    Ok(base.concat(encoded.as_str()))
}

/// What a text to encode looks like.
#[derive(Clone, Copy, Debug, PartialEq, Eq)]
pub enum ContentKind {
    /// It starts with `http://` or `https://`.
    Url,
    /// It holds an `@` and a `.`.
    Email,
    /// Anything else.
    Text,
}

/// `p` is a prefix of `s`.
pub open spec fn starts_with(s: Seq<char>, p: Seq<char>) -> bool {
    p.len() <= s.len() && s.take(p.len() as int) == p
}

/// `c` occurs in `s`.
pub open spec fn holds_char(s: Seq<char>, c: char) -> bool {
    exists|i: int| 0 <= i < s.len() && s[i] == c
}

/// The kind of `s`: an address first, then a mail address, else plain text.
pub open spec fn kind_of(s: Seq<char>) -> ContentKind {
    if starts_with(s, "http://"@) || starts_with(s, "https://"@) {
        ContentKind::Url
    } else if holds_char(s, '@') && holds_char(s, '.') {
        ContentKind::Email
    } else {
        ContentKind::Text
    }
}

fn has_prefix(v: &Vec<char>, p: &str) -> (r: bool)
    ensures
        r == starts_with(v@, p@),
{
    let q = chars_of(p);
    if q.len() > v.len() {
        return false;
    }
    let mut i: usize = 0;
    while i < q.len()
        invariant
            i <= q.len() <= v.len(),
            q@ == p@,
            forall|j: int| 0 <= j < i ==> v@[j] == q@[j],
        decreases q.len() - i,
    {
        if v[i] != q[i] {
            assert(v@.take(q.len() as int)[i as int] != q@[i as int]);
            return false;
        }
        i += 1;
    }
    assert(v@.take(q.len() as int) =~= q@);
    true
}

fn has_char(v: &Vec<char>, c: char) -> (r: bool)
    ensures
        r == holds_char(v@, c),
{
    let mut i: usize = 0;
    while i < v.len()
        invariant
            i <= v.len(),
            forall|j: int| 0 <= j < i ==> v@[j] != c,
        decreases v.len() - i,
    {
        if v[i] == c {
            return true;
        }
        i += 1;
    }
    false
}

/// Whether `text` is a web address, a mail address or plain text.
pub fn content_kind(text: &str) -> (r: ContentKind)
    ensures
        r == kind_of(text@),
{
    let v = chars_of(text);
    if has_prefix(&v, "http://") || has_prefix(&v, "https://") {
        ContentKind::Url
    } else if has_char(&v, '@') && has_char(&v, '.') {
        ContentKind::Email
    } else {
        ContentKind::Text
    }
}

/// The number of UTF-8 bytes that a preview shows at most.
pub const PREVIEW_BYTES: usize = 30;

/// The length in bytes of the UTF-8 form of `c`.
pub open spec fn utf8_width(c: char) -> nat {
    encode_utf8(seq![c]).len()
}

/// The number of leading characters of `s` whose UTF-8 form fits in
/// `budget` bytes: the longest such prefix, as characters.
pub open spec fn chars_within(s: Seq<char>, budget: int) -> nat
    decreases s.len(),
{
    if s.len() == 0 {
        0
    } else if utf8_width(s[0]) <= budget {
        1 + chars_within(s.drop_first(), budget - utf8_width(s[0]))
    } else {
        0
    }
}

/// `s` as a preview shows it: whole when its UTF-8 form has at most
/// `PREVIEW_BYTES` bytes, else the longest prefix that fits in that many
/// bytes, and `...`.
pub open spec fn preview_of(s: Seq<char>) -> Seq<char> {
    if encode_utf8(s).len() > PREVIEW_BYTES {
        s.take(chars_within(s, PREVIEW_BYTES as int) as int) + "..."@
    } else {
        s
    }
}

/// The length in bytes of the UTF-8 form of `c`.
pub fn char_width(c: char) -> (r: usize)
    ensures
        r == utf8_width(c),
        1 <= r <= 4,
{
    proof {
        vstd::utf8::char_is_scalar(c);
        assert(encode_utf8(seq![c]) =~= vstd::utf8::encode_scalar(c as u32) + encode_utf8(
            seq![c].drop_first(),
        ));
        assert(encode_utf8(seq![c].drop_first()) =~= Seq::<u8>::empty());
    }
    let u = c as u32;
    if u <= 0x7f {
        1
    } else if u <= 0x7ff {
        2
    } else if u <= 0xffff {
        3
    } else {
        4
    }
}

/// A short preview of `text`: cut after at most `PREVIEW_BYTES` bytes, on a
/// character boundary, when it is longer.
pub fn content_preview(text: &str) -> (r: String)
    ensures
        r@ == preview_of(text@),
{
    if text.as_bytes().len() <= PREVIEW_BYTES {
        return text.to_owned();
    }
    let v = chars_of(text);
    let mut out: Vec<char> = Vec::new();
    let mut budget: usize = PREVIEW_BYTES;
    let mut i: usize = 0;
    assert(v@.skip(0) =~= v@);
    while i < v.len() && char_width(v[i]) <= budget
        invariant
            i <= v.len(),
            v@ == text@,
            budget <= PREVIEW_BYTES,
            out@ == v@.take(i as int),
            chars_within(v@, PREVIEW_BYTES as int) == i + chars_within(
                v@.skip(i as int),
                budget as int,
            ),
        decreases v.len() - i,
    {
        let w = char_width(v[i]);
        let ghost rest = v@.skip(i as int);
        assert(rest[0] == v@[i as int]);
        assert(rest.drop_first() =~= v@.skip(i + 1));
        out.push(v[i]);
        budget = budget - w;
        i += 1;
        assert(out@ =~= v@.take(i as int));
    }
    proof {
        let rest = v@.skip(i as int);
        if i < v.len() {
            assert(rest[0] == v@[i as int]);
        }
    }
    crate::chars::push_str(&mut out, "...");
    string_from_chars(&out)
}

} // verus!
