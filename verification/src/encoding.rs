//! The encodings that the control channel and the tickets rest on: base64,
//! hexadecimal, HMAC-SHA256, JSON text and UTF-8. Hexadecimal is written here.
//! The others are the work of the crates that implement them; what is claimed
//! of each is in the contract of the function that calls it.

use vstd::prelude::*;
use vstd::utf8::{decode_utf8, encode_utf8, is_ascii_chars, valid_utf8};

verus! {

/// The standard, padded base64 text of `data`.
pub uninterp spec fn base64_standard(data: Seq<u8>) -> Seq<char>;

/// The bytes that standard, padded base64 `text` stands for, if it is well formed.
pub uninterp spec fn base64_standard_decoded(text: Seq<char>) -> Option<Seq<u8>>;

/// The bytes that URL-safe base64 `text` without padding stands for, if it is
/// well formed.
pub uninterp spec fn base64_url_decoded(text: Seq<char>) -> Option<Seq<u8>>;

/// The HMAC-SHA256 tag of `data` under `key`.
pub uninterp spec fn hmac_sha256_of(key: Seq<u8>, data: Seq<u8>) -> Seq<u8>;

/// The JSON string literal for `text`, quotes included, as UTF-8 bytes.
pub uninterp spec fn json_string_bytes(text: Seq<char>) -> Seq<u8>;

/// What a JSON object holds under a key.
pub enum JsonField {
    /// The object has no such member.
    Missing,
    /// The member is `null`.
    Null,
    /// The member is a string.
    Text(String),
    /// The member is an integer.
    Integer(i128),
    /// The member is something else: a fraction, a boolean, an array or an object.
    Other,
}

/// `JsonField` with its text as a sequence of characters.
pub enum JsonFieldView {
    Missing,
    Null,
    Text(Seq<char>),
    Integer(int),
    Other,
}

impl View for JsonField {
    type V = JsonFieldView;

    open spec fn view(&self) -> JsonFieldView {
        match self {
            JsonField::Missing => JsonFieldView::Missing,
            JsonField::Null => JsonFieldView::Null,
            JsonField::Text(s) => JsonFieldView::Text(s@),
            JsonField::Integer(i) => JsonFieldView::Integer(*i as int),
            JsonField::Other => JsonFieldView::Other,
        }
    }
}

/// What the JSON text `text` holds under `key`; `None` where `text` is no JSON
/// object.
pub uninterp spec fn json_field_of(text: Seq<u8>, key: Seq<char>) -> Option<JsonFieldView>;

/// The lower-case hexadecimal digit for a value below 16.
pub open spec fn hex_char(v: int) -> u8 {
    if v < 10 {
        (48 + v) as u8
    } else {
        (87 + v) as u8
    }
}

/// The lower-case hexadecimal text of `data`: two digits for each byte, the high
/// half first.
pub open spec fn hex_lower(data: Seq<u8>) -> Seq<u8> {
    Seq::new(
        2 * data.len(),
        |i: int|
            if i % 2 == 0 {
                hex_char(data[i / 2] as int / 16)
            } else {
                hex_char(data[i / 2] as int % 16)
            },
    )
}

/// `base64::engine::general_purpose::STANDARD.encode`: the result is the
/// standard base64 text of `data`, and decoding that text gives `data` back. The
/// crate panics where the length of the text would not fit `usize`, so such data
/// are left out.
#[verifier::external_body]
pub fn base64_encode(data: &[u8]) -> (r: String)
    requires
        data@.len() <= usize::MAX / 2,
    ensures
        r@ == base64_standard(data@),
        base64_standard_decoded(r@) == Some(data@),
{
    base64::Engine::encode(&base64::engine::general_purpose::STANDARD, data)
}

/// `base64::engine::general_purpose::STANDARD.decode`: the bytes that `text`
/// stands for, or `None` where the crate reports a decoding error.
#[verifier::external_body]
pub(crate) fn base64_decode(text: &str) -> (r: Option<Vec<u8>>)
    ensures
        r.is_some() == base64_standard_decoded(text@).is_some(),
        r.is_some() ==> r.unwrap()@ == base64_standard_decoded(text@).unwrap(),
{
    base64::Engine::decode(&base64::engine::general_purpose::STANDARD, text).ok()
}

/// `base64::engine::general_purpose::URL_SAFE_NO_PAD.decode`: the bytes that
/// `text` stands for, or `None` where the crate reports a decoding error.
#[verifier::external_body]
pub(crate) fn base64_url_decode(text: &str) -> (r: Option<Vec<u8>>)
    ensures
        r.is_some() == base64_url_decoded(text@).is_some(),
        r.is_some() ==> r.unwrap()@ == base64_url_decoded(text@).unwrap(),
{
    base64::Engine::decode(&base64::engine::general_purpose::URL_SAFE_NO_PAD, text).ok()
}

fn hex_digit_of(v: u8) -> (r: u8)
    requires
        v < 16,
    ensures
        r == hex_char(v as int),
{
    if v < 10 {
        48 + v
    } else {
        87 + v
    }
}

/// Writes `data` in lower-case hexadecimal, two digits for each byte.
pub fn hex_encode(data: &[u8]) -> (r: Vec<u8>)
    ensures
        r@ == hex_lower(data@),
{
    let mut out: Vec<u8> = Vec::new();
    let mut i: usize = 0;
    while i < data.len()
        invariant
            i <= data@.len(),
            out@.len() == 2 * i,
            forall|j: int| 0 <= j < 2 * i ==> out@[j] == hex_lower(data@)[j],
        decreases data@.len() - i,
    {
        let b: u8 = data[i];
        out.push(hex_digit_of(b / 16));
        out.push(hex_digit_of(b % 16));
        i += 1;
    }
    assert(out@ =~= hex_lower(data@));
    out
}

/// `Hmac<Sha256>`: `new_from_slice`, `update`, `finalize`. The result is the tag
/// of `data` under `key`. HMAC takes a key of any length, so `new_from_slice`
/// returns no error.
#[verifier::external_body]
pub(crate) fn hmac_sha256(key: &[u8], data: &[u8]) -> (r: Vec<u8>)
    ensures
        r@ == hmac_sha256_of(key@, data@),
{
    let mut out: Vec<u8> = Vec::new();
    if let Ok(mut mac) = <hmac::Hmac<sha2::Sha256> as hmac::Mac>::new_from_slice(key) {
        hmac::Mac::update(&mut mac, data);
        out = hmac::Mac::finalize(mac).into_bytes().to_vec();
    }
    out
}

/// `serde_json::to_vec` on a string: the JSON string literal for `text`.
#[verifier::external_body]
pub(crate) fn json_quote(text: &str) -> (r: Vec<u8>)
    ensures
        r@ == json_string_bytes(text@),
{
    serde_json::to_vec(text).unwrap_or_default()
}

/// `serde_json::from_slice` into a `serde_json::Value`, then the member `key` of
/// the object: which kind of value it is, with the text of a string and the
/// value of an integer. `None` where `text` is no JSON or no object.
#[verifier::external_body]
pub(crate) fn json_field(text: &[u8], key: &str) -> (r: Option<JsonField>)
    ensures
        r.is_some() == json_field_of(text@, key@).is_some(),
        r.is_some() ==> r.unwrap()@ == json_field_of(text@, key@).unwrap(),
{
    let value = serde_json::from_slice::<serde_json::Value>(text).ok()?;
    Some(match value.as_object()?.get(key) {
        None => JsonField::Missing,
        Some(serde_json::Value::Null) => JsonField::Null,
        Some(serde_json::Value::String(s)) => JsonField::Text(s.clone()),
        Some(serde_json::Value::Number(n)) => n.as_i128().map_or(JsonField::Other, JsonField::Integer),
        Some(_) => JsonField::Other,
    })
}

/// `String::from_utf8`: the text that `bytes` encode, where they are valid UTF-8.
#[verifier::external_body]
pub(crate) fn utf8_text(bytes: &[u8]) -> (r: Option<String>)
    ensures
        r.is_some() == valid_utf8(bytes@),
        r.is_some() ==> r.unwrap()@ == decode_utf8(bytes@),
{
    String::from_utf8(bytes.to_vec()).ok()
}

/// The characters that ASCII bytes stand for: one for each byte.
pub open spec fn ascii_chars(bytes: Seq<u8>) -> Seq<char> {
    Seq::new(bytes.len(), |i: int| bytes[i] as char)
}

/// Every byte is below 128.
pub open spec fn all_ascii(bytes: Seq<u8>) -> bool {
    forall|i: int| 0 <= i < bytes.len() ==> bytes[i] < 128
}

/// ASCII bytes are the UTF-8 encoding of their characters.
pub proof fn lemma_ascii_is_utf8(bytes: Seq<u8>)
    requires
        all_ascii(bytes),
    ensures
        valid_utf8(bytes),
        decode_utf8(bytes) == ascii_chars(bytes),
{
    let chars = ascii_chars(bytes);
    assert(is_ascii_chars(chars)) by {
        assert forall|i: int| 0 <= i < chars.len() implies '\0' <= #[trigger] chars[i] <= '\u{7f}' by {
            assert(bytes[i] < 128);
        }
    }
    vstd::utf8::is_ascii_chars_encode_utf8(chars);
    assert(encode_utf8(chars) =~= bytes) by {
        assert forall|i: int| 0 <= i < bytes.len() implies encode_utf8(chars)[i] == bytes[i] by {
            assert(chars[i] as u8 == encode_utf8(chars)[i]);
            assert(bytes[i] < 128);
        }
    }
    vstd::utf8::encode_utf8_valid_utf8(chars);
    vstd::utf8::encode_utf8_decode_utf8(chars);
}

/// The text of ASCII bytes.
pub fn ascii_text(bytes: &[u8]) -> (r: String)
    requires
        all_ascii(bytes@),
    ensures
        r@ == ascii_chars(bytes@),
{
    proof {
        lemma_ascii_is_utf8(bytes@);
    }
    match utf8_text(bytes) {
        Some(s) => s,
        None => vstd::pervasive::unreached(),
    }
}

/// The text of an optional string.
pub open spec fn text_view(s: Option<String>) -> Option<Seq<char>> {
    match s {
        Some(t) => Some(t@),
        None => None,
    }
}

/// The string that a JSON object must hold under `key`.
pub open spec fn required_text(text: Seq<u8>, key: Seq<char>) -> Option<Seq<char>> {
    match json_field_of(text, key) {
        Some(JsonFieldView::Text(s)) => Some(s),
        _ => None,
    }
}

/// The string that a JSON object may hold under `key`: the outer `None` where the
/// member is there and is neither a string nor `null`.
pub open spec fn optional_text(text: Seq<u8>, key: Seq<char>) -> Option<Option<Seq<char>>> {
    match json_field_of(text, key) {
        Some(JsonFieldView::Text(s)) => Some(Some(s)),
        Some(JsonFieldView::Missing) => Some(None),
        Some(JsonFieldView::Null) => Some(None),
        _ => None,
    }
}

/// The integer between `lo` and `hi` that a JSON object must hold under `key`.
pub open spec fn required_integer(text: Seq<u8>, key: Seq<char>, lo: int, hi: int) -> Option<int> {
    match json_field_of(text, key) {
        Some(JsonFieldView::Integer(i)) => if lo <= i <= hi {
            Some(i)
        } else {
            None
        },
        _ => None,
    }
}

/// Reads the string under `key`.
pub fn read_required_text(text: &[u8], key: &str) -> (r: Option<String>)
    ensures
        match r {
            Some(s) => required_text(text@, key@) == Some(s@),
            None => required_text(text@, key@) is None,
        },
{
    match json_field(text, key) {
        Some(JsonField::Text(s)) => Some(s),
        _ => None,
    }
}

/// Reads the string under `key`, if the object has one.
pub fn read_optional_text(text: &[u8], key: &str) -> (r: Option<Option<String>>)
    ensures
        match r {
            Some(v) => optional_text(text@, key@) == Some(text_view(v)),
            None => optional_text(text@, key@) is None,
        },
{
    match json_field(text, key) {
        Some(JsonField::Text(s)) => Some(Some(s)),
        Some(JsonField::Missing) => Some(None),
        Some(JsonField::Null) => Some(None),
        _ => None,
    }
}

/// Reads the integer under `key`, which must lie between `lo` and `hi`.
pub fn read_required_integer(text: &[u8], key: &str, lo: i128, hi: i128) -> (r: Option<i128>)
    ensures
        match r {
            Some(i) => required_integer(text@, key@, lo as int, hi as int) == Some(i as int),
            None => required_integer(text@, key@, lo as int, hi as int) is None,
        },
{
    match json_field(text, key) {
        Some(JsonField::Integer(i)) => if lo <= i && i <= hi {
            Some(i)
        } else {
            None
        },
        _ => None,
    }
}

} // verus!
