//! The calls that this library makes into outside crates and into std:
//! base64 and JSON from `rustc_serialize`, DEFLATE compression from
//! `libflate`, the constant-time comparison from `constant_time_eq` and the
//! UTF-8 check of `std::str::from_utf8`. Their contracts are trusted; each
//! says what the crate's source (or std's documentation) shows of the call.

use vstd::prelude::*;
use rustc_serialize::base64::FromBase64;
use rustc_serialize::base64::FromBase64Error;
use rustc_serialize::base64::ToBase64;
use rustc_serialize::json::Json;
use vstd::string::StringSliceAdditionalSpecFns;

verus! {

/// The error type of `rustc_serialize`'s base64 decoder.
#[verifier::external_type_specification]
#[verifier::external_body]
pub struct ExFromBase64Error(FromBase64Error);

/// What `rustc_serialize`'s `to_base64` with the `URL_SAFE` configuration
/// (alphabet `A-Z a-z 0-9 - _`, no padding, no line breaks) makes of `data`,
/// as bytes.
pub uninterp spec fn base64_url_safe(data: Seq<u8>) -> Seq<u8>;

/// What `rustc_serialize`'s `from_base64` makes of `text`: `Some` of the
/// decoded bytes, or `None` where it reports an error.
pub uninterp spec fn base64_decoded(text: Seq<u8>) -> Option<Seq<u8>>;

/// What a `libflate` DEFLATE encoder that writes into a fresh vector makes of
/// `data`: `Some` of the encoded stream, or `None` where the write or the
/// finish reports an I/O error.
pub uninterp spec fn deflated(data: Seq<u8>) -> Option<Seq<u8>>;

/// A byte of the URL-safe base64 alphabet.
pub open spec fn is_url_safe_base64_byte(b: u8) -> bool {
    (65 <= b <= 90) || (97 <= b <= 122) || (48 <= b <= 57) || b == 45 || b == 95
}

/// Calls `<[u8] as ToBase64>::to_base64(data, URL_SAFE)` and returns the
/// string's bytes. Trusted: the result is the named encoding of `data`;
/// every byte of it is taken from the URL-safe alphabet table that the
/// encoder indexes (padding is off, and no newline is written since
/// `line_length` is `None`); and `from_base64` gives `data` back from it,
/// since its decode table maps `-` and `_` to 62 and 63 as this alphabet
/// does and it completes a final group of two or three characters.
#[verifier::external_body]
pub(crate) fn base64_url_encode(data: &[u8]) -> (r: Vec<u8>)
    ensures
        r@ == base64_url_safe(data@),
        forall|i: int| 0 <= i < r@.len() ==> is_url_safe_base64_byte(#[trigger] r@[i]),
        base64_decoded(r@) == Some(data@),
{
    data.to_base64(rustc_serialize::base64::URL_SAFE).into_bytes()
}

/// Calls `<[u8] as FromBase64>::from_base64(text)`. Trusted: `Ok` carries
/// the named decoding of `text` and `Err` comes exactly where the name is
/// `None`. Which error variant comes back is left unsaid.
#[verifier::external_body]
pub(crate) fn base64_decode(text: &[u8]) -> (r: Result<Vec<u8>, FromBase64Error>)
    ensures
        match r {
            Ok(v) => base64_decoded(text@) == Some(v@),
            Err(_) => base64_decoded(text@) is None,
        },
{
    text.from_base64()
}

/// Runs a `libflate::deflate::Encoder` over a fresh `Vec<u8>`: `write_all`
/// of `data`, then `finish().into_result()`. Trusted: the result is the
/// named DEFLATE stream of `data`, `None` where either step reports an
/// error. The encoder's default options make the output a function of
/// `data` alone.
#[verifier::external_body]
pub(crate) fn deflate_bytes(data: &[u8]) -> (r: Option<Vec<u8>>)
    ensures
        match r {
            Some(v) => deflated(data@) == Some(v@),
            None => deflated(data@) is None,
        },
{
    let mut enc = libflate::deflate::Encoder::new(Vec::new());
    match std::io::Write::write_all(&mut enc, data) {
        Err(_) => None,
        Ok(()) => match enc.finish().into_result() {
            Ok(buf) => Some(buf),
            Err(_) => None,
        },
    }
}

/// `constant_time_eq::constant_time_eq` returns whether the two slices have
/// the same length and the same bytes (its source: equal lengths, and the
/// OR of the XORs of the bytes is zero).
pub assume_specification[ constant_time_eq::constant_time_eq ](a: &[u8], b: &[u8]) -> (r: bool)
    ensures
        r == (a@ == b@),
;

/// Calls `std::str::from_utf8(bytes)` and tells whether it succeeded.
/// Trusted: std documents that it fails exactly where the slice is not
/// UTF-8, which `valid_utf8` defines.
#[verifier::external_body]
pub(crate) fn is_utf8(bytes: &[u8]) -> (r: bool)
    ensures
        r == vstd::utf8::valid_utf8(bytes@),
{
    std::str::from_utf8(bytes).is_ok()
}

/// A JSON number or boolean.
#[derive(Clone, Copy, Debug, PartialEq, Eq, Structural)]
pub enum JsonScalar {
    Int(i64),
    Bool(bool),
}

/// The decimal digits of `n`.
pub open spec fn decimal_digits(n: nat) -> Seq<u8>
    decreases n,
{
    if n < 10 {
        seq![(48 + n) as u8]
    } else {
        decimal_digits(n / 10).push((48 + n % 10) as u8)
    }
}

/// An integer in decimal, with a `-` before a negative one.
pub open spec fn decimal_text(v: int) -> Seq<u8> {
    if v < 0 {
        seq![45u8] + decimal_digits((-v) as nat)
    } else {
        decimal_digits(v as nat)
    }
}

/// The JSON text of a number or boolean.
pub open spec fn json_scalar_text(v: JsonScalar) -> Seq<u8> {
    match v {
        JsonScalar::Int(i) => decimal_text(i as int),
        JsonScalar::Bool(true) => seq![116u8, 114, 117, 101],
        JsonScalar::Bool(false) => seq![102u8, 97, 108, 115, 101],
    }
}

/// A byte that the JSON encoder writes into a string as it is: printable
/// ASCII other than the double quote and the backslash.
pub open spec fn json_plain_byte(b: u8) -> bool {
    32 <= b < 127 && b != 34 && b != 92
}

/// The compact JSON text of an object with the one field `key`: an opening
/// brace, the key in double quotes, a colon, the value, a closing brace.
pub open spec fn json_object_text(key: Seq<u8>, value: JsonScalar) -> Seq<u8> {
    seq![123u8, 34] + key + seq![34u8, 58] + json_scalar_text(value) + seq![125u8]
}

/// Calls `rustc_serialize::json::encode` on a `BTreeMap<String, Json>`
/// holding the one field `key`, its value as `Json::I64` or
/// `Json::Boolean`. Trusted: the compact encoder writes an opening brace,
/// the key through `escape_str` (which writes printable ASCII other than the
/// double quote and the backslash as it is, between double quotes), a
/// colon, the number in decimal or `true`/`false`, and a closing brace; it
/// writes into a `String`, which never fails, and its one other error comes
/// only for keys that are not strings, so it always succeeds.
#[verifier::external_body]
pub(crate) fn json_object_one_field(key: &str, value: JsonScalar) -> (r: Option<Vec<u8>>)
    requires
        forall|i: int| 0 <= i < key.spec_bytes().len() ==> json_plain_byte(#[trigger] key.spec_bytes()[i]),
    ensures
        r is Some,
        r->Some_0@ == json_object_text(key.spec_bytes(), value),
{
    let mut fields = std::collections::BTreeMap::new();
    let v = match value {
        JsonScalar::Int(i) => Json::I64(i),
        JsonScalar::Bool(b) => Json::Boolean(b),
    };
    fields.insert(key.to_owned(), v);
    match rustc_serialize::json::encode(&fields) {
        Ok(s) => Some(s.into_bytes()),
        Err(_) => None,
    }
}

} // verus!
