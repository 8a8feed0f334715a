//! Reading the body of a response in the format that the request named.

use crate::error::{FetchError, FetchErrorView};
use crate::text::{trim, trimmed};
use vstd::prelude::*;
use vstd::utf8::{decode_utf8, valid_utf8};

verus! {

/// A JSON document as `serde_json` holds it.
#[verifier::external_type_specification]
#[verifier::external_body]
pub struct ExJsonDocument(serde_json::Value);

/// The error of `serde_json`.
#[verifier::external_type_specification]
#[verifier::external_body]
pub struct ExJsonError(serde_json::Error);

/// The members of `doc` whose values are strings, by name; none where `doc`
/// is not an object.
pub uninterp spec fn json_strings(doc: serde_json::Value) -> Map<Seq<char>, Seq<char>>;

/// What `serde_json::from_slice` makes of `body`: `None` where it reports an
/// error, else the string members of the document that it returns.
pub uninterp spec fn json_parsed(body: Seq<u8>) -> Option<Map<Seq<char>, Seq<char>>>;

/// Calls `serde_json::from_slice` to parse `body` into a `serde_json::Value`.
/// Not proved: that the outcome depends on the bytes alone, which is all that
/// the contract says by naming it `json_parsed(body@)`.
#[verifier::external_body]
pub(crate) fn parse_json(body: &[u8]) -> (r: Result<serde_json::Value, serde_json::Error>)
    ensures
        match r {
            Ok(doc) => json_parsed(body@) == Some(json_strings(doc)),
            Err(_) => json_parsed(body@) is None,
        },
{
    serde_json::from_slice::<serde_json::Value>(body)
}

/// Calls `serde_json::Value::get` with a name. Not proved: that it finds the
/// member of that name where `doc` is an object that has one, and that the
/// text handed back is the member's value where that value is a string, which
/// is what `json_strings` stands for.
#[verifier::external_body]
pub(crate) fn string_member(doc: &serde_json::Value, name: &str) -> (r: Option<String>)
    ensures
        r is Some == json_strings(*doc).contains_key(name@),
        r matches Some(s) ==> s@ == json_strings(*doc)[name@],
{
    match doc.get(name) {
        Some(serde_json::Value::String(s)) => Some(s.clone()),
        _ => None,
    }
}

/// Calls `String::from_utf8`. Not proved: that it accepts exactly the byte
/// sequences that are valid UTF-8, and returns the text that they encode.
#[verifier::external_body]
pub(crate) fn utf8_text(bytes: Vec<u8>) -> (r: Option<String>)
    ensures
        r is Some == valid_utf8(bytes@),
        r matches Some(s) ==> s@ == decode_utf8(bytes@),
{
    match String::from_utf8(bytes) {
        Ok(s) => Some(s),
        Err(_) => None,
    }
}

/// How the body of a response is read.
#[derive(Debug, Clone, Copy, PartialEq, Eq, Structural)]
pub enum Format {
    /// UTF-8 text, without the white space around it.
    Raw,
    /// A JSON document.
    Json,
    /// An XML document. It is handed on as it came: to read it takes document
    /// types that only the caller has.
    Xml,
}

/// The body of a response, read in the format of its request.
#[derive(Debug, PartialEq)]
pub enum Decoded {
    Text(String),
    Json(serde_json::Value),
    Xml(Vec<u8>),
}

/// A `Decoded` as contracts see it: text as characters, a JSON document as
/// its string members.
pub enum DecodedView {
    Text(Seq<char>),
    Json(Map<Seq<char>, Seq<char>>),
    Xml(Seq<u8>),
}

impl View for Decoded {
    type V = DecodedView;

    open spec fn view(&self) -> DecodedView {
        match self {
            Decoded::Text(s) => DecodedView::Text(s@),
            Decoded::Json(doc) => DecodedView::Json(json_strings(*doc)),
            Decoded::Xml(body) => DecodedView::Xml(body@),
        }
    }
}

/// What a body is in a format; `None` where it is not of that format.
pub open spec fn decoded(format: Format, body: Seq<u8>) -> Option<DecodedView> {
    match format {
        Format::Raw => if valid_utf8(body) {
            Some(DecodedView::Text(trimmed(decode_utf8(body))))
        } else {
            None
        },
        Format::Json => match json_parsed(body) {
            Some(members) => Some(DecodedView::Json(members)),
            None => None,
        },
        Format::Xml => Some(DecodedView::Xml(body)),
    }
}

/// Whether `r` is the reading `d` of a body, or the decode failure where
/// there is none.
pub open spec fn is_reading(r: Result<Decoded, FetchError>, d: Option<DecodedView>) -> bool {
    match d {
        Some(v) => r matches Ok(x) && x@ == v,
        None => r matches Err(e) && e@ == FetchErrorView::DecodeFailure,
    }
}

impl Decoded {
    /// The reading of a `Raw` body, given the text that its bytes encode, if
    /// they encode any: that text without the white space around it.
    pub fn from_text(text: Option<String>) -> (r: Result<Decoded, FetchError>)
        ensures
            match text {
                Some(s) => r matches Ok(Decoded::Text(t)) && t@ == trimmed(s@),
                None => r matches Err(e) && e@ == FetchErrorView::DecodeFailure,
            },
    {
        match text {
            Some(s) => Ok(Decoded::Text(trim(s.as_str()))),
            None => Err(FetchError::DecodeFailure),
        }
    }

    /// The reading of a `Json` body, given what the parser made of it.
    pub fn from_json(parsed: Result<serde_json::Value, serde_json::Error>) -> (r: Result<
        Decoded,
        FetchError,
    >)
        ensures
            match parsed {
                Ok(doc) => r == Ok::<Decoded, FetchError>(Decoded::Json(doc)),
                Err(_) => r matches Err(e) && e@ == FetchErrorView::DecodeFailure,
            },
    {
        match parsed {
            Ok(doc) => Ok(Decoded::Json(doc)),
            Err(_) => Err(FetchError::DecodeFailure),
        }
    }

    /// The value of the string member `name` of a JSON document; a decode
    /// failure where this is no document with such a member.
    pub fn member(&self, name: &str) -> (r: Result<String, FetchError>)
        ensures
            match member_of(self@, name@) {
                Some(v) => r matches Ok(s) && s@ == v,
                None => r matches Err(e) && e@ == FetchErrorView::DecodeFailure,
            },
    {
        match self {
            Decoded::Json(doc) => Decoded::required(string_member(doc, name)),
            _ => Err(FetchError::DecodeFailure),
        }
    }

    /// A member that the document has to have, given what was found under
    /// its name: without it the document does not fit, which is a decode
    /// failure.
    pub fn required(member: Option<String>) -> (r: Result<String, FetchError>)
        ensures
            match member {
                Some(s) => r == Ok::<String, FetchError>(s),
                None => r matches Err(e) && e@ == FetchErrorView::DecodeFailure,
            },
    {
        match member {
            Some(s) => Ok(s),
            None => Err(FetchError::DecodeFailure),
        }
    }
}

/// The value of the string member `name` of a JSON document.
pub open spec fn member_of(d: DecodedView, name: Seq<char>) -> Option<Seq<char>> {
    match d {
        DecodedView::Json(members) => if members.contains_key(name) {
            Some(members[name])
        } else {
            None
        },
        _ => None,
    }
}

impl Format {
    /// Reads `body` in this format. A body that is not of the format is a
    /// decode failure.
    pub fn decode(&self, body: Vec<u8>) -> (r: Result<Decoded, FetchError>)
        ensures
            is_reading(r, decoded(*self, body@)),
    {
        match self {
            Format::Raw => Decoded::from_text(utf8_text(body)),
            Format::Json => Decoded::from_json(parse_json(body.as_slice())),
            Format::Xml => Ok(Decoded::Xml(body)),
        }
    }
}

} // verus!
