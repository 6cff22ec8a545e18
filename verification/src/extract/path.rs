//! Decoded path parameters and their error taxonomy.
//!
//! A capture's raw value is a slice of the request path and may contain
//! percent-escapes. [`PercentDecodedStr`] holds the decoded form;
//! [`WayfindUrlParams`] is the per-request record of all decoded captures,
//! or of the first capture whose bytes were not valid UTF-8 after decoding.

use vstd::prelude::*;
use vstd::string::StringSliceAdditionalSpecFns;
use vstd::utf8::{decode_utf8, encode_utf8, encode_utf8_decode_utf8, valid_utf8};
use crate::text::{spec_dec_digits, string_concat, u64_to_string};

verus! {

/// An ASCII hexadecimal digit, as a byte.
pub open spec fn spec_is_hex_digit(b: u8) -> bool {
    (48 <= b <= 57) || (65 <= b <= 70) || (97 <= b <= 102)
}

/// The value of an ASCII hexadecimal digit.
pub open spec fn spec_hex_val(b: u8) -> int {
    if 48 <= b <= 57 {
        b - 48
    } else if 65 <= b <= 70 {
        b - 55
    } else {
        b - 87
    }
}

/// Percent-decoding of a byte sequence: a `%` followed by two hexadecimal
/// digits becomes the byte they name; every other byte (including a `%`
/// not followed by two hexadecimal digits) is copied unchanged.
pub open spec fn spec_percent_decode(s: Seq<u8>) -> Seq<u8>
    decreases s.len(),
{
    if s.len() == 0 {
        Seq::<u8>::empty()
    } else if s[0] == 37 && s.len() >= 3 && spec_is_hex_digit(s[1]) && spec_is_hex_digit(s[2]) {
        seq![(spec_hex_val(s[1]) * 16 + spec_hex_val(s[2])) as u8] + spec_percent_decode(s.skip(3))
    } else {
        seq![s[0]] + spec_percent_decode(s.skip(1))
    }
}

/// Decoding a raw capture value: percent-decode its UTF-8 bytes, then accept
/// the result only if it is itself valid UTF-8.
pub open spec fn spec_decode_value(s: Seq<char>) -> Option<Seq<char>> {
    let b = spec_percent_decode(encode_utf8(s));
    if valid_utf8(b) {
        Some(decode_utf8(b))
    } else {
        None
    }
}

/// Relies on `percent_encoding::percent_decode`: each `%` followed by two
/// hexadecimal digits is replaced by the byte they name, and everything
/// else is copied through unchanged.
#[verifier::external_body]
fn percent_decode_bytes(input: &[u8]) -> (r: Vec<u8>)
    ensures
        r@ == spec_percent_decode(input@),
{
    percent_encoding::percent_decode(input).collect()
}

/// Relies on `String::from_utf8` from std: it succeeds exactly when the
/// bytes are valid UTF-8, and the resulting string is their decoding.
#[verifier::external_body]
fn utf8_to_string(bytes: Vec<u8>) -> (r: Option<String>)
    ensures
        match r {
            Some(s) => valid_utf8(bytes@) && encode_utf8(s@) == bytes@,
            None => !valid_utf8(bytes@),
        },
{
    String::from_utf8(bytes).ok()
}

/// A string percent-decoded from a raw URL path parameter.
#[derive(Clone, Debug)]
pub struct PercentDecodedStr(String);

impl View for PercentDecodedStr {
    type V = Seq<char>;

    closed spec fn view(&self) -> Seq<char> {
        self.0@
    }
}

impl PercentDecodedStr {
    /// Percent-decodes the given string; reports failure when the decoded
    /// bytes are not valid UTF-8.
    pub fn new(s: &str) -> (r: Option<PercentDecodedStr>)
        ensures
            match r {
                Some(d) => spec_decode_value(s@) == Some(d@),
                None => spec_decode_value(s@) is None,
            },
    {
        let bytes = s.as_bytes();
        let decoded = percent_decode_bytes(bytes);
        match utf8_to_string(decoded) {
            Some(st) => {
                proof {
                    encode_utf8_decode_utf8(st@);
                }
                Some(PercentDecodedStr(st))
            },
            None => None,
        }
    }

    /// Returns the decoded string as a `&str`.
    pub fn as_str(&self) -> (r: &str)
        ensures
            r@ == self@,
    {
        self.0.as_str()
    }
}

/// The views of a raw `(name, value)` parameter list.
pub open spec fn raw_pair_views(ps: Seq<(String, String)>) -> Seq<(Seq<char>, Seq<char>)> {
    ps.map_values(|p: (String, String)| (p.0@, p.1@))
}

/// The views of a decoded `(name, value)` parameter list.
pub open spec fn decoded_pair_views(ps: Seq<(String, PercentDecodedStr)>) -> Seq<
    (Seq<char>, Seq<char>),
> {
    ps.map_values(|p: (String, PercentDecodedStr)| (p.0@, p.1@))
}

/// Decoding a whole parameter list in capture order: the decoded pairs, or
/// the name of the first capture whose value fails to decode.
pub open spec fn spec_params_outcome(raw: Seq<(Seq<char>, Seq<char>)>) -> Result<
    Seq<(Seq<char>, Seq<char>)>,
    Seq<char>,
>
    decreases raw.len(),
{
    if raw.len() == 0 {
        Ok(Seq::<(Seq<char>, Seq<char>)>::empty())
    } else {
        match spec_decode_value(raw[0].1) {
            None => Err(raw[0].0),
            Some(d) => match spec_params_outcome(raw.skip(1)) {
                Ok(rest) => Ok(seq![(raw[0].0, d)] + rest),
                Err(e) => Err(e),
            },
        }
    }
}

/// The URL parameters extracted from a match, attached to the request during
/// dispatch.
#[derive(Clone, Debug)]
pub enum WayfindUrlParams {
    /// Successfully decoded parameters, in capture order.
    Params(Vec<(String, PercentDecodedStr)>),
    /// A parameter contained bytes that are not valid UTF-8 after
    /// percent-decoding.
    InvalidUtf8InPathParam {
        /// The parameter name whose value contained invalid UTF-8.
        key: String,
    },
}

impl View for WayfindUrlParams {
    type V = Result<Seq<(Seq<char>, Seq<char>)>, Seq<char>>;

    open spec fn view(&self) -> Self::V {
        match self {
            WayfindUrlParams::Params(ps) => Ok(decoded_pair_views(ps@)),
            WayfindUrlParams::InvalidUtf8InPathParam { key } => Err(key@),
        }
    }
}

impl WayfindUrlParams {
    /// Builds the parameter record from the raw `(name, value)` pairs of a
    /// match, percent-decoding each value in capture order and stopping at
    /// the first value that fails to decode.
    pub fn from_match(parameters: &Vec<(String, String)>) -> (r: WayfindUrlParams)
        ensures
            r@ == spec_params_outcome(raw_pair_views(parameters@)),
    {
        let ghost raw = raw_pair_views(parameters@);
        let mut out: Vec<(String, PercentDecodedStr)> = Vec::new();
        let mut i: usize = 0;
        proof {
            assert(raw.skip(0) =~~= raw);
        }
        while i < parameters.len()
            invariant
                i <= parameters@.len(),
                raw == raw_pair_views(parameters@),
                spec_params_outcome(raw) == match spec_params_outcome(raw.skip(i as int)) {
                    Ok(rest) => Ok(decoded_pair_views(out@) + rest),
                    Err(e) => Err::<Seq<(Seq<char>, Seq<char>)>, Seq<char>>(e),
                },
            decreases parameters@.len() - i,
        {
            let ghost suffix = raw.skip(i as int);
            proof {
                assert(suffix[0] == raw[i as int]);
                assert(suffix.skip(1) =~~= raw.skip(i + 1));
            }
            let key = parameters[i].0.clone();
            match PercentDecodedStr::new(parameters[i].1.as_str()) {
                Some(d) => {
                    let ghost out0 = out@;
                    let ghost dv = d@;
                    out.push((key, d));
                    i = i + 1;
                    proof {
                        match spec_params_outcome(raw.skip(i as int)) {
                            Ok(rest) => {
                                assert(decoded_pair_views(out@) =~~= decoded_pair_views(
                                    out0,
                                ).push((raw[i - 1].0, dv)));
                                assert(decoded_pair_views(out0).push((raw[i - 1].0, dv)) + rest
                                    =~~= decoded_pair_views(out0) + (seq![(raw[i - 1].0, dv)]
                                    + rest));
                            },
                            Err(_) => {},
                        }
                    }
                },
                None => {
                    return WayfindUrlParams::InvalidUtf8InPathParam { key };
                },
            }
        }
        proof {
            assert(raw.skip(raw.len() as int) =~~= Seq::<(Seq<char>, Seq<char>)>::empty());
            assert(decoded_pair_views(out@) + Seq::<(Seq<char>, Seq<char>)>::empty()
                =~~= decoded_pair_views(out@));
        }
        WayfindUrlParams::Params(out)
    }
}

/// Extractor wrapper for a value deserialized from the path parameters.
#[derive(Debug)]
pub struct Path<T>(pub T);

/// An error that arose while turning decoded path parameters into a target
/// shape.
#[derive(Debug)]
pub struct PathDeserializationError {
    /// What went wrong.
    pub kind: ErrorKind,
}

impl PathDeserializationError {
    /// Wraps an error kind.
    pub fn new(kind: ErrorKind) -> (r: Self)
        ensures
            r.kind == kind,
    {
        PathDeserializationError { kind }
    }

    /// Starts building a parameter-count error.
    pub fn wrong_number_of_parameters() -> (r: WrongNumberOfParameters<()>)
        ensures
            r.spec_got() == (),
    {
        WrongNumberOfParameters { got: () }
    }

    /// An error for a target shape this deserializer does not support.
    pub fn unsupported_type(name: &'static str) -> (r: Self)
        ensures
            r.kind matches ErrorKind::UnsupportedType { name: n } && n@ == name@,
    {
        PathDeserializationError { kind: ErrorKind::UnsupportedType { name } }
    }
}

/// Builder for the parameter-count error: records how many parameters were
/// found, then how many were expected.
pub struct WrongNumberOfParameters<G> {
    got: G,
}

impl<G> WrongNumberOfParameters<G> {
    /// The recorded count.
    pub closed spec fn spec_got(&self) -> G {
        self.got
    }

    /// Records how many parameters the request supplied.
    pub fn got<G2>(self, got: G2) -> (r: WrongNumberOfParameters<G2>)
        ensures
            r.spec_got() == got,
    {
        WrongNumberOfParameters { got }
    }
}

impl WrongNumberOfParameters<usize> {
    /// Records how many parameters the target shape expects, completing the
    /// error.
    pub fn expected(self, expected: usize) -> (r: PathDeserializationError)
        ensures
            r.kind matches ErrorKind::WrongNumberOfParameters { got: g, expected: e } && g
                == self.spec_got() && e == expected,
    {
        PathDeserializationError {
            kind: ErrorKind::WrongNumberOfParameters { got: self.got, expected },
        }
    }
}

/// The kinds of errors that can happen when deserializing path parameters.
#[derive(Debug, PartialEq, Eq)]
pub enum ErrorKind {
    /// The URI contained the wrong number of parameters.
    WrongNumberOfParameters {
        /// The number of actual parameters in the URI.
        got: usize,
        /// The number of expected parameters.
        expected: usize,
    },
    /// Failed to parse the value at a specific key into the expected type.
    ParseErrorAtKey {
        /// The key at which the value was located.
        key: String,
        /// The value from the URI.
        value: String,
        /// The expected type of the value.
        expected_type: &'static str,
    },
    /// Failed to parse the value at a specific index into the expected type.
    ParseErrorAtIndex {
        /// The index at which the value was located.
        index: usize,
        /// The value from the URI.
        value: String,
        /// The expected type of the value.
        expected_type: &'static str,
    },
    /// Failed to parse a value into the expected type.
    ParseError {
        /// The value from the URI.
        value: String,
        /// The expected type of the value.
        expected_type: &'static str,
    },
    /// A parameter contained text that, once percent decoded, wasn't valid
    /// UTF-8.
    InvalidUtf8InPathParam {
        /// The key at which the invalid value was located.
        key: String,
    },
    /// Tried to deserialize into an unsupported type such as nested maps.
    UnsupportedType {
        /// The name of the unsupported type.
        name: &'static str,
    },
    /// Failed to deserialize the value with a custom deserialization error.
    DeserializeError {
        /// The key at which the invalid value was located.
        key: String,
        /// The value that failed to deserialize.
        value: String,
        /// The deserialization failure message.
        message: String,
    },
    /// Catch-all variant for errors that don't fit any other variant.
    Message(String),
}

/// The human-readable text of an error kind.
pub open spec fn spec_kind_message(kind: ErrorKind) -> Seq<char> {
    match kind {
        ErrorKind::Message(m) => m@,
        ErrorKind::InvalidUtf8InPathParam { key } => "Invalid UTF-8 in `"@ + key@ + "`"@,
        ErrorKind::WrongNumberOfParameters { got, expected } => {
            let base = "Wrong number of path arguments for `Path`. Expected "@ + spec_dec_digits(
                expected as int,
            ) + " but got "@ + spec_dec_digits(got as int);
            if expected == 1 {
                base
                    + ". Note that multiple parameters must be extracted with a tuple `Path<(_, _)>` or a struct `Path<YourParams>`"@
            } else {
                base
            }
        },
        ErrorKind::UnsupportedType { name } => "Unsupported type `"@ + name@ + "`"@,
        ErrorKind::ParseErrorAtKey { key, value, expected_type } => "Cannot parse `"@ + key@
            + "` with value `"@ + value@ + "` to a `"@ + expected_type@ + "`"@,
        ErrorKind::ParseError { value, expected_type } => "Cannot parse `"@ + value@ + "` to a `"@
            + expected_type@ + "`"@,
        ErrorKind::ParseErrorAtIndex { index, value, expected_type } => {
            "Cannot parse value at index "@ + spec_dec_digits(index as int) + " with value `"@
                + value@ + "` to a `"@ + expected_type@ + "`"@
        },
        ErrorKind::DeserializeError { key, value, message } => "Cannot parse `"@ + key@
            + "` with value `"@ + value@ + "`: "@ + message@,
    }
}

/// Whether an error kind reports a malformed request (a client error), as
/// opposed to a disagreement between the route declaration and the
/// extraction target (a server error).
pub open spec fn spec_kind_is_client_error(kind: ErrorKind) -> bool {
    match kind {
        ErrorKind::WrongNumberOfParameters { .. } => false,
        ErrorKind::UnsupportedType { .. } => false,
        _ => true,
    }
}

impl ErrorKind {
    /// Renders this error kind as text.
    pub fn message(&self) -> (r: String)
        ensures
            r@ == spec_kind_message(*self),
    {
        match self {
            ErrorKind::Message(m) => m.clone(),
            ErrorKind::InvalidUtf8InPathParam { key } => {
                let s = string_concat("Invalid UTF-8 in `", key.as_str());
                string_concat(s.as_str(), "`")
            },
            ErrorKind::WrongNumberOfParameters { got, expected } => {
                let e = u64_to_string(*expected as u64);
                let g = u64_to_string(*got as u64);
                let mut s = string_concat(
                    "Wrong number of path arguments for `Path`. Expected ",
                    e.as_str(),
                );
                s = string_concat(s.as_str(), " but got ");
                s = string_concat(s.as_str(), g.as_str());
                if *expected == 1 {
                    s = string_concat(
                        s.as_str(),
                        ". Note that multiple parameters must be extracted with a tuple `Path<(_, _)>` or a struct `Path<YourParams>`",
                    );
                }
                s
            },
            ErrorKind::UnsupportedType { name } => {
                let s = string_concat("Unsupported type `", name);
                string_concat(s.as_str(), "`")
            },
            ErrorKind::ParseErrorAtKey { key, value, expected_type } => {
                let mut s = string_concat("Cannot parse `", key.as_str());
                s = string_concat(s.as_str(), "` with value `");
                s = string_concat(s.as_str(), value.as_str());
                s = string_concat(s.as_str(), "` to a `");
                s = string_concat(s.as_str(), expected_type);
                string_concat(s.as_str(), "`")
            },
            ErrorKind::ParseError { value, expected_type } => {
                let mut s = string_concat("Cannot parse `", value.as_str());
                s = string_concat(s.as_str(), "` to a `");
                s = string_concat(s.as_str(), expected_type);
                string_concat(s.as_str(), "`")
            },
            ErrorKind::ParseErrorAtIndex { index, value, expected_type } => {
                let ix = u64_to_string(*index as u64);
                let mut s = string_concat("Cannot parse value at index ", ix.as_str());
                s = string_concat(s.as_str(), " with value `");
                s = string_concat(s.as_str(), value.as_str());
                s = string_concat(s.as_str(), "` to a `");
                s = string_concat(s.as_str(), expected_type);
                string_concat(s.as_str(), "`")
            },
            ErrorKind::DeserializeError { key, value, message } => {
                let mut s = string_concat("Cannot parse `", key.as_str());
                s = string_concat(s.as_str(), "` with value `");
                s = string_concat(s.as_str(), value.as_str());
                s = string_concat(s.as_str(), "`: ");
                string_concat(s.as_str(), message.as_str())
            },
        }
    }
}

/// Rejection for path-parameter extraction: the captured route parameters
/// could not be deserialized into the target shape.
#[derive(Debug)]
pub struct FailedToDeserializePathParams(PathDeserializationError);

impl FailedToDeserializePathParams {
    /// The wrapped error kind.
    pub closed spec fn spec_kind(&self) -> ErrorKind {
        self.0.kind
    }

    /// Wraps a deserialization error.
    pub fn from_err(err: PathDeserializationError) -> (r: Self)
        ensures
            r.spec_kind() == err.kind,
    {
        FailedToDeserializePathParams(err)
    }

    /// Get a reference to the underlying error kind.
    pub fn kind(&self) -> (r: &ErrorKind)
        ensures
            *r == self.spec_kind(),
    {
        &self.0.kind
    }

    /// Convert this error into the underlying error kind.
    pub fn into_kind(self) -> (r: ErrorKind)
        ensures
            r == self.spec_kind(),
    {
        self.0.kind
    }

    /// Get the response body text used for this rejection.
    pub fn body_text(&self) -> (r: String)
        ensures
            r@ == if spec_kind_is_client_error(self.spec_kind()) {
                "Invalid URL: "@ + spec_kind_message(self.spec_kind())
            } else {
                spec_kind_message(self.spec_kind())
            },
    {
        let message = self.0.kind.message();
        match &self.0.kind {
            ErrorKind::WrongNumberOfParameters { .. } | ErrorKind::UnsupportedType { .. } => {
                message
            },
            _ => string_concat("Invalid URL: ", message.as_str()),
        }
    }

    /// Get the response status used for this rejection: a client error for a
    /// malformed request, a server error for a mismatch between the route
    /// declaration and the extraction target.
    pub fn status(&self) -> (r: u16)
        ensures
            r == if spec_kind_is_client_error(self.spec_kind()) {
                400u16
            } else {
                500u16
            },
    {
        match &self.0.kind {
            ErrorKind::WrongNumberOfParameters { .. } | ErrorKind::UnsupportedType { .. } => 500,
            _ => 400,
        }
    }
}

/// Rejection for the path extractor as a whole.
#[derive(Debug)]
pub enum PathRejection {
    /// Failed to deserialize the path parameters.
    FailedToDeserializePathParams(FailedToDeserializePathParams),
    /// No path parameters were found in the request extensions.
    MissingPathParams,
}

impl PathRejection {
    /// The response body for this rejection.
    pub fn body_text(&self) -> (r: String)
        ensures
            match self {
                PathRejection::FailedToDeserializePathParams(inner) => r@ == if spec_kind_is_client_error(
                    inner.spec_kind(),
                ) {
                    "Invalid URL: "@ + spec_kind_message(inner.spec_kind())
                } else {
                    spec_kind_message(inner.spec_kind())
                },
                PathRejection::MissingPathParams => r@ == "No path parameters found"@,
            },
    {
        match self {
            PathRejection::FailedToDeserializePathParams(inner) => inner.body_text(),
            PathRejection::MissingPathParams => "No path parameters found".to_owned(),
        }
    }

    /// The response status for this rejection.
    pub fn status(&self) -> (r: u16)
        ensures
            match self {
                PathRejection::FailedToDeserializePathParams(inner) => r == if spec_kind_is_client_error(
                    inner.spec_kind(),
                ) {
                    400u16
                } else {
                    500u16
                },
                PathRejection::MissingPathParams => r == 500u16,
            },
    {
        match self {
            PathRejection::FailedToDeserializePathParams(inner) => inner.status(),
            PathRejection::MissingPathParams => 500,
        }
    }
}

} // verus!
