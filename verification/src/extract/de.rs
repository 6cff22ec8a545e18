//! Turning decoded path parameters into target shapes.
//!
//! A target is one of four shapes: a single scalar (exactly one parameter),
//! a positional pair (exactly two parameters, matched by position), a named
//! field (matched by name, order-independent), or the whole ordered map of
//! parameters. Each function reports exactly which of the error kinds in
//! [`ErrorKind`](crate::extract::path::ErrorKind) applies: a record of
//! invalid UTF-8 fails every shape, a parameter-count mismatch names the
//! counts, and a value that does not parse names the value and the type it
//! was expected to be.

use vstd::prelude::*;
use crate::extract::path::{
    ErrorKind, PathDeserializationError, WayfindUrlParams,
};
use crate::text::{parse_u64, spec_parse_dec, string_concat};

verus! {

/// The views of an owned `(name, value)` list.
pub open spec fn pair_views(ps: Seq<(String, String)>) -> Seq<(Seq<char>, Seq<char>)> {
    ps.map_values(|p: (String, String)| (p.0@, p.1@))
}

/// Looks a name up in a parameter list, yielding the first value recorded
/// under it.
pub open spec fn spec_find(ps: Seq<(Seq<char>, Seq<char>)>, key: Seq<char>) -> Option<Seq<char>>
    decreases ps.len(),
{
    if ps.len() == 0 {
        None
    } else if ps[0].0 == key {
        Some(ps[0].1)
    } else {
        spec_find(ps.skip(1), key)
    }
}

/// What parsing a decimal value into a `u64` yields.
pub open spec fn spec_parse_u64_value(v: Seq<char>) -> Option<u64> {
    match spec_parse_dec(v) {
        Some(n) => if n <= u64::MAX {
            Some(n as u64)
        } else {
            None
        },
        None => None,
    }
}

/// Deserializes into the ordered map shape: every decoded `(name, value)`
/// pair, in capture order. Only a record of invalid UTF-8 fails.
pub fn deserialize_map(params: &WayfindUrlParams) -> (r: Result<
    Vec<(String, String)>,
    PathDeserializationError,
>)
    ensures
        match params@ {
            Ok(ps) => r matches Ok(m) && pair_views(m@) == ps,
            Err(k) => r matches Err(e) && e.kind matches ErrorKind::InvalidUtf8InPathParam {
                key,
            } && key@ == k,
        },
{
    match params {
        WayfindUrlParams::InvalidUtf8InPathParam { key } => {
            Err(
                PathDeserializationError::new(
                    ErrorKind::InvalidUtf8InPathParam { key: key.clone() },
                ),
            )
        },
        WayfindUrlParams::Params(ps) => {
            let mut out: Vec<(String, String)> = Vec::new();
            let mut i: usize = 0;
            while i < ps.len()
                invariant
                    i <= ps@.len(),
                    out@.len() == i,
                    forall|j: int|
                        0 <= j < i ==> (#[trigger] out@[j]).0@ == ps@[j].0@ && out@[j].1@
                            == ps@[j].1@,
                decreases ps@.len() - i,
            {
                let name = ps[i].0.clone();
                let value = ps[i].1.as_str().to_owned();
                out.push((name, value));
                i = i + 1;
            }
            proof {
                assert(pair_views(out@) =~~= crate::extract::path::decoded_pair_views(ps@));
            }
            Ok(out)
        },
    }
}

/// Deserializes into the single-scalar shape as a string: there must be
/// exactly one parameter, whose decoded value is returned.
pub fn deserialize_single_str(params: &WayfindUrlParams) -> (r: Result<
    String,
    PathDeserializationError,
>)
    ensures
        match params@ {
            Ok(ps) => if ps.len() == 1 {
                r matches Ok(v) && v@ == ps[0].1
            } else {
                r matches Err(e) && e.kind matches ErrorKind::WrongNumberOfParameters {
                    got,
                    expected,
                } && got == ps.len() && expected == 1
            },
            Err(k) => r matches Err(e) && e.kind matches ErrorKind::InvalidUtf8InPathParam {
                key,
            } && key@ == k,
        },
{
    match params {
        WayfindUrlParams::InvalidUtf8InPathParam { key } => {
            Err(
                PathDeserializationError::new(
                    ErrorKind::InvalidUtf8InPathParam { key: key.clone() },
                ),
            )
        },
        WayfindUrlParams::Params(ps) => {
            if ps.len() != 1 {
                Err(
                    PathDeserializationError::wrong_number_of_parameters().got(ps.len()).expected(
                        1,
                    ),
                )
            } else {
                Ok(ps[0].1.as_str().to_owned())
            }
        },
    }
}

/// Deserializes into the single-scalar shape as a `u64`: there must be
/// exactly one parameter, whose decoded value must be a decimal number that
/// fits.
pub fn deserialize_single_u64(params: &WayfindUrlParams) -> (r: Result<
    u64,
    PathDeserializationError,
>)
    ensures
        match params@ {
            Ok(ps) => if ps.len() != 1 {
                r matches Err(e) && e.kind matches ErrorKind::WrongNumberOfParameters {
                    got,
                    expected,
                } && got == ps.len() && expected == 1
            } else {
                match spec_parse_u64_value(ps[0].1) {
                    Some(n) => r == Ok::<u64, PathDeserializationError>(n),
                    None => r matches Err(e) && e.kind matches ErrorKind::ParseError {
                        value,
                        expected_type,
                    } && value@ == ps[0].1 && expected_type@ == "u64"@,
                }
            },
            Err(k) => r matches Err(e) && e.kind matches ErrorKind::InvalidUtf8InPathParam {
                key,
            } && key@ == k,
        },
{
    match params {
        WayfindUrlParams::InvalidUtf8InPathParam { key } => {
            Err(
                PathDeserializationError::new(
                    ErrorKind::InvalidUtf8InPathParam { key: key.clone() },
                ),
            )
        },
        WayfindUrlParams::Params(ps) => {
            if ps.len() != 1 {
                Err(
                    PathDeserializationError::wrong_number_of_parameters().got(ps.len()).expected(
                        1,
                    ),
                )
            } else {
                match parse_u64(ps[0].1.as_str()) {
                    Some(n) => Ok(n),
                    None => Err(
                        PathDeserializationError::new(
                            ErrorKind::ParseError {
                                value: ps[0].1.as_str().to_owned(),
                                expected_type: "u64",
                            },
                        ),
                    ),
                }
            }
        },
    }
}

/// Deserializes into the positional pair shape as two `u64`s: there must be
/// exactly two parameters, and each decoded value must parse; a value that
/// does not names its position.
pub fn deserialize_pair_u64(params: &WayfindUrlParams) -> (r: Result<
    (u64, u64),
    PathDeserializationError,
>)
    ensures
        match params@ {
            Ok(ps) => if ps.len() != 2 {
                r matches Err(e) && e.kind matches ErrorKind::WrongNumberOfParameters {
                    got,
                    expected,
                } && got == ps.len() && expected == 2
            } else {
                match (spec_parse_u64_value(ps[0].1), spec_parse_u64_value(ps[1].1)) {
                    (Some(a), Some(b)) => r == Ok::<(u64, u64), PathDeserializationError>((a, b)),
                    (None, _) => r matches Err(e) && e.kind matches ErrorKind::ParseErrorAtIndex {
                        index,
                        value,
                        expected_type,
                    } && index == 0 && value@ == ps[0].1 && expected_type@ == "u64"@,
                    (Some(_), None) => r matches Err(e) && e.kind
                        matches ErrorKind::ParseErrorAtIndex {
                        index,
                        value,
                        expected_type,
                    } && index == 1 && value@ == ps[1].1 && expected_type@ == "u64"@,
                }
            },
            Err(k) => r matches Err(e) && e.kind matches ErrorKind::InvalidUtf8InPathParam {
                key,
            } && key@ == k,
        },
{
    match params {
        WayfindUrlParams::InvalidUtf8InPathParam { key } => {
            Err(
                PathDeserializationError::new(
                    ErrorKind::InvalidUtf8InPathParam { key: key.clone() },
                ),
            )
        },
        WayfindUrlParams::Params(ps) => {
            if ps.len() != 2 {
                Err(
                    PathDeserializationError::wrong_number_of_parameters().got(ps.len()).expected(
                        2,
                    ),
                )
            } else {
                let a = match parse_u64(ps[0].1.as_str()) {
                    Some(a) => a,
                    None => {
                        return Err(
                            PathDeserializationError::new(
                                ErrorKind::ParseErrorAtIndex {
                                    index: 0,
                                    value: ps[0].1.as_str().to_owned(),
                                    expected_type: "u64",
                                },
                            ),
                        );
                    },
                };
                match parse_u64(ps[1].1.as_str()) {
                    Some(b) => Ok((a, b)),
                    None => Err(
                        PathDeserializationError::new(
                            ErrorKind::ParseErrorAtIndex {
                                index: 1,
                                value: ps[1].1.as_str().to_owned(),
                                expected_type: "u64",
                            },
                        ),
                    ),
                }
            }
        },
    }
}

/// Finds a named field's decoded value among the parameters,
/// order-independently. A missing field is the catch-all message error.
#[verifier::loop_isolation(false)]
pub fn deserialize_field_str(params: &WayfindUrlParams, name: &str) -> (r: Result<
    String,
    PathDeserializationError,
>)
    ensures
        match params@ {
            Ok(ps) => match spec_find(ps, name@) {
                Some(v) => r matches Ok(s) && s@ == v,
                None => r matches Err(e) && e.kind matches ErrorKind::Message(m) && m@
                    == "missing field `"@ + name@ + "`"@,
            },
            Err(k) => r matches Err(e) && e.kind matches ErrorKind::InvalidUtf8InPathParam {
                key,
            } && key@ == k,
        },
{
    match params {
        WayfindUrlParams::InvalidUtf8InPathParam { key } => {
            Err(
                PathDeserializationError::new(
                    ErrorKind::InvalidUtf8InPathParam { key: key.clone() },
                ),
            )
        },
        WayfindUrlParams::Params(ps) => {
            let ghost views = crate::extract::path::decoded_pair_views(ps@);
            let name_owned = name.to_owned();
            let mut i: usize = 0;
            proof {
                assert(views.skip(0) =~~= views);
            }
            while i < ps.len()
                invariant
                    i <= ps@.len(),
                    views == crate::extract::path::decoded_pair_views(ps@),
                    name_owned@ == name@,
                    spec_find(views, name@) == spec_find(views.skip(i as int), name@),
                decreases ps@.len() - i,
            {
                proof {
                    assert(views.skip(i as int)[0] == views[i as int]);
                    assert(views.skip(i as int).skip(1) =~~= views.skip(i + 1));
                }
                if ps[i].0 == name_owned {
                    proof {
                        assert(views[i as int] == (ps@[i as int].0@, ps@[i as int].1@));
                        assert(spec_find(views.skip(i as int), name@) == Some(views[i as int].1));
                    }
                    return Ok(ps[i].1.as_str().to_owned());
                }
                proof {
                    assert(views[i as int] == (ps@[i as int].0@, ps@[i as int].1@));
                }
                i = i + 1;
            }
            proof {
                assert(views.skip(views.len() as int) =~~= Seq::<(Seq<char>, Seq<char>)>::empty());
            }
            let msg = string_concat("missing field `", name);
            Err(
                PathDeserializationError::new(
                    ErrorKind::Message(string_concat(msg.as_str(), "`")),
                ),
            )
        },
    }
}

/// Finds a named field's decoded value and parses it as a `u64`. A value
/// that does not parse names the field.
pub fn deserialize_field_u64(params: &WayfindUrlParams, name: &str) -> (r: Result<
    u64,
    PathDeserializationError,
>)
    ensures
        match params@ {
            Ok(ps) => match spec_find(ps, name@) {
                Some(v) => match spec_parse_u64_value(v) {
                    Some(n) => r == Ok::<u64, PathDeserializationError>(n),
                    None => r matches Err(e) && e.kind matches ErrorKind::ParseErrorAtKey {
                        key,
                        value,
                        expected_type,
                    } && key@ == name@ && value@ == v && expected_type@ == "u64"@,
                },
                None => r matches Err(e) && e.kind matches ErrorKind::Message(m) && m@
                    == "missing field `"@ + name@ + "`"@,
            },
            Err(k) => r matches Err(e) && e.kind matches ErrorKind::InvalidUtf8InPathParam {
                key,
            } && key@ == k,
        },
{
    let raw = match deserialize_field_str(params, name) {
        Ok(v) => v,
        Err(e) => {
            return Err(e);
        },
    };
    match parse_u64(raw.as_str()) {
        Some(n) => Ok(n),
        None => Err(
            PathDeserializationError::new(
                ErrorKind::ParseErrorAtKey {
                    key: name.to_owned(),
                    value: raw,
                    expected_type: "u64",
                },
            ),
        ),
    }
}

} // verus!
