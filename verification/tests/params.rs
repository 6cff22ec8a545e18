use axum_wayfind::extract::de::{
    deserialize_field_str, deserialize_field_u64, deserialize_map, deserialize_pair_u64,
    deserialize_single_str, deserialize_single_u64,
};
use axum_wayfind::extract::matched_path::MatchedPathRejection;
use axum_wayfind::extract::path::{
    ErrorKind, FailedToDeserializePathParams, PathDeserializationError, PathRejection,
    PercentDecodedStr, WayfindUrlParams,
};

fn params(pairs: &[(&str, &str)]) -> WayfindUrlParams {
    let raw: Vec<(String, String)> = pairs
        .iter()
        .map(|(k, v)| (k.to_string(), v.to_string()))
        .collect();
    WayfindUrlParams::from_match(&raw)
}

#[test]
fn percent_decoding_a_space() {
    let decoded = PercentDecodedStr::new("hello%20world").unwrap();
    assert_eq!(decoded.as_str(), "hello world");
}

#[test]
fn percent_decoding_leaves_plain_text_alone() {
    let decoded = PercentDecodedStr::new("plain-text").unwrap();
    assert_eq!(decoded.as_str(), "plain-text");
}

#[test]
fn percent_decoding_rejects_invalid_utf8() {
    assert!(PercentDecodedStr::new("%FF").is_none());
}

#[test]
fn percent_decoding_keeps_stray_percent() {
    let decoded = PercentDecodedStr::new("50%!").unwrap();
    assert_eq!(decoded.as_str(), "50%!");
}

#[test]
fn percent_decoding_multibyte() {
    let decoded = PercentDecodedStr::new("caf%C3%A9").unwrap();
    assert_eq!(decoded.as_str(), "café");
}

#[test]
fn params_decode_in_capture_order() {
    match params(&[("a", "1"), ("b", "x%20y")]) {
        WayfindUrlParams::Params(ps) => {
            assert_eq!(ps.len(), 2);
            assert_eq!(ps[0].0, "a");
            assert_eq!(ps[0].1.as_str(), "1");
            assert_eq!(ps[1].0, "b");
            assert_eq!(ps[1].1.as_str(), "x y");
        }
        WayfindUrlParams::InvalidUtf8InPathParam { .. } => panic!("expected decoded params"),
    }
}

#[test]
fn params_report_first_invalid_utf8_key() {
    match params(&[("good", "1"), ("bad", "%FF"), ("worse", "%FE")]) {
        WayfindUrlParams::InvalidUtf8InPathParam { key } => assert_eq!(key, "bad"),
        WayfindUrlParams::Params(_) => panic!("expected a decode failure"),
    }
}

#[test]
fn single_scalar_string() {
    let p = params(&[("key", "hello%20world")]);
    assert_eq!(deserialize_single_str(&p).unwrap(), "hello world");
}

#[test]
fn single_scalar_number() {
    let p = params(&[("id", "42")]);
    assert_eq!(deserialize_single_u64(&p).unwrap(), 42);
}

#[test]
fn single_scalar_parse_failure() {
    let p = params(&[("id", "abc")]);
    let err = deserialize_single_u64(&p).unwrap_err();
    assert_eq!(
        err.kind,
        ErrorKind::ParseError { value: "abc".to_owned(), expected_type: "u64" }
    );
}

#[test]
fn two_params_into_a_scalar_is_an_arity_error() {
    let p = params(&[("id", "1"), ("post_id", "2")]);
    let err = deserialize_single_u64(&p).unwrap_err();
    assert_eq!(err.kind, ErrorKind::WrongNumberOfParameters { got: 2, expected: 1 });
    let rejection = FailedToDeserializePathParams::from_err(err);
    assert_eq!(rejection.status(), 500);
}

#[test]
fn pair_of_numbers() {
    let p = params(&[("user_id", "1"), ("post_id", "99")]);
    assert_eq!(deserialize_pair_u64(&p).unwrap(), (1, 99));
}

#[test]
fn pair_parse_failure_names_the_index() {
    let p = params(&[("user_id", "1"), ("post_id", "zzz")]);
    let err = deserialize_pair_u64(&p).unwrap_err();
    assert_eq!(
        err.kind,
        ErrorKind::ParseErrorAtIndex { index: 1, value: "zzz".to_owned(), expected_type: "u64" }
    );
}

#[test]
fn fields_are_found_by_name_in_any_order() {
    let p = params(&[("user_id", "5"), ("team_id", "alpha")]);
    assert_eq!(deserialize_field_str(&p, "team_id").unwrap(), "alpha");
    assert_eq!(deserialize_field_u64(&p, "user_id").unwrap(), 5);
}

#[test]
fn missing_field_is_reported() {
    let p = params(&[("user_id", "5")]);
    let err = deserialize_field_str(&p, "team_id").unwrap_err();
    assert_eq!(err.kind, ErrorKind::Message("missing field `team_id`".to_owned()));
}

#[test]
fn field_parse_failure_names_the_key() {
    let p = params(&[("user_id", "five")]);
    let err = deserialize_field_u64(&p, "user_id").unwrap_err();
    assert_eq!(
        err.kind,
        ErrorKind::ParseErrorAtKey {
            key: "user_id".to_owned(),
            value: "five".to_owned(),
            expected_type: "u64",
        }
    );
}

#[test]
fn map_shape_accepts_any_count() {
    let p = params(&[("a", "1"), ("b", "2"), ("c", "3")]);
    let m = deserialize_map(&p).unwrap();
    assert_eq!(
        m,
        vec![
            ("a".to_owned(), "1".to_owned()),
            ("b".to_owned(), "2".to_owned()),
            ("c".to_owned(), "3".to_owned()),
        ]
    );
}

#[test]
fn invalid_utf8_fails_every_shape() {
    let p = params(&[("key", "%FF")]);
    let err = deserialize_map(&p).unwrap_err();
    assert_eq!(err.kind, ErrorKind::InvalidUtf8InPathParam { key: "key".to_owned() });
    let rejection = FailedToDeserializePathParams::from_err(err);
    assert_eq!(rejection.status(), 400);
    assert_eq!(rejection.body_text(), "Invalid URL: Invalid UTF-8 in `key`");
}

#[test]
fn arity_error_text_suggests_a_tuple_or_struct() {
    let err = PathDeserializationError::wrong_number_of_parameters().got(2usize).expected(1);
    let rejection = FailedToDeserializePathParams::from_err(err);
    assert_eq!(
        rejection.body_text(),
        "Wrong number of path arguments for `Path`. Expected 1 but got 2. \
         Note that multiple parameters must be extracted with a tuple `Path<(_, _)>` \
         or a struct `Path<YourParams>`"
    );
}

#[test]
fn parse_error_text_names_value_and_type() {
    let err = PathDeserializationError::new(ErrorKind::ParseError {
        value: "abc".to_owned(),
        expected_type: "u64",
    });
    let rejection = FailedToDeserializePathParams::from_err(err);
    assert_eq!(rejection.status(), 400);
    assert_eq!(rejection.body_text(), "Invalid URL: Cannot parse `abc` to a `u64`");
}

#[test]
fn unsupported_type_is_a_server_error() {
    let err = PathDeserializationError::unsupported_type("NestedMap");
    let rejection = FailedToDeserializePathParams::from_err(err);
    assert_eq!(rejection.status(), 500);
    assert_eq!(rejection.body_text(), "Unsupported type `NestedMap`");
}

#[test]
fn largest_number_parses_and_one_more_does_not() {
    let p = params(&[("id", "18446744073709551615")]);
    assert_eq!(deserialize_single_u64(&p).unwrap(), u64::MAX);
    let p = params(&[("id", "18446744073709551616")]);
    let err = deserialize_single_u64(&p).unwrap_err();
    assert_eq!(
        err.kind,
        ErrorKind::ParseError {
            value: "18446744073709551616".to_owned(),
            expected_type: "u64",
        }
    );
}

#[test]
fn custom_deserialize_error_text() {
    let err = PathDeserializationError::new(ErrorKind::DeserializeError {
        key: "color".to_owned(),
        value: "green".to_owned(),
        message: "unknown variant".to_owned(),
    });
    let rejection = FailedToDeserializePathParams::from_err(err);
    assert_eq!(rejection.status(), 400);
    assert_eq!(
        rejection.body_text(),
        "Invalid URL: Cannot parse `color` with value `green`: unknown variant"
    );
}

#[test]
fn indexed_parse_error_text() {
    let err = PathDeserializationError::new(ErrorKind::ParseErrorAtIndex {
        index: 1,
        value: "zzz".to_owned(),
        expected_type: "u64",
    });
    let rejection = FailedToDeserializePathParams::from_err(err);
    assert_eq!(
        rejection.body_text(),
        "Invalid URL: Cannot parse value at index 1 with value `zzz` to a `u64`"
    );
}

#[test]
fn keyed_parse_error_text() {
    let err = PathDeserializationError::new(ErrorKind::ParseErrorAtKey {
        key: "user_id".to_owned(),
        value: "five".to_owned(),
        expected_type: "u64",
    });
    let rejection = FailedToDeserializePathParams::from_err(err);
    assert_eq!(
        rejection.body_text(),
        "Invalid URL: Cannot parse `user_id` with value `five` to a `u64`"
    );
}

#[test]
fn kind_accessors_agree() {
    let err = PathDeserializationError::new(ErrorKind::Message("m".to_owned()));
    let rejection = FailedToDeserializePathParams::from_err(err);
    assert_eq!(rejection.kind(), &ErrorKind::Message("m".to_owned()));
    assert_eq!(rejection.into_kind(), ErrorKind::Message("m".to_owned()));
}

#[test]
fn missing_params_rejection() {
    let rejection = PathRejection::MissingPathParams;
    assert_eq!(rejection.status(), 500);
    assert_eq!(rejection.body_text(), "No path parameters found");
}

#[test]
fn missing_matched_path_rejection() {
    let rejection = MatchedPathRejection;
    assert_eq!(rejection.status(), 500);
    assert_eq!(rejection.body_text(), "Matched path is not available");
}
