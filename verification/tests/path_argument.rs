use htmxology::path_arg::{PathArgumentDeserializationError, PathArgumentDeserializer};

#[derive(Debug, Eq, PartialEq)]
enum MyEnum {
    Apple,
    Banana,
    Carrot,
}

fn my_enum(deserializer: PathArgumentDeserializer) -> Result<MyEnum, PathArgumentDeserializationError> {
    let name = deserializer.decode()?;
    match name.as_str() {
        "Apple" => Ok(MyEnum::Apple),
        "Banana" => Ok(MyEnum::Banana),
        "Carrot" => Ok(MyEnum::Carrot),
        _ => Err(PathArgumentDeserializationError::Unknown {
            msg: format!("unknown variant `{name}`"),
        }),
    }
}

fn float32(deserializer: PathArgumentDeserializer) -> Result<f32, PathArgumentDeserializationError> {
    let value = deserializer.decode()?;
    value.parse().map_err(|_| PathArgumentDeserializationError::ParseError {
        value: value.clone(),
        expected_type: "f32",
    })
}

fn float64(deserializer: PathArgumentDeserializer) -> Result<f64, PathArgumentDeserializationError> {
    let value = deserializer.decode()?;
    value.parse().map_err(|_| PathArgumentDeserializationError::ParseError {
        value: value.clone(),
        expected_type: "f64",
    })
}

#[test]
fn test_parse_single_value() {
    assert_eq!(PathArgumentDeserializer::new("-42").deserialize_i8().unwrap(), -42);
    assert_eq!(PathArgumentDeserializer::new("-42").deserialize_i16().unwrap(), -42);
    assert_eq!(PathArgumentDeserializer::new("-42").deserialize_i32().unwrap(), -42);
    assert_eq!(PathArgumentDeserializer::new("-42").deserialize_i64().unwrap(), -42);
    assert_eq!(PathArgumentDeserializer::new("42").deserialize_i128().unwrap(), 42);
    assert_eq!(PathArgumentDeserializer::new("42").deserialize_u8().unwrap(), 42);
    assert_eq!(PathArgumentDeserializer::new("42").deserialize_u16().unwrap(), 42);
    assert_eq!(PathArgumentDeserializer::new("42").deserialize_u32().unwrap(), 42);
    assert_eq!(PathArgumentDeserializer::new("42").deserialize_u64().unwrap(), 42);
    assert_eq!(PathArgumentDeserializer::new("42").deserialize_u128().unwrap(), 42);
    assert_eq!(float32(PathArgumentDeserializer::new("42")).unwrap(), 42.0);
    assert_eq!(float64(PathArgumentDeserializer::new("42")).unwrap(), 42.0);
    assert_eq!(PathArgumentDeserializer::new("true").deserialize_bool().unwrap(), true);
    assert_eq!(PathArgumentDeserializer::new("false").deserialize_bool().unwrap(), false);
    assert_eq!(PathArgumentDeserializer::new("foo").deserialize_string().unwrap(), "foo");
    assert_eq!(
        PathArgumentDeserializer::new("alpha%20beta").deserialize_string().unwrap(),
        "alpha beta"
    );
    assert_eq!(PathArgumentDeserializer::new("foo").deserialize_str().unwrap(), "foo");
    assert_eq!(PathArgumentDeserializer::new("X").deserialize_char().unwrap(), 'X');
    assert_eq!(my_enum(PathArgumentDeserializer::new("Apple")).unwrap(), MyEnum::Apple);
    assert_eq!(my_enum(PathArgumentDeserializer::new("Banana")).unwrap(), MyEnum::Banana);
    assert_eq!(my_enum(PathArgumentDeserializer::new("Carrot")).unwrap(), MyEnum::Carrot);

    match PathArgumentDeserializer::new("alpha%beta").deserialize_str().expect_err("expected error") {
        PathArgumentDeserializationError::PercentDecodeError(_) => {}
        err => panic!("unexpected error: {}", err.to_string()),
    }
    match PathArgumentDeserializer::new("alpha%20beta").deserialize_str().expect_err("expected error") {
        PathArgumentDeserializationError::PercentDecodingRequired { value } if value == "alpha beta" => {}
        err => panic!("unexpected error: {}", err.to_string()),
    }
    match PathArgumentDeserializer::new("300").deserialize_u8().expect_err("expected error") {
        PathArgumentDeserializationError::ParseError { value, expected_type }
            if value == "300" && expected_type == "u8" => {}
        err => panic!("unexpected error: {}", err.to_string()),
    }
    match PathArgumentDeserializer::new("foo").deserialize_u16().expect_err("expected error") {
        PathArgumentDeserializationError::ParseError { value, expected_type }
            if value == "foo" && expected_type == "u16" => {}
        err => panic!("unexpected error: {}", err.to_string()),
    }
}

#[test]
fn integer_bounds_and_signs() {
    assert_eq!(PathArgumentDeserializer::new("-128").deserialize_i8().unwrap(), i8::MIN);
    assert_eq!(PathArgumentDeserializer::new("127").deserialize_i8().unwrap(), i8::MAX);
    assert!(PathArgumentDeserializer::new("128").deserialize_i8().is_err());
    assert!(PathArgumentDeserializer::new("-129").deserialize_i8().is_err());
    assert_eq!(PathArgumentDeserializer::new("+7").deserialize_u8().unwrap(), 7);
    assert!(PathArgumentDeserializer::new("-0").deserialize_u8().is_err());
    assert_eq!(PathArgumentDeserializer::new("-0").deserialize_i32().unwrap(), 0);
    assert!(PathArgumentDeserializer::new("").deserialize_u32().is_err());
    assert!(PathArgumentDeserializer::new("+").deserialize_i32().is_err());
    assert!(PathArgumentDeserializer::new("1_000").deserialize_u32().is_err());
    assert_eq!(
        PathArgumentDeserializer::new("-170141183460469231731687303715884105728")
            .deserialize_i128()
            .unwrap(),
        i128::MIN
    );
    assert_eq!(
        PathArgumentDeserializer::new("340282366920938463463374607431768211455")
            .deserialize_u128()
            .unwrap(),
        u128::MAX
    );
    assert!(PathArgumentDeserializer::new("340282366920938463463374607431768211456")
        .deserialize_u128()
        .is_err());
    assert_eq!(
        PathArgumentDeserializer::new("-9223372036854775808").deserialize_i64().unwrap(),
        i64::MIN
    );
    assert_eq!(
        PathArgumentDeserializer::new("18446744073709551615").deserialize_u64().unwrap(),
        u64::MAX
    );
    assert_eq!(PathArgumentDeserializer::new("%34%32").deserialize_u32().unwrap(), 42);
}

#[test]
fn other_value_kinds() {
    assert!(PathArgumentDeserializer::new("True").deserialize_bool().is_err());
    assert!(PathArgumentDeserializer::new("XY").deserialize_char().is_err());
    assert_eq!(PathArgumentDeserializer::new("%C3%A9").deserialize_char().unwrap(), 'é');
    assert_eq!(PathArgumentDeserializer::new("100%").deserialize_string().unwrap(), "100%");
    assert_eq!(PathArgumentDeserializer::new("%zz").deserialize_str().unwrap(), "%zz");
}

#[test]
fn path_argument_error_messages() {
    assert_eq!(
        PathArgumentDeserializationError::PercentDecodingRequired { value: "a b".to_string() }
            .to_string(),
        "cannot parse without allocation as percent-decoding is required for value: a b"
    );
    assert_eq!(
        PathArgumentDeserializationError::UnsupportedType("Vec<u8>").to_string(),
        "unsupported type: Vec<u8>"
    );
    assert_eq!(
        PathArgumentDeserializationError::UnexpectedType("u8").to_string(),
        "unexpected type: u8"
    );
    assert_eq!(
        PathArgumentDeserializationError::ParseError { value: "x".to_string(), expected_type: "u8" }
            .to_string(),
        "failed to parse value `x` as u8"
    );
    assert_eq!(
        PathArgumentDeserializationError::Unknown { msg: "oops".to_string() }.to_string(),
        "an unknown error occurred: oops"
    );
    let err = PathArgumentDeserializer::new("%ff").decode().unwrap_err();
    assert!(err.to_string().starts_with("failed to percent-decode value: "));
    assert_eq!(
        htmxology::route::path_argument_error_message(
            "user_id",
            &PathArgumentDeserializationError::ParseError {
                value: "abc".to_string(),
                expected_type: "u32"
            }
        ),
        "error while deserializing argument `user_id`: failed to parse value `abc` as u32"
    );
}
