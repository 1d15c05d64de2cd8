use json_schema::context::WalkContext;
use json_schema::error::ErrorKind;
use json_schema::keywords::multiple_of::MultipleOf;
use json_schema::keywords::Keyword;
use json_schema::number::Number;
use json_schema::scope::Scope;
use json_schema::validators::Validator;
use json_schema::value::{Member, Value};

fn number(negative: bool, mantissa: u64, exponent: i16) -> Value {
    Value::Number(Number::new(negative, mantissa, exponent))
}

fn object(key: &str, value: Value) -> Value {
    Value::Object(vec![Member { key: key.to_string(), value }])
}

#[test]
fn validate() {
    let mut scope = Scope::new();
    let schema = scope.compile_and_return(object("multipleOf", number(false, 35, -1))).ok().unwrap();

    assert_eq!(schema.validate(&Value::String("".to_string()), &scope).is_valid(), true);
    assert_eq!(schema.validate(&number(false, 7, 0), &scope).is_valid(), true);
    assert_eq!(schema.validate(&number(false, 6, 0), &scope).is_valid(), false);
}

#[test]
fn should_not_compile_with_string() {
    let mut scope = Scope::new();
    assert!(scope.compile_and_return(object("multipleOf", Value::String("".to_string()))).is_err())
}

#[test]
fn should_not_compile_with_zero_or_negative() {
    let mut scope = Scope::new();

    assert!(scope.compile_and_return(object("multipleOf", number(false, 0, 0))).is_err());

    assert!(scope.compile_and_return(object("multipleOf", number(true, 1, 0))).is_err());
}

#[test]
fn divisor_three_and_a_half_reports_six_once_at_the_root() {
    let mut scope = Scope::new();
    let schema = scope.compile_and_return(object("multipleOf", number(false, 35, -1))).unwrap();

    assert!(schema.validate(&number(false, 7, 0), &scope).is_valid());

    let state = schema.validate(&number(false, 6, 0), &scope);
    assert!(!state.is_valid());
    assert_eq!(state.errors.len(), 1);
    assert_eq!(state.errors[0].path, "");
    assert!(state.errors[0].detail.contains("3.5"));
    assert_eq!(state.errors[0].detail, "6 is not a multiple of 3.5");
}

#[test]
fn string_divisor_is_malformed_and_names_the_rule() {
    let mut scope = Scope::new();
    let error = scope.compile_and_return(object("multipleOf", Value::String("x".to_string()))).unwrap_err();
    assert_eq!(error.kind, ErrorKind::Malformed);
    assert!(error.detail.contains("JSON number"));
    assert_eq!(error.detail, "The value of multipleOf MUST be a JSON number");
    assert_eq!(error.path, "multipleOf");
}

#[test]
fn zero_divisor_is_malformed_and_names_the_rule() {
    let mut scope = Scope::new();
    let error = scope.compile_and_return(object("multipleOf", number(false, 0, 0))).unwrap_err();
    assert_eq!(error.kind, ErrorKind::Malformed);
    assert!(error.detail.contains("strictly greater than 0"));
    assert_eq!(error.path, "multipleOf");
}

#[test]
fn negative_divisor_is_malformed_like_zero() {
    let mut scope = Scope::new();
    let error = scope.compile_and_return(object("multipleOf", number(true, 1, 0))).unwrap_err();
    assert_eq!(error.kind, ErrorKind::Malformed);
    assert_eq!(error.detail, "The value of multipleOf MUST be strictly greater than 0");
}

#[test]
fn values_that_are_no_numbers_conform_to_a_divisor() {
    let mut scope = Scope::new();
    let schema = scope.compile_and_return(object("multipleOf", number(false, 2, 0))).unwrap();
    assert!(schema.validate(&Value::String("seven".to_string()), &scope).is_valid());
    assert!(schema.validate(&Value::Null, &scope).is_valid());
    assert!(schema.validate(&Value::Bool(true), &scope).is_valid());
    assert!(schema.validate(&Value::Array(vec![number(false, 3, 0)]), &scope).is_valid());
    assert!(schema.validate(&object("a", number(false, 3, 0)), &scope).is_valid());
}

#[test]
fn keyword_accepts_exactly_the_numbers_above_zero() {
    let ctx = WalkContext::root(0).descend("multipleOf");
    let accepted = [number(false, 1, 0), number(false, 35, -1), number(false, 1, -300), number(false, 9, 300)];
    for definition in accepted.iter() {
        match MultipleOf.compile(definition, &ctx) {
            Ok(Some(Validator::MultipleOf { number })) => {
                assert_eq!(Value::Number(number).as_number(), definition.as_number())
            }
            _ => panic!("a number above zero was refused"),
        }
    }
    let refused = [
        number(false, 0, 0),
        number(true, 0, 5),
        number(true, 35, -1),
        Value::Null,
        Value::Bool(true),
        Value::String("3.5".to_string()),
        Value::Array(vec![]),
        Value::Object(vec![]),
    ];
    for definition in refused.iter() {
        let error = MultipleOf.compile(definition, &ctx).unwrap_err();
        assert_eq!(error.kind, ErrorKind::Malformed);
        assert_eq!(error.path, "multipleOf");
    }
}

#[test]
fn conformance_follows_the_remainder() {
    let mut scope = Scope::new();
    let schema = scope.compile_and_return(object("multipleOf", number(false, 1, -1))).unwrap();
    assert!(schema.validate(&number(false, 3, -1), &scope).is_valid());
    assert!(schema.validate(&number(true, 12, 0), &scope).is_valid());
    assert!(schema.validate(&number(false, 0, 0), &scope).is_valid());
    assert!(!schema.validate(&number(false, 25, -2), &scope).is_valid());
    assert!(!schema.validate(&number(false, 1, -2), &scope).is_valid());
}
