use json_schema::context::WalkContext;
use json_schema::error::{ErrorKind, SchemaError};
use json_schema::keywords::id::Id;
use json_schema::keywords::reference::Reference;
use json_schema::keywords::{compile_member, Keyword};
use json_schema::number::Number;
use json_schema::scope::Scope;
use json_schema::state::ValidationState;
use json_schema::validators::{ValidationContext, Validator};
use json_schema::value::{Member, Value};

fn num(mantissa: u64, exponent: i16) -> Value {
    Value::Number(Number::new(false, mantissa, exponent))
}

fn member(key: &str, value: Value) -> Member {
    Member { key: key.to_string(), value }
}

#[test]
fn the_root_context_has_an_empty_path() {
    let ctx = WalkContext::root(3);
    assert!(ctx.path.is_empty());
    assert_eq!(ctx.scope_id, 3);
    assert_eq!(ctx.path_string(), "");
}

#[test]
fn descending_extends_a_copy_of_the_path() {
    let root = WalkContext::root(1);
    let a = root.descend("definitions");
    let b = a.descend("age");
    let c = a.descend("name");
    assert_eq!(root.path_string(), "");
    assert_eq!(a.path_string(), "definitions");
    assert_eq!(b.path_string(), "definitions/age");
    assert_eq!(c.path_string(), "definitions/name");
    assert_eq!(a.path, vec!["definitions".to_string()]);
    assert_eq!(b.path, vec!["definitions".to_string(), "age".to_string()]);
    assert_eq!(b.scope_id, 1);
    assert_eq!(b.descend("").path_string(), "definitions/age/");
}

#[test]
fn find_gives_the_first_member_under_a_key() {
    let object = Value::Object(vec![member("a", num(1, 0)), member("b", num(2, 0)), member("a", num(3, 0))]);
    assert_eq!(object.find("a").unwrap().as_number(), Some(Number::new(false, 1, 0)));
    assert_eq!(object.find("b").unwrap().as_number(), Some(Number::new(false, 2, 0)));
    assert!(object.find("c").is_none());
    assert!(Value::Array(vec![num(1, 0)]).find("a").is_none());
    assert!(Value::Null.find("a").is_none());
}

#[test]
fn values_tell_what_they_are() {
    assert!(num(1, 0).is_number());
    assert!(!Value::String("1".to_string()).is_number());
    assert!(!Value::Null.is_number());
    assert_eq!(Value::Bool(true).as_number(), None);
    assert_eq!(Value::String("x".to_string()).as_string().map(|s| s.as_str()), Some("x"));
    assert!(num(1, 0).as_string().is_none());
}

#[test]
fn a_fresh_state_is_valid_and_records_in_order() {
    let mut state = ValidationState::new();
    assert!(state.is_valid());
    state.record("a".to_string(), "first".to_string());
    state.record("b".to_string(), "second".to_string());
    assert!(!state.is_valid());
    assert_eq!(state.errors.len(), 2);
    assert_eq!(state.errors[0].path, "a");
    assert_eq!(state.errors[0].detail, "first");
    assert_eq!(state.errors[1].path, "b");
    assert_eq!(state.errors[1].detail, "second");
}

#[test]
fn appending_puts_the_nested_diagnostics_behind() {
    let mut outer = ValidationState::new();
    outer.record("".to_string(), "outer".to_string());
    let mut inner = ValidationState::new();
    inner.record("x".to_string(), "inner one".to_string());
    inner.record("y".to_string(), "inner two".to_string());
    outer.append(inner);
    let details: Vec<&str> = outer.errors.iter().map(|e| e.detail.as_str()).collect();
    assert_eq!(details, vec!["outer", "inner one", "inner two"]);
    outer.append(ValidationState::new());
    assert_eq!(outer.errors.len(), 3);
}

#[test]
fn schema_error_keeps_its_parts() {
    let error = SchemaError::new(ErrorKind::InvalidReference, "a/b".to_string(), "why".to_string());
    assert_eq!(error.kind, ErrorKind::InvalidReference);
    assert_eq!(error.path, "a/b");
    assert_eq!(error.detail, "why");
}

#[test]
fn the_reference_keyword_takes_strings_only() {
    let ctx = WalkContext::root(0).descend("definitions").descend("$ref");
    match Reference.compile(&Value::String("urn:x".to_string()), &ctx) {
        Ok(Some(Validator::Reference { uri })) => assert_eq!(uri, "urn:x"),
        _ => panic!("a string is a reference"),
    }
    let error = Reference.compile(&num(1, 0), &ctx).unwrap_err();
    assert_eq!(error.kind, ErrorKind::Malformed);
    assert_eq!(error.path, "definitions/$ref");
    assert_eq!(error.detail, "The value of $ref MUST be a string");
}

#[test]
fn the_id_keyword_asks_for_no_check() {
    let ctx = WalkContext::root(0).descend("id");
    assert!(matches!(Id.compile(&Value::String("urn:x".to_string()), &ctx), Ok(None)));
    let error = Id.compile(&Value::Null, &ctx).unwrap_err();
    assert_eq!(error.kind, ErrorKind::Malformed);
    assert_eq!(error.path, "id");
}

#[test]
fn members_go_to_the_keyword_of_their_key() {
    let ctx = WalkContext::root(0);
    assert!(matches!(
        compile_member(false, &member("multipleOf", num(2, 0)), &ctx),
        Ok(Some(Validator::MultipleOf { .. }))
    ));
    assert!(matches!(
        compile_member(true, &member("$ref", Value::String("u".to_string())), &ctx),
        Ok(Some(Validator::Reference { .. }))
    ));
    assert!(matches!(compile_member(true, &member("id", Value::String("u".to_string())), &ctx), Ok(None)));
    assert!(matches!(compile_member(false, &member("other", Value::Null), &ctx), Ok(None)));
    let error = compile_member(true, &member("other", Value::Null), &ctx.descend("nested")).unwrap_err();
    assert_eq!(error.kind, ErrorKind::UnknownKeyword);
    assert_eq!(error.path, "nested/other");
    let error = compile_member(false, &member("multipleOf", Value::Null), &ctx.descend("nested")).unwrap_err();
    assert_eq!(error.kind, ErrorKind::Malformed);
    assert_eq!(error.path, "nested/multipleOf");
}

#[test]
fn a_validator_reports_at_the_path_of_its_context() {
    let scope = Scope::new();
    let root = ValidationContext::root(&scope);
    let at = root.descend("items").descend("3");
    assert_eq!(root.path_string(), "");
    assert_eq!(at.path_string(), "items/3");

    let validator = Validator::MultipleOf { number: Number::new(false, 2, 0) };
    let mut state = ValidationState::new();
    state.record("".to_string(), "earlier".to_string());
    assert!(validator.validate(&num(4, 0), &mut state, &at));
    assert_eq!(state.errors.len(), 1);
    assert!(!validator.validate(&num(5, 0), &mut state, &at));
    assert_eq!(state.errors.len(), 2);
    assert_eq!(state.errors[0].detail, "earlier");
    assert_eq!(state.errors[1].path, "items/3");
    assert_eq!(state.errors[1].detail, "5 is not a multiple of 2");
    assert!(validator.validate(&Value::Null, &mut state, &at));
    assert_eq!(state.errors.len(), 2);
}

#[test]
fn a_reference_validator_runs_the_registered_schema() {
    let mut scope = Scope::new();
    scope
        .compile_and_return(Value::Object(vec![
            member("id", Value::String("urn:two".to_string())),
            member("multipleOf", num(2, 0)),
        ]))
        .unwrap();
    let ctx = ValidationContext::root(&scope);
    let reference = Validator::Reference { uri: "urn:two".to_string() };
    let mut state = ValidationState::new();
    assert!(reference.validate(&num(4, 0), &mut state, &ctx));
    assert!(!reference.validate(&num(3, 0), &mut state, &ctx));
    assert_eq!(state.errors.len(), 1);
    assert_eq!(state.errors[0].detail, "3 is not a multiple of 2");

    let dangling = Validator::Reference { uri: "urn:none".to_string() };
    assert!(!dangling.validate(&num(4, 0), &mut state, &ctx));
    assert_eq!(state.errors[1].detail, "Unresolved reference to urn:none");
}

#[test]
fn copies_hold_what_was_copied() {
    let validator = Validator::Reference { uri: "urn:x".to_string() };
    match validator.duplicate() {
        Validator::Reference { uri } => assert_eq!(uri, "urn:x"),
        _ => panic!("a copy of a reference is a reference"),
    }
    let mut scope = Scope::new();
    let schema = scope
        .compile_and_return(Value::Object(vec![
            member("id", Value::String("urn:a".to_string())),
            member("multipleOf", num(2, 0)),
        ]))
        .unwrap();
    let copy = schema.duplicate();
    assert_eq!(copy.id, schema.id);
    assert_eq!(copy.validators.len(), 1);
    assert!(!copy.validate(&num(3, 0), &scope).is_valid());
}
