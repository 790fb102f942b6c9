use lang::scope::Scope;
use lang::types::{LangType, PrimitiveType, TypeKind};
use lang::value::{ArrayValue, Value};

#[test]
fn declare_integer_binding_without_value() {
    let mut scope = Scope::new();
    scope.declare("myVar", LangType::integer()).expect("declaration should succeed");
    let binding = scope.get("myVar").unwrap();
    assert!(binding.value().is_none());
}

#[test]
fn declare_integer_binding_with_value() {
    let mut scope = Scope::new();
    scope
        .declare_with_value("myVar", LangType::integer(), Value::from(10))
        .expect("declaration should succeed");
    let binding = scope.get("myVar").unwrap();
    assert_eq!(binding.value().unwrap().expect_integer().unwrap(), 10);
}

#[test]
fn reassigning_immutable_binding_fails() {
    let mut scope = Scope::new();
    scope.declare_with_value("counter", LangType::integer(), Value::from(1)).unwrap();
    let err = scope.get_mut("counter").unwrap().assign(Value::from(2)).unwrap_err();
    assert!(err.to_display_string().contains("immutable"));
}

#[test]
fn assigning_mutable_binding_succeeds() {
    let mut scope = Scope::new();
    let ty = LangType::integer().with_mutability(true);
    scope.declare_with_value("counter", ty.copy(), Value::from(1)).unwrap();
    scope.assign("counter", Value::from(2)).unwrap();
    assert_eq!(scope.get("counter").unwrap().value().unwrap().expect_integer().unwrap(), 2);
    assert!(scope.get("counter").unwrap().ty().is_mutable());
}

#[test]
fn assigning_undefined_binding_fails() {
    let mut scope = Scope::new();
    let err = scope.assign("missing", Value::from(1)).unwrap_err();
    assert!(err.to_display_string().contains("not defined"));
}

#[test]
fn declaring_twice_fails() {
    let mut scope = Scope::new();
    scope.declare("x", LangType::integer()).unwrap();
    let err = scope.declare("x", LangType::integer()).unwrap_err();
    assert_eq!(err.to_display_string(), "Type error: variable `x` is already declared in scope");
    assert!(scope.contains("x"));
    assert!(!scope.contains("y"));
}

#[test]
fn uninitialised_immutable_binding_takes_one_value() {
    let mut scope = Scope::new();
    scope.declare("x", LangType::integer()).unwrap();
    scope.assign("x", Value::from(3)).unwrap();
    let err = scope.assign("x", Value::from(4)).unwrap_err();
    assert_eq!(err.to_display_string(), "Type error: attempt to reassign immutable binding");
    let err = scope.assign("x", Value::from(true)).unwrap_err();
    assert_eq!(err.to_display_string(), "Type error: type mismatch: expected int, got bool");
}

#[test]
fn mixed_binding_refuses_values_of_other_kinds() {
    let mut scope = Scope::new();
    scope.declare("x", LangType::mixed()).unwrap();
    let err = scope.assign("x", Value::Integer(1)).unwrap_err();
    assert_eq!(err.to_display_string(), "Type error: type mismatch: expected mixed, got int");
    assert!(scope.get("x").unwrap().value().is_none());
    let err = scope.declare_with_value("y", LangType::mixed(), Value::Bool(true)).unwrap_err();
    assert_eq!(err.to_display_string(), "Type error: type mismatch: expected mixed, got bool");
    assert!(!scope.contains("y"));
}

#[test]
fn array_bindings_compare_kinds_exactly() {
    let mut ints = ArrayValue::new();
    ints.push(Value::Integer(1));
    let mut scope = Scope::new();
    let typed = LangType::array(TypeKind::Primitive(PrimitiveType::Integer)).with_mutability(true);
    let ints = Value::Array(ints);
    let err = scope.declare_with_value("a", typed.copy(), ints.copy()).unwrap_err();
    assert!(err.to_display_string().starts_with("Type error: type mismatch: expected arr<"));
    scope.declare("b", typed).unwrap();
    assert!(scope.assign("b", ints.copy()).is_err());
    let untyped = LangType::array(TypeKind::Primitive(PrimitiveType::Mixed)).with_mutability(true);
    scope.declare_with_value("c", untyped, ints).unwrap();
}
