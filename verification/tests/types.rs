use lang::diagnostics::LangError;
use lang::types::{LangType, PrimitiveType, TypeKind, TypeRegistry};

#[test]
fn integer_type_is_registered() {
    let registry = TypeRegistry::new();
    let ty = registry.resolve("int");
    assert_eq!(ty, Some(TypeKind::Primitive(PrimitiveType::Integer)));
}

#[test]
fn lang_type_mutability() {
    let ty = LangType::integer().with_mutability(true);
    assert!(ty.is_mutable());
}

#[test]
fn can_format_errors() {
    let err = LangError::unknown_type("foo");
    assert_eq!(err.to_display_string(), "Unknown type `foo`");
}

#[test]
fn registering_replaces_a_name() {
    let mut registry = TypeRegistry::new();
    assert_eq!(registry.resolve("number"), None);
    registry.register_builtin("number", TypeKind::Primitive(PrimitiveType::Float));
    assert_eq!(registry.resolve("number"), Some(TypeKind::Primitive(PrimitiveType::Float)));
    registry.register_builtin("int", TypeKind::Primitive(PrimitiveType::Bool));
    assert_eq!(registry.resolve("int"), Some(TypeKind::Primitive(PrimitiveType::Bool)));
    assert_eq!(registry.resolve("str"), Some(TypeKind::Primitive(PrimitiveType::Str)));
}

#[test]
fn types_display_with_mutability() {
    assert_eq!(PrimitiveType::Mixed.as_str(), "mixed");
    let arr = LangType::array_with_key(TypeKind::Primitive(PrimitiveType::Str), TypeKind::Primitive(PrimitiveType::Integer));
    assert_eq!(arr.to_display_string(), "arr<str, int>");
    assert_eq!(arr.with_mutability(true).to_display_string(), "arr<str, int> mute");
}

#[test]
fn error_kinds_display() {
    assert_eq!(LangError::parse("bad").to_display_string(), "Parse error: bad");
    assert_eq!(LangError::Type("t".to_string()).to_display_string(), "Type error: t");
    assert_eq!(LangError::Runtime("r".to_string()).to_display_string(), "Runtime error: r");
}
