use lang::repl::echo;
use lang::types::LangType;
use lang::value::{ArrayKey, ArrayValue, FloatOps, OrderTest, Value};
struct HostFloats;

impl FloatOps for HostFloats {
    fn parse_literal(&self, text: &str) -> u64 {
        text.parse::<f64>().unwrap_or(0.0).to_bits()
    }
    fn float_add(&self, a: u64, b: u64) -> u64 {
        (f64::from_bits(a) + f64::from_bits(b)).to_bits()
    }
    fn float_sub(&self, a: u64, b: u64) -> u64 {
        (f64::from_bits(a) - f64::from_bits(b)).to_bits()
    }
    fn float_mul(&self, a: u64, b: u64) -> u64 {
        (f64::from_bits(a) * f64::from_bits(b)).to_bits()
    }
    fn float_div(&self, a: u64, b: u64) -> u64 {
        (f64::from_bits(a) / f64::from_bits(b)).to_bits()
    }
    fn float_neg(&self, a: u64) -> u64 {
        (-f64::from_bits(a)).to_bits()
    }
    fn float_increment(&self, a: u64) -> u64 {
        (f64::from_bits(a) + 1.0).to_bits()
    }
    fn float_decrement(&self, a: u64) -> u64 {
        (f64::from_bits(a) - 1.0).to_bits()
    }
    fn float_is_negligible(&self, a: u64) -> bool {
        f64::from_bits(a).abs() < f64::EPSILON
    }
    fn float_equal(&self, a: u64, b: u64) -> bool {
        f64::from_bits(a) == f64::from_bits(b)
    }
    fn float_order(&self, test: OrderTest, a: u64, b: u64) -> bool {
        compare(test, f64::from_bits(a), f64::from_bits(b))
    }
    fn int_order_as_float(&self, test: OrderTest, a: i64, b: i64) -> bool {
        compare(test, a as f64, b as f64)
    }
    fn float_text(&self, a: u64) -> String {
        f64::from_bits(a).to_string()
    }
}

fn compare(test: OrderTest, a: f64, b: f64) -> bool {
    match test {
        OrderTest::Less => a < b,
        OrderTest::LessEqual => a <= b,
        OrderTest::Greater => a > b,
        OrderTest::GreaterEqual => a >= b,
    }
}

#[test]
fn value_integer_value_roundtrip() {
    let value = Value::from(42);
    assert_eq!(value.expect_integer().unwrap(), 42);
    assert_eq!(value.ty(), LangType::integer());
}

#[test]
fn float_value_roundtrip() {
    let value = Value::Float(3.14_f64.to_bits());
    assert!((f64::from_bits(value.expect_float().unwrap()) - 3.14).abs() < f64::EPSILON);
    assert_eq!(value.ty(), LangType::float());
}

#[test]
fn bool_value_roundtrip() {
    let value = Value::from(true);
    assert!(value.expect_bool().unwrap());
    assert_eq!(value.ty(), LangType::boolean());
}

#[test]
fn string_value_roundtrip() {
    let value = Value::from("hello");
    assert_eq!(value.expect_string().unwrap(), "hello");
    assert_eq!(value.ty(), LangType::string());
}

#[test]
fn array_value_roundtrip() {
    let floats = HostFloats;
    let mut array = ArrayValue::new();
    array.push(Value::from(1));
    array.insert(ArrayKey::Str("key".to_string()), Value::from("value"));
    let first = Value::from(array);
    let value = first.copy();
    assert_eq!(value.expect_array().unwrap().len(), 2);
    assert!(value.ty().as_array().is_some());
    assert_eq!(first.display(&floats), "[0 => 1, 'key' => value]");
}

#[test]
fn echo_formats_value() {
    let floats = HostFloats;
    let value = Value::from(42);
    assert_eq!(echo(&value, &floats), "42");
}

#[test]
fn insert_replaces_in_place_and_advances_index() {
    let mut array = ArrayValue::new();
    array.push(Value::from(10));
    array.insert(ArrayKey::Int(5), Value::from(50));
    array.insert(ArrayKey::Int(0), Value::from(11));
    let key = array.push(Value::from(60));
    assert_eq!(key, ArrayKey::Int(6));
    assert_eq!(array.len(), 3);
    assert_eq!(array.get(&ArrayKey::Int(0)).unwrap().expect_integer().unwrap(), 11);
    assert_eq!(array.get(&ArrayKey::Int(6)).unwrap().expect_integer().unwrap(), 60);
    assert!(array.get(&ArrayKey::Int(1)).is_none());
    let (first, _) = array.entry(0);
    assert_eq!(*first, ArrayKey::Int(0));
}

#[test]
fn keys_come_from_integers_and_strings() {
    assert_eq!(ArrayKey::from_value(Value::from(3)).unwrap(), ArrayKey::Int(3));
    assert_eq!(ArrayKey::from_value(Value::from("k")).unwrap(), ArrayKey::Str("k".to_string()));
    let err = ArrayKey::from_value(Value::from(true)).unwrap_err();
    assert_eq!(err.to_display_string(), "Type error: array indices must be integers or strings, got bool");
    assert_eq!(ArrayKey::Str("k".to_string()).to_display_string(), "'k'");
    assert_eq!(ArrayKey::Int(-4).to_display_string(), "-4");
}

#[test]
fn expect_errors_name_the_wanted_type() {
    let value = Value::from(1);
    assert_eq!(value.expect_bool().unwrap_err().to_display_string(), "Type error: expected bool value");
    assert_eq!(value.expect_string().unwrap_err().to_display_string(), "Type error: expected string value");
    assert_eq!(value.expect_float().unwrap_err().to_display_string(), "Type error: expected float value");
    assert_eq!(value.expect_array().unwrap_err().to_display_string(), "Type error: expected array value");
    assert_eq!(Value::from(true).expect_integer().unwrap_err().to_display_string(), "Type error: expected integer value");
}

#[test]
fn floats_display_through_host() {
    let floats = HostFloats;
    assert_eq!(Value::Float(2.5_f64.to_bits()).display(&floats), "2.5");
    assert_eq!(echo(&Value::from(false), &floats), "false");
}

#[test]
fn expect_array_mut_changes_the_array_in_place() {
    let mut value = Value::Array(ArrayValue::new());
    {
        let array = value.expect_array_mut().expect("array");
        array.push(Value::Integer(7));
    }
    let array = value.expect_array().expect("array");
    assert_eq!(array.len(), 1);
    assert!(matches!(array.get(&ArrayKey::Int(0)), Some(Value::Integer(7))));

    let mut other = Value::Bool(true);
    assert!(other.expect_array_mut().is_err());
}

#[test]
fn iter_lists_entries_in_insertion_order() {
    let mut array = ArrayValue::new();
    array.insert(ArrayKey::Str("b".to_string()), Value::Integer(1));
    array.push(Value::Integer(2));
    let entries = array.iter();
    assert_eq!(entries.len(), 2);
    assert!(matches!(entries[0], (ArrayKey::Str(k), Value::Integer(1)) if k == "b"));
    assert!(matches!(entries[1], (ArrayKey::Int(0), Value::Integer(2))));
}

#[test]
fn get_mut_changes_the_stored_value_in_place() {
    let mut array = ArrayValue::new();
    array.push(Value::Integer(1));
    array.insert(ArrayKey::Str("k".to_string()), Value::Bool(false));
    if let Some(slot) = array.get_mut(&ArrayKey::Str("k".to_string())) {
        *slot = Value::Bool(true);
    } else {
        panic!("key present");
    }
    assert!(matches!(array.get(&ArrayKey::Str("k".to_string())), Some(Value::Bool(true))));
    assert_eq!(array.len(), 2);
    assert!(array.get_mut(&ArrayKey::Int(5)).is_none());
}
