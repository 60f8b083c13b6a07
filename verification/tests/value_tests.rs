use std::sync::Arc;

use md_tmpl_core::context::Context;
use md_tmpl_core::value::{Value, ValueMap};

fn map_of(pairs: Vec<(&str, Value)>) -> ValueMap {
    let mut m = ValueMap::new();
    for (k, v) in pairs {
        m.insert(k.to_string(), v);
    }
    m
}

#[test]
fn display_str() {
    assert_eq!(Value::Str("hello".into()).display_string().unwrap(), "hello");
}

#[test]
fn display_bool() {
    assert_eq!(Value::Bool(true).display_string().unwrap(), "true");
    assert_eq!(Value::Bool(false).display_string().unwrap(), "false");
}

#[test]
fn display_int() {
    assert_eq!(Value::Int(42).display_string().unwrap(), "42");
    assert_eq!(Value::Int(-7).display_string().unwrap(), "-7");
}

#[test]
fn display_float() {
    let v = Value::Float(3.25f64.to_bits());
    // Floats are rendered by the caller, from their bits.
    assert!(v.display_string().is_none());
    match v {
        Value::Float(bits) => assert_eq!(f64::from_bits(bits).to_string(), "3.25"),
        other => panic!("Expected Float, got {other:?}"),
    }
}

#[test]
fn display_list() {
    let list = Value::List(Arc::new(vec![Value::Int(1)]));
    assert_eq!(list.display_string().unwrap(), "[<list of 1>]");
    assert_eq!(Value::List(Arc::new(vec![])).display_string().unwrap(), "[<list of 0>]");
}

#[test]
fn display_dict() {
    let dict = Value::Struct(Arc::new(map_of(vec![("k", Value::Int(1))])));
    assert_eq!(dict.display_string().unwrap(), "{<struct of 1>}");
    assert_eq!(Value::Struct(Arc::new(ValueMap::new())).display_string().unwrap(), "{<struct of 0>}");
}

#[test]
fn display_int_extremes() {
    assert_eq!(Value::Int(i64::MIN).display_string().unwrap(), "-9223372036854775808");
    assert_eq!(Value::Int(0).display_string().unwrap(), "0");
    assert_eq!(Value::Null.display_string().unwrap(), "");
}

#[test]
fn truthy_str() {
    assert!(Value::Str("hello".into()).is_truthy());
    assert!(!Value::Str(String::new()).is_truthy());
}

#[test]
fn truthy_bool() {
    assert!(Value::Bool(true).is_truthy());
    assert!(!Value::Bool(false).is_truthy());
}

#[test]
fn truthy_int() {
    assert!(Value::Int(1).is_truthy());
    assert!(Value::Int(-1).is_truthy());
    assert!(!Value::Int(0).is_truthy());
}

#[test]
fn truthy_float() {
    assert!(Value::Float(0.1f64.to_bits()).is_truthy());
    assert!(!Value::Float(0.0f64.to_bits()).is_truthy());
    assert!(!Value::Float((-0.0f64).to_bits()).is_truthy());
}

#[test]
fn truthy_list() {
    assert!(Value::List(Arc::new(vec![Value::Int(1)])).is_truthy());
    assert!(!Value::List(Arc::new(vec![])).is_truthy());
}

#[test]
fn truthy_dict() {
    let populated = Value::Struct(Arc::new(map_of(vec![("k", Value::Int(1))])));
    assert!(populated.is_truthy());
    assert!(!Value::Struct(Arc::new(ValueMap::new())).is_truthy());
}

#[test]
fn type_names() {
    assert_eq!(Value::Str("x".into()).type_label(), "str");
    assert_eq!(Value::Bool(true).type_label(), "bool");
    assert_eq!(Value::Int(0).type_label(), "int");
    assert_eq!(Value::Float(0.0f64.to_bits()).type_label(), "float");
    assert_eq!(Value::List(Arc::new(vec![])).type_label(), "list");
    assert_eq!(Value::Struct(Arc::new(ValueMap::new())).type_label(), "struct");
    assert_eq!(Value::Null.type_label(), "none");
}

#[test]
fn get_field_on_dict() {
    let dict = Value::Struct(Arc::new(map_of(vec![
        ("name", Value::Str("Alice".into())),
        ("score", Value::Int(95)),
    ])));
    assert_eq!(dict.get_field("name"), Some(&Value::Str("Alice".into())));
    assert_eq!(dict.get_field("score"), Some(&Value::Int(95)));
    assert_eq!(dict.get_field("missing"), None);
}

#[test]
fn get_field_on_non_dict_returns_none() {
    assert_eq!(Value::Str("x".into()).get_field("any"), None);
    assert_eq!(Value::Int(1).get_field("any"), None);
    assert_eq!(Value::List(Arc::new(vec![])).get_field("any"), None);
}

#[test]
fn get_field_hides_enum_tag() {
    let v = Value::new_struct(vec![
        ("__kind__".to_string(), Value::Str("Known".into())),
        ("label".to_string(), Value::Str("x".into())),
    ]);
    assert_eq!(v.get_field("__kind__"), None);
    assert_eq!(v.get_field_unchecked("__kind__"), Some(&Value::Str("Known".into())));
    let mut hint = v.field_names_hint();
    hint.sort();
    assert_eq!(hint, vec!["label".to_string()]);
}

#[test]
fn new_struct_last_pair_wins() {
    let v = Value::new_struct(vec![
        ("a".to_string(), Value::Int(1)),
        ("b".to_string(), Value::Int(2)),
        ("a".to_string(), Value::Int(3)),
    ]);
    assert_eq!(v.get_field("a"), Some(&Value::Int(3)));
    assert_eq!(v.get_field("b"), Some(&Value::Int(2)));
    assert_eq!(v.as_struct().unwrap().len(), 2);
}

#[test]
fn from_str_ref() {
    let v: Value = String::from("hello").into();
    assert_eq!(v, Value::Str("hello".into()));
}

#[test]
fn from_string() {
    let v: Value = String::from("world").into();
    assert_eq!(v, Value::Str("world".into()));
}

#[test]
fn from_bool() {
    let v: Value = true.into();
    assert_eq!(v, Value::Bool(true));
}

#[test]
fn from_i64() {
    let v: Value = 42_i64.into();
    assert_eq!(v, Value::Int(42));
}

#[test]
fn from_i32() {
    let v: Value = 7_i32.into();
    assert_eq!(v, Value::Int(7));
}

#[test]
fn from_u32() {
    let v: Value = 100_u32.into();
    assert_eq!(v, Value::Int(100));
}

#[test]
fn try_from_u64() {
    let v = Value::try_from_u64(999_u64).unwrap();
    assert_eq!(v, Value::Int(999));
}

#[test]
fn try_from_u64_overflow() {
    let result = Value::try_from_u64(u64::MAX);
    assert!(result.is_none(), "u64::MAX should not fit in i64");
}

#[test]
fn try_from_usize() {
    let v = Value::try_from_usize(5_usize).unwrap();
    assert_eq!(v, Value::Int(5));
}

#[test]
fn from_vec_value() {
    let items = vec![Value::Int(1), Value::Str("two".into())];
    let v: Value = items.into();
    assert!(matches!(v, Value::List(ref l) if l.len() == 2));
}

#[test]
fn from_hashmap_value() {
    let map = map_of(vec![("k", Value::Bool(true))]);
    let v: Value = map.into();
    assert_eq!(v.get_field("k"), Some(&Value::Bool(true)));
}

#[test]
fn as_str_returns_some_for_str() {
    assert_eq!(Value::Str("hello".into()).as_str(), Some("hello"));
}

#[test]
fn as_str_returns_none_for_non_str() {
    assert_eq!(Value::Int(42).as_str(), None);
}

#[test]
fn as_int_returns_some_for_int() {
    assert_eq!(Value::Int(42).as_int(), Some(42));
}

#[test]
fn as_int_returns_none_for_non_int() {
    assert_eq!(Value::Str("42".into()).as_int(), None);
}

#[test]
fn as_float_returns_some_for_float() {
    assert_eq!(Value::Float(3.25f64.to_bits()).as_float().map(f64::from_bits), Some(3.25));
}

#[test]
fn as_float_returns_none_for_non_float() {
    assert_eq!(Value::Int(3).as_float(), None);
}

#[test]
fn as_bool_returns_some_for_bool() {
    assert_eq!(Value::Bool(true).as_bool(), Some(true));
}

#[test]
fn as_bool_returns_none_for_non_bool() {
    assert_eq!(Value::Str("true".into()).as_bool(), None);
}

#[test]
fn as_list_returns_some_for_list() {
    let items = vec![Value::Int(1), Value::Int(2)];
    let v = Value::List(Arc::new(items.clone()));
    assert_eq!(v.as_list(), Some(items.as_slice()));
}

#[test]
fn as_list_returns_none_for_non_list() {
    assert_eq!(Value::Int(1).as_list(), None);
}

#[test]
fn as_struct_returns_some_for_dict() {
    let v = Value::Struct(Arc::new(map_of(vec![("k", Value::Int(1))])));
    assert_eq!(v.as_struct(), Some(&map_of(vec![("k", Value::Int(1))])));
}

#[test]
fn as_struct_returns_none_for_non_dict() {
    assert_eq!(Value::Int(1).as_struct(), None);
}

#[test]
fn try_from_str_success() {
    let v = Value::Str("hello".into());
    assert_eq!(v.into_string().unwrap(), "hello");
}

#[test]
fn try_from_str_failure_has_message() {
    let v = Value::Int(42);
    let err = v.into_string().unwrap_err();
    assert_eq!(err.expected, "str");
    assert_eq!(err.actual, "int");
    assert_eq!(err.message(), "expected str, got int");
}

#[test]
fn try_from_i64_success() {
    let v = Value::Int(99);
    assert_eq!(v.into_int().unwrap(), 99);
}

#[test]
fn try_from_i64_failure() {
    let v = Value::Str("99".into());
    let err = v.into_int().expect_err("Str should not convert to i64");
    assert_eq!(err.expected, "int");
    assert_eq!(err.actual, "str");
}

#[test]
fn try_from_f64_success() {
    let v = Value::Float(2.5f64.to_bits());
    assert!((f64::from_bits(v.into_float_bits().unwrap()) - 2.5).abs() < f64::EPSILON);
}

#[test]
fn try_from_bool_success() {
    let v = Value::Bool(false);
    assert!(!v.into_bool().unwrap());
}

#[test]
fn try_from_vec_success() {
    let v = Value::List(Arc::new(vec![Value::Int(1)]));
    let list = v.into_list().unwrap();
    assert_eq!(list.len(), 1);
}

#[test]
fn try_from_hashmap_success() {
    let v = Value::Struct(Arc::new(map_of(vec![("k", Value::Int(1))])));
    let map = v.into_map().unwrap();
    assert_eq!(map.len(), 1);
}

#[test]
fn new_context_is_empty() {
    let ctx = Context::new();
    assert!(ctx.get("anything").is_none());
}

#[test]
fn set_and_get_str() {
    let mut ctx = Context::new();
    ctx.set("greeting".to_string(), Value::Str("hello".into()));
    assert_eq!(ctx.get("greeting"), Some(&Value::Str("hello".into())));
}

#[test]
fn set_and_get_bool() {
    let mut ctx = Context::new();
    ctx.set("flag".to_string(), true.into());
    assert_eq!(ctx.get("flag"), Some(&Value::Bool(true)));
}

#[test]
fn set_and_get_int() {
    let mut ctx = Context::new();
    ctx.set("count".to_string(), 42_i64.into());
    assert_eq!(ctx.get("count"), Some(&Value::Int(42)));
}

#[test]
fn overwrite_value() {
    let mut ctx = Context::new();
    ctx.set("k".to_string(), Value::Str("first".into()));
    ctx.set("k".to_string(), Value::Str("second".into()));
    assert_eq!(ctx.get("k"), Some(&Value::Str("second".into())));
    assert_eq!(ctx.len(), 1);
}

#[test]
fn get_missing_returns_none() {
    let ctx = Context::new();
    assert_eq!(ctx.get("nonexistent"), None);
}

#[test]
fn default_is_same_as_new() {
    let a = Context::new();
    let b = Context::default();
    assert!(a.is_empty());
    assert!(b.is_empty());
}

#[test]
fn set_allows_similar_but_different_keys() {
    let mut ctx = Context::new();
    ctx.set("kind".to_string(), Value::Str("some_kind".into()));
    ctx.set("__type__".to_string(), Value::Str("some_type".into()));
    ctx.set("kind_of".to_string(), Value::Str("something".into()));
    assert!(ctx.get("kind").is_some());
    assert!(ctx.get("__type__").is_some());
}

#[test]
fn context_from_pairs_and_var() {
    let ctx = Context::from_pairs(vec![
        ("name".to_string(), Value::Str("Alice".into())),
        ("count".to_string(), Value::Int(3)),
        ("name".to_string(), Value::Str("Bob".into())),
    ])
    .var("extra".to_string(), Value::Bool(true));
    assert_eq!(ctx.len(), 3);
    assert_eq!(ctx.get("name"), Some(&Value::Str("Bob".into())));
    assert!(ctx.contains_key("extra"));
    assert_eq!(ctx.into_inner().len(), 3);
}

#[test]
fn context_from_value() {
    let v = Value::new_struct(vec![("x".to_string(), Value::Int(1))]);
    let ctx = Context::from_value(v).unwrap();
    assert_eq!(ctx.get("x"), Some(&Value::Int(1)));
    let err = Context::from_value(Value::Int(1)).unwrap_err();
    assert_eq!(err.message(), "expected struct/map, got int");
}

#[test]
fn kind_predicates_match_the_variant() {
    let values = [
        Value::Str("s".into()),
        Value::Int(1),
        Value::Float(1.5f64.to_bits()),
        Value::FloatText("2.5".into()),
        Value::Bool(true),
        Value::List(Arc::new(vec![])),
        Value::Struct(Arc::new(ValueMap::new())),
        Value::Null,
    ];
    let kinds: Vec<[bool; 6]> = values
        .iter()
        .map(|v| [v.is_str(), v.is_int(), v.is_float(), v.is_bool(), v.is_list(), v.is_struct()])
        .collect();
    assert_eq!(kinds[0], [true, false, false, false, false, false]);
    assert_eq!(kinds[1], [false, true, false, false, false, false]);
    assert_eq!(kinds[2], [false, false, true, false, false, false]);
    assert_eq!(kinds[3], [false, false, true, false, false, false]);
    assert_eq!(kinds[4], [false, false, false, true, false, false]);
    assert_eq!(kinds[5], [false, false, false, false, true, false]);
    assert_eq!(kinds[6], [false, false, false, false, false, true]);
    assert_eq!(kinds[7], [false; 6]);
}
