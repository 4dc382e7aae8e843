use minic::value::Value;

#[test]
fn test_null() {
    let v1 = Value::Null;
    let v2 = Value::Null;
    assert_eq!(v1, v2);
}

#[test]
fn test_int() {
    let expect_value = 3;
    let v = Value::Int(expect_value);
    if let Value::Int(actual_value) = v {
        assert_eq!(actual_value, expect_value);
    }
}

#[test]
fn value_test_bool() {
    let expect_value: bool = true;
    let v = Value::Bool(expect_value);
    if let Value::Bool(actual_value) = v {
        assert_eq!(actual_value, expect_value);
    }
}

#[test]
fn value_test_string() {
    let expect_value: String = String::from("hello world");
    let v = Value::String(expect_value);
    if let Value::String(actual_value) = v {
        assert_eq!(actual_value.clone(), String::from("hello world"));
    }
}

#[test]
fn duplicate_is_equal() {
    let v = Value::String(String::from("x"));
    assert_eq!(v.duplicate(), v);
    assert_eq!(Value::Int(-2).duplicate(), Value::Int(-2));
}
