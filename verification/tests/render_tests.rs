use melorun::{mvm_pretty, truthy, Value};

#[test]
fn renders_small_integer() {
    assert_eq!(mvm_pretty(&Value::Int(0, 0)), "0");
    assert_eq!(mvm_pretty(&Value::Int(0, 7)), "7");
}

#[test]
fn renders_large_integer() {
    assert_eq!(mvm_pretty(&Value::Int(0, 1234567890)), "1234567890");
    assert_eq!(
        mvm_pretty(&Value::Int(0, u128::MAX)),
        "340282366920938463463374607431768211455"
    );
}

#[test]
fn renders_integer_beyond_128_bits() {
    // 2^128 and 2^128 + 5: the high half drives the wide decimal path
    assert_eq!(
        mvm_pretty(&Value::Int(1, 0)),
        "340282366920938463463374607431768211456"
    );
    assert_eq!(
        mvm_pretty(&Value::Int(1, 5)),
        "340282366920938463463374607431768211461"
    );
}

#[test]
fn truthiness_follows_value_shape() {
    assert!(!truthy(&Value::Int(0, 0)));
    assert!(truthy(&Value::Int(0, 1)));
    assert!(truthy(&Value::Int(1, 0)));
    assert!(truthy(&Value::Bytes(Vec::new())));
    assert!(truthy(&Value::Vector(Vec::new())));
}

#[test]
fn renders_plain_string_double_quoted() {
    let v = Value::Bytes(b"hello".to_vec());
    assert_eq!(mvm_pretty(&v), "\"hello\"");
}

#[test]
fn renders_spaced_string_double_quoted() {
    // the escaper single-quotes this; the single quotes are blindly swapped
    let v = Value::Bytes(b"hello world".to_vec());
    assert_eq!(mvm_pretty(&v), "\"hello world\"");
}

#[test]
fn renders_apostrophe_string() {
    // an apostrophe forces the escaper into double-quote style, which is
    // kept unchanged
    let v = Value::Bytes(b"don't".to_vec());
    assert_eq!(mvm_pretty(&v), "\"don't\"");
}

#[test]
fn blind_quote_swap_corrupts_embedded_double_quote() {
    // a double quote alone is single-quotable for the escaper, so the
    // blind swap also rewrites the embedded quote: the round trip breaks
    // here, by design of the reproduced behaviour
    let v = Value::Bytes(b"a\"b".to_vec());
    assert_eq!(mvm_pretty(&v), "\"a\"b\"");
}

#[test]
fn renders_control_byte_as_hex() {
    let v = Value::Bytes(vec![0x01]);
    assert_eq!(mvm_pretty(&v), "x\"01\"");
}

#[test]
fn renders_mixed_control_content_as_hex() {
    let v = Value::Bytes(vec![0x68, 0x01, 0xfe]);
    assert_eq!(mvm_pretty(&v), "x\"6801fe\"");
}

#[test]
fn renders_invalid_utf8_as_hex() {
    let v = Value::Bytes(vec![0xff, 0x00, 0xab]);
    assert_eq!(mvm_pretty(&v), "x\"ff00ab\"");
}

#[test]
fn renders_empty_bytes_as_empty_string() {
    let v = Value::Bytes(Vec::new());
    assert_eq!(mvm_pretty(&v), "\"\"");
}

#[test]
fn renders_vector_with_separators() {
    let v = Value::Vector(vec![
        Value::Int(0, 1),
        Value::Bytes(b"hi".to_vec()),
        Value::Int(0, 3),
    ]);
    assert_eq!(mvm_pretty(&v), "[1, \"hi\", 3]");
}

#[test]
fn renders_nested_vectors() {
    let v = Value::Vector(vec![
        Value::Vector(vec![Value::Int(0, 1), Value::Int(0, 2)]),
        Value::Vector(Vec::new()),
    ]);
    assert_eq!(mvm_pretty(&v), "[[1, 2], []]");
}
