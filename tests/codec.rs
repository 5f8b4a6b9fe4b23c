use dbus_dispatch::codec::{decode, encode, value_signature, CodecError, Native, Value};
use dbus_dispatch::signature::{parse_signature, TypeNode};

fn node(s: &str) -> TypeNode {
    let mut nodes = parse_signature(s).unwrap();
    assert_eq!(nodes.len(), 1);
    nodes.pop().unwrap()
}

fn dict_value() -> Value {
    let entry = Value::DictEntry(
        Box::new(Value::String("k".to_string())),
        Box::new(Value::Variant(Box::new(Value::Uint32(7)))),
    );
    Value::Array(vec![entry], "{sv}".to_string())
}

#[test]
fn decode_basic_values() {
    match decode(&node("i"), Value::Int32(-5)).unwrap() {
        Native::Int32(x) => assert_eq!(x, -5),
        other => panic!("unexpected {:?}", other),
    }
    match decode(&node("o"), Value::ObjectPath("/a/b".to_string())).unwrap() {
        Native::ObjectPath(p) => assert_eq!(p, "/a/b"),
        other => panic!("unexpected {:?}", other),
    }
}

#[test]
fn decode_mismatch_names_both_signatures() {
    match decode(&node("i"), Value::String("x".to_string())).unwrap_err() {
        CodecError::Mismatch { expected, actual } => {
            assert_eq!(expected, "i");
            assert_eq!(actual, "s");
        }
        other => panic!("unexpected {:?}", other),
    }
    let err = decode(&node("(iu)"), Value::Array(vec![], "y".to_string())).unwrap_err();
    assert_eq!(err.message(), "signature mismatch: expected (iu) got ay");
}

#[test]
fn decode_array_checks_element_signature() {
    let v = Value::Array(vec![Value::Int32(1)], "u".to_string());
    match decode(&node("ai"), v).unwrap_err() {
        CodecError::Mismatch { expected, actual } => {
            assert_eq!(expected, "i");
            assert_eq!(actual, "u");
        }
        other => panic!("unexpected {:?}", other),
    }
}

#[test]
fn decode_array_reports_first_bad_element() {
    let v = Value::Array(
        vec![Value::Int32(1), Value::Boolean(true), Value::Byte(2)],
        "i".to_string(),
    );
    let err = decode(&node("ai"), v).unwrap_err();
    assert_eq!(err.message(), "signature mismatch: expected i got b");
}

#[test]
fn decode_struct_missing_member() {
    let v = Value::Struct(vec![Value::Int32(1)]);
    match decode(&node("(is)"), v).unwrap_err() {
        CodecError::MissingValue { expected } => assert_eq!(expected, "s"),
        other => panic!("unexpected {:?}", other),
    }
    let v = Value::Struct(vec![Value::Int32(1)]);
    assert_eq!(decode(&node("(is)"), v).unwrap_err().message(), "signature mismatch: expected s");
}

#[test]
fn decode_struct_ignores_extra_members() {
    let v = Value::Struct(vec![Value::Int32(1), Value::String("a".to_string()), Value::Byte(9)]);
    match decode(&node("(is)"), v).unwrap() {
        Native::Struct(ms) => {
            assert_eq!(ms.len(), 2);
            assert!(matches!(ms[0], Native::Int32(1)));
            assert!(matches!(&ms[1], Native::String(s) if s == "a"));
        }
        other => panic!("unexpected {:?}", other),
    }
}

#[test]
fn decode_then_encode_gives_value_back() {
    let t = node("a{sv}");
    let n = decode(&t, dict_value()).unwrap();
    let back = encode(&t, n);
    assert_eq!(format!("{:?}", back), format!("{:?}", dict_value()));
    assert_eq!(value_signature(&back), "a{sv}");
}

#[test]
fn encode_then_decode_gives_native_back() {
    let t = node("(yax)");
    let n = Native::Struct(vec![
        Native::Byte(3),
        Native::Array(vec![Native::Int64(-1), Native::Int64(i64::MAX)]),
    ]);
    let expected = format!("{:?}", n);
    let v = encode(&t, n);
    match &v {
        Value::Struct(ms) => match &ms[1] {
            Value::Array(xs, s) => {
                assert_eq!(s, "x");
                assert_eq!(xs.len(), 2);
            }
            other => panic!("unexpected {:?}", other),
        },
        other => panic!("unexpected {:?}", other),
    }
    let back = decode(&t, v).unwrap();
    assert_eq!(format!("{:?}", back), expected);
}

#[test]
fn value_signatures_of_containers() {
    assert_eq!(value_signature(&dict_value()), "a{sv}");
    let s = Value::Struct(vec![Value::Uint16(1), Value::Variant(Box::new(Value::Int16(2)))]);
    assert_eq!(value_signature(&s), "(qv)");
    assert_eq!(value_signature(&Value::Signature("g".to_string())), "g");
}
