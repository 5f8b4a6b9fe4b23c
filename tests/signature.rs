use dbus_dispatch::signature::{parse_signature, signatures, SignatureError, SignatureIterator, TypeNode};

#[test]
fn parse_dict_round_trips() {
    let nodes = parse_signature("a{sv}").unwrap();
    assert_eq!(nodes.len(), 1);
    assert_eq!(nodes[0].signature(), "a{sv}");
    match &nodes[0] {
        TypeNode::Array(e) => match e.as_ref() {
            TypeNode::DictEntry(k, v) => {
                assert!(matches!(k.as_ref(), TypeNode::String));
                assert!(matches!(v.as_ref(), TypeNode::Variant));
            }
            other => panic!("unexpected element {:?}", other),
        },
        other => panic!("unexpected node {:?}", other),
    }
}

#[test]
fn parse_several_types_round_trips() {
    let text = "(is)asa(yb)a{oa{gt}}xqnuhv";
    // `h` is no type of the grammar: the whole string is refused
    assert_eq!(parse_signature(text).unwrap_err(), SignatureError::UnknownSignature('h'));
    let text = "(is)asa(yb)a{oa{gt}}xqnuv";
    let nodes = parse_signature(text).unwrap();
    assert_eq!(nodes.len(), 9);
    assert_eq!(signatures(&nodes), text);
    assert_eq!(nodes[0].signature(), "(is)");
    assert_eq!(nodes[3].signature(), "a{oa{gt}}");
}

#[test]
fn parse_empty_signature() {
    let nodes = parse_signature("").unwrap();
    assert!(nodes.is_empty());
    assert_eq!(signatures(&nodes), "");
}

#[test]
fn parse_errors() {
    assert_eq!(parse_signature("a").unwrap_err(), SignatureError::ArrayWasLast);
    assert_eq!(parse_signature("ia").unwrap_err(), SignatureError::ArrayWasLast);
    assert_eq!(parse_signature("()").unwrap_err(), SignatureError::StructIsEmpty);
    assert_eq!(parse_signature("(i").unwrap_err(), SignatureError::StructNotClosed);
    assert_eq!(parse_signature("(").unwrap_err(), SignatureError::StructNotClosed);
    assert_eq!(parse_signature("a{sv").unwrap_err(), SignatureError::DictEntryNotClosed);
    assert_eq!(parse_signature("a{svs}").unwrap_err(), SignatureError::DictEntryNotClosed);
    assert_eq!(parse_signature("a{").unwrap_err(), SignatureError::MissingKeyType);
    assert_eq!(parse_signature("a{s").unwrap_err(), SignatureError::MissingValueType);
    assert_eq!(parse_signature("a{sa").unwrap_err(), SignatureError::ArrayWasLast);
    assert_eq!(parse_signature("z").unwrap_err(), SignatureError::UnknownSignature('z'));
    assert_eq!(parse_signature("(iz)").unwrap_err(), SignatureError::UnknownSignature('z'));
}

#[test]
fn iterator_yields_one_type_at_a_time() {
    let mut iter = SignatureIterator::new("ia(s)");
    assert_eq!(iter.next().unwrap().unwrap().signature(), "i");
    assert_eq!(iter.next().unwrap().unwrap().signature(), "a(s)");
    assert!(iter.next().is_none());
    assert!(iter.next().is_none());
}

#[test]
fn iterator_reports_error_in_place() {
    let mut iter = SignatureIterator::new("y)");
    assert_eq!(iter.next().unwrap().unwrap().signature(), "y");
    assert_eq!(iter.next().unwrap().unwrap_err(), SignatureError::UnknownSignature(')'));
}

#[test]
fn dict_entry_only_inside_array() {
    for text in ["{sv}", "(i{sv})", "{", "{sv", "ia{sv}{sv}"] {
        assert_eq!(parse_signature(text).unwrap_err(), SignatureError::DictEntryOutsideArray, "{}", text);
    }
    let mut iter = SignatureIterator::new("{sv}");
    assert_eq!(iter.next().unwrap().unwrap_err(), SignatureError::DictEntryOutsideArray);
}

#[test]
fn dict_key_must_be_basic() {
    for text in ["a{(i)s}", "a{ais}", "a{a{ss}s}", "a{{ss}s}"] {
        assert_eq!(parse_signature(text).unwrap_err(), SignatureError::DictKeyNotBasic, "{}", text);
    }
    let nodes = parse_signature("a{ya{sv}}").unwrap();
    assert_eq!(signatures(&nodes), "a{ya{sv}}");
}
