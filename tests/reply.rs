use dbus_dispatch::codec::{Native, Value};
use dbus_dispatch::descriptor::{InterfaceDescriptor, MethodDescriptor, PropertyDescriptor, Registry, SignalDescriptor};
use dbus_dispatch::introspect::{decimal_text, introspect_reply, introspection};
use dbus_dispatch::reply::{get_all_reply, get_reply, handler_error, method_reply, readable_properties, set_reply};
use dbus_dispatch::dispatch::Reply;

fn properties() -> InterfaceDescriptor {
    let mut props = InterfaceDescriptor::new("org.example.properties");
    props.add_property(PropertyDescriptor::new("Greeting", "s", true, false).unwrap());
    props
}

#[test]
fn get_all_single_string_property() {
    let iface = properties();
    let reply = get_all_reply(&iface.properties, vec![Ok(Native::String("hello".to_string()))]);
    match reply {
        Reply::Return(values) => {
            assert_eq!(values.len(), 1);
            match &values[0] {
                Value::Array(items, sig) => {
                    assert_eq!(sig, "v");
                    assert_eq!(items.len(), 1);
                    match &items[0] {
                        Value::Variant(inner) => {
                            assert!(matches!(inner.as_ref(), Value::String(s) if s == "hello"))
                        }
                        other => panic!("unexpected {:?}", other),
                    }
                }
                other => panic!("unexpected {:?}", other),
            }
        }
        other => panic!("unexpected {:?}", other),
    }
}

#[test]
fn get_all_skips_write_only_and_stops_at_error() {
    let mut iface = properties();
    iface.add_property(PropertyDescriptor::new("Secret", "i", false, true).unwrap());
    iface.add_property(PropertyDescriptor::new("Level", "u", true, true).unwrap());
    let reply = get_all_reply(
        &iface.properties,
        vec![Ok(Native::String("a".to_string())), Err(("org.example.Error.Late".to_string(), "late".to_string()))],
    );
    match reply {
        Reply::Error { name, message } => {
            assert_eq!(name, "org.example.Error.Late");
            assert_eq!(message, "late");
        }
        other => panic!("unexpected {:?}", other),
    }
    let reply = get_all_reply(&iface.properties, vec![Ok(Native::String("a".to_string())), Ok(Native::Uint32(5))]);
    match reply {
        Reply::Return(values) => match &values[0] {
            Value::Array(items, _) => {
                assert_eq!(items.len(), 2);
                assert!(matches!(&items[1], Value::Variant(v) if matches!(v.as_ref(), Value::Uint32(5))));
            }
            other => panic!("unexpected {:?}", other),
        },
        other => panic!("unexpected {:?}", other),
    }
}

#[test]
fn handler_error_is_passed_on() {
    let m = MethodDescriptor::new("Call", "s", "i").unwrap();
    let reply = method_reply(&m.outputs, Err(("org.example.Error.Name".to_string(), "boom".to_string())));
    match reply {
        Reply::Error { name, message } => {
            assert_eq!(name, "org.example.Error.Name");
            assert_eq!(message, "boom");
        }
        other => panic!("expected an error reply, got {:?}", other),
    }
    match handler_error("a.b".to_string(), "c".to_string()) {
        Reply::Error { name, message } => assert_eq!((name.as_str(), message.as_str()), ("a.b", "c")),
        other => panic!("unexpected {:?}", other),
    }
}

#[test]
fn method_reply_encodes_outputs() {
    let none = MethodDescriptor::new("A", "", "").unwrap();
    assert!(matches!(method_reply(&none.outputs, Ok(Native::Struct(vec![]))), Reply::Return(v) if v.is_empty()));
    let one = MethodDescriptor::new("B", "", "ai").unwrap();
    match method_reply(&one.outputs, Ok(Native::Array(vec![Native::Int32(1)]))) {
        Reply::Return(v) => {
            assert_eq!(v.len(), 1);
            assert!(matches!(&v[0], Value::Array(xs, s) if xs.len() == 1 && s == "i"));
        }
        other => panic!("unexpected {:?}", other),
    }
    let two = MethodDescriptor::new("C", "", "sb").unwrap();
    match method_reply(&two.outputs, Ok(Native::Struct(vec![Native::String("x".to_string()), Native::Boolean(true)]))) {
        Reply::Return(v) => {
            assert_eq!(v.len(), 2);
            assert!(matches!(&v[0], Value::String(s) if s == "x"));
            assert!(matches!(v[1], Value::Boolean(true)));
        }
        other => panic!("unexpected {:?}", other),
    }
}

#[test]
fn get_and_set_replies() {
    let p = PropertyDescriptor::new("Level", "u", true, true).unwrap();
    match get_reply(&p, Ok(Native::Uint32(9))) {
        Reply::Return(v) => {
            assert_eq!(v.len(), 1);
            assert!(matches!(&v[0], Value::Variant(x) if matches!(x.as_ref(), Value::Uint32(9))));
        }
        other => panic!("unexpected {:?}", other),
    }
    assert!(matches!(set_reply(Ok(())), Reply::Return(v) if v.is_empty()));
    assert!(matches!(set_reply(Err(("e.f".to_string(), "g".to_string()))), Reply::Error { .. }));
}

#[test]
fn introspection_document() {
    let mut iface = InterfaceDescriptor::new("org.example.Iface");
    iface.add_method(MethodDescriptor::new("Call", "su", "i").unwrap());
    iface.add_property(PropertyDescriptor::new("Level", "u", true, true).unwrap());
    iface.add_property(PropertyDescriptor::new("Secret", "i", false, true).unwrap());
    iface.add_signal(SignalDescriptor::new("Changed", "sv").unwrap());
    let reg = Registry::new(vec![iface], true).unwrap();
    let xml = introspection(&reg, &vec!["child".to_string()]);
    assert!(xml.starts_with("\n<!DOCTYPE node PUBLIC"));
    assert!(xml.contains("<interface name=\"org.freedesktop.DBus.Properties\">"));
    let expected = [
        "  <interface name=\"org.example.Iface\">\n",
        "    <method name=\"Call\">\n",
        "      <arg type=\"s\" name=\"arg_0\" direction=\"in\"/>\n",
        "      <arg type=\"u\" name=\"arg_1\" direction=\"in\"/>\n",
        "      <arg type=\"i\" name=\"arg_2\" direction=\"out\"/>\n",
        "    </method>\n",
        "    <property type=\"u\" name=\"Level\" access=\"readwrite\"/>\n",
        "    <property type=\"i\" name=\"Secret\" access=\"write\"/>\n",
        "    <signal name=\"Changed\">\n",
        "      <arg type=\"s\"/>\n",
        "      <arg type=\"v\"/>\n",
        "    </signal>\n",
        "  </interface>\n",
        "  <node name=\"child\"/>\n",
        "</node>",
    ]
    .concat();
    assert!(xml.ends_with(&expected), "{}", xml);
    match introspect_reply(&reg, &vec![]) {
        Reply::Return(v) => assert!(matches!(&v[0], Value::String(s) if s.ends_with("  </interface>\n</node>"))),
        other => panic!("unexpected {:?}", other),
    }
}

#[test]
fn introspection_without_properties() {
    let reg = Registry::new(vec![], true).unwrap();
    let xml = introspection(&reg, &vec![]);
    assert!(!xml.contains("org.freedesktop.DBus.Properties"));
    assert!(xml.ends_with("   </interface>\n</node>"));
}

#[test]
fn decimal_numbers() {
    assert_eq!(decimal_text(0), "0");
    assert_eq!(decimal_text(7), "7");
    assert_eq!(decimal_text(10), "10");
    assert_eq!(decimal_text(1234567890), "1234567890");
}

#[test]
fn readable_positions_in_order() {
    let mut iface = properties();
    iface.add_property(PropertyDescriptor::new("Secret", "i", false, true).unwrap());
    iface.add_property(PropertyDescriptor::new("Level", "u", true, true).unwrap());
    assert_eq!(readable_properties(&iface.properties), vec![0, 2]);
    assert_eq!(readable_properties(&vec![]), Vec::<usize>::new());
}
