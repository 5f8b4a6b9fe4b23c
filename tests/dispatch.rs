use dbus_dispatch::codec::{Native, Value};
use dbus_dispatch::descriptor::{
    DescriptorError, InterfaceDescriptor, MethodDescriptor, PropertyDescriptor, Registry,
    SignalDescriptor,
};
use dbus_dispatch::dispatch::{dispatch, value_signatures, Action, Message, MessageType, Reply};
use dbus_dispatch::signature::SignatureError;

fn registry(introspectable: bool) -> Registry {
    let mut iface = InterfaceDescriptor::new("org.example.Iface");
    iface.add_method(MethodDescriptor::new("Call", "su", "i").unwrap());
    iface.add_method(MethodDescriptor::new("Ping", "", "").unwrap());
    iface.add_signal(SignalDescriptor::new("Changed", "sv").unwrap());
    let mut props = InterfaceDescriptor::new("org.example.properties");
    props.add_property(PropertyDescriptor::new("Name", "s", true, false).unwrap());
    props.add_property(PropertyDescriptor::new("Secret", "i", false, true).unwrap());
    props.add_property(PropertyDescriptor::new("Level", "u", true, true).unwrap());
    Registry::new(vec![iface, props], introspectable).unwrap()
}

fn call(interface: Option<&str>, member: Option<&str>, signature: Option<&str>, body: Vec<Value>) -> Message {
    Message {
        message_type: MessageType::MethodCall,
        interface: interface.map(|s| s.to_string()),
        member: member.map(|s| s.to_string()),
        signature: signature.map(|s| s.to_string()),
        body,
    }
}

fn text(s: &str) -> Value {
    Value::String(s.to_string())
}

fn invalid_args(a: Action) -> String {
    match a {
        Action::Send(Reply::InvalidArgs(t)) => t,
        other => panic!("expected InvalidArgs, got {:?}", other),
    }
}

fn error(a: Action) -> (String, String) {
    match a {
        Action::Send(Reply::Error { name, message }) => (name, message),
        other => panic!("expected an error reply, got {:?}", other),
    }
}

const PROPS: &str = "org.freedesktop.DBus.Properties";

#[test]
fn method_call_decodes_arguments() {
    let reg = registry(true);
    let msg = call(Some("org.example.Iface"), Some("Call"), Some("su"), vec![text("a"), Value::Uint32(4)]);
    match dispatch(&reg, msg) {
        Action::CallMethod { interface, method, args } => {
            assert_eq!((interface, method), (0, 0));
            assert_eq!(args.len(), 2);
            assert!(matches!(&args[0], Native::String(s) if s == "a"));
            assert!(matches!(args[1], Native::Uint32(4)));
        }
        other => panic!("unexpected {:?}", other),
    }
}

#[test]
fn signature_mismatch_is_invalid_args() {
    let reg = registry(true);
    let msg = call(Some("org.example.Iface"), Some("Call"), Some("s"), vec![text("a")]);
    assert_eq!(invalid_args(dispatch(&reg, msg)), "signature mismatch: expected su got s");
    let msg = call(Some("org.example.Iface"), Some("Call"), None, vec![]);
    assert_eq!(invalid_args(dispatch(&reg, msg)), "signature mismatch: expected su");
    let msg = call(Some("org.example.Iface"), Some("Ping"), Some("i"), vec![Value::Int32(1)]);
    assert_eq!(invalid_args(dispatch(&reg, msg)), "too many arguments: got i");
}

#[test]
fn body_disagreeing_with_header_is_invalid_args() {
    let reg = registry(true);
    let msg = call(Some("org.example.Iface"), Some("Call"), Some("su"), vec![text("a"), Value::Int32(4)]);
    assert_eq!(invalid_args(dispatch(&reg, msg)), "signature mismatch: expected u got i");
    let msg = call(Some("org.example.Iface"), Some("Call"), Some("su"), vec![text("a")]);
    assert_eq!(invalid_args(dispatch(&reg, msg)), "signature mismatch: expected u");
    let msg = call(
        Some("org.example.Iface"),
        Some("Call"),
        Some("su"),
        vec![text("a"), Value::Uint32(1), Value::Byte(2), Value::Boolean(true)],
    );
    assert_eq!(invalid_args(dispatch(&reg, msg)), "too many arguments: got yb");
}

#[test]
fn zero_input_method_without_signature() {
    let reg = registry(true);
    let msg = call(Some("org.example.Iface"), Some("Ping"), None, vec![]);
    assert!(matches!(dispatch(&reg, msg), Action::CallMethod { interface: 0, method: 1, .. }));
}

#[test]
fn non_method_calls_are_ignored() {
    let reg = registry(true);
    let mut msg = call(Some("org.example.Iface"), Some("Call"), None, vec![]);
    msg.message_type = MessageType::Signal;
    assert!(matches!(dispatch(&reg, msg), Action::Ignore));
}

#[test]
fn missing_interface_and_member() {
    let reg = registry(true);
    let (name, message) = error(dispatch(&reg, call(None, Some("Call"), None, vec![])));
    assert_eq!(name, "org.freedesktop.DBus.Error.Interface");
    assert_eq!(message, "Message does not have a interface");
    let (name, _) = error(dispatch(&reg, call(Some("org.example.Iface"), None, None, vec![])));
    assert_eq!(name, "org.freedesktop.DBus.Error.Member");
    let reply = dispatch(&reg, call(Some("org.example.Iface"), Some("Nope"), None, vec![]));
    assert!(matches!(reply, Action::Send(Reply::UnknownMember)));
}

#[test]
fn unknown_interface_and_introspect() {
    let reg = registry(true);
    let msg = call(Some("org.example.Other"), Some("Introspect"), None, vec![]);
    assert!(matches!(dispatch(&reg, msg), Action::Introspect));
    let msg = call(Some("org.freedesktop.DBus.Introspectable"), Some("Introspect"), None, vec![]);
    assert!(matches!(dispatch(&reg, msg), Action::Introspect));
    let msg = call(Some("org.example.Other"), Some("Call"), None, vec![]);
    assert!(matches!(dispatch(&reg, msg), Action::Send(Reply::UnknownInterface)));
    let reg = registry(false);
    let msg = call(Some("org.example.Other"), Some("Introspect"), None, vec![]);
    assert!(matches!(dispatch(&reg, msg), Action::Send(Reply::UnknownInterface)));
}

#[test]
fn get_write_only_property() {
    let reg = registry(true);
    let msg = call(Some(PROPS), Some("Get"), Some("ss"), vec![text("org.example.properties"), text("Secret")]);
    let (name, message) = error(dispatch(&reg, msg));
    assert_eq!(name, "org.freedesktop.DBus.Error.Property");
    assert_eq!(message, "This property is write only");
}

#[test]
fn get_readable_property() {
    let reg = registry(true);
    let msg = call(Some(PROPS), Some("Get"), Some("ss"), vec![text("org.example.properties"), text("Level")]);
    assert!(matches!(dispatch(&reg, msg), Action::GetProperty { interface: 1, property: 2 }));
    let msg = call(Some(PROPS), Some("Get"), Some("ss"), vec![text("org.example.properties"), text("Nope")]);
    match dispatch(&reg, msg) {
        Action::Send(Reply::UnknownProperty(p)) => assert_eq!(p, "Nope"),
        other => panic!("unexpected {:?}", other),
    }
    let msg = call(Some(PROPS), Some("Get"), Some("ss"), vec![text("org.example.None"), text("Level")]);
    assert!(matches!(dispatch(&reg, msg), Action::Send(Reply::UnknownInterface)));
    let msg = call(Some(PROPS), Some("Get"), Some("s"), vec![text("org.example.properties")]);
    assert_eq!(invalid_args(dispatch(&reg, msg)), "signature mismatch: expected ss got s");
}

#[test]
fn get_all_and_unknown_member() {
    let reg = registry(true);
    let msg = call(Some(PROPS), Some("GetAll"), Some("s"), vec![text("org.example.properties")]);
    assert!(matches!(dispatch(&reg, msg), Action::GetAll { interface: 1 }));
    let msg = call(Some(PROPS), Some("Frobnicate"), None, vec![]);
    assert!(matches!(dispatch(&reg, msg), Action::Send(Reply::UnknownMember)));
}

#[test]
fn set_property() {
    let reg = registry(true);
    let args = |p: &str, v: Value| vec![text("org.example.properties"), text(p), Value::Variant(Box::new(v))];
    let msg = call(Some(PROPS), Some("Set"), Some("ssv"), args("Level", Value::Uint32(3)));
    match dispatch(&reg, msg) {
        Action::SetProperty { interface, property, value } => {
            assert_eq!((interface, property), (1, 2));
            assert!(matches!(value, Native::Uint32(3)));
        }
        other => panic!("unexpected {:?}", other),
    }
    let msg = call(Some(PROPS), Some("Set"), Some("ssv"), args("Name", text("x")));
    let (name, message) = error(dispatch(&reg, msg));
    assert_eq!(name, "org.freedesktop.DBus.Error.Property");
    assert_eq!(message, "This property is read only");
    let msg = call(Some(PROPS), Some("Set"), Some("ssv"), args("Level", text("x")));
    assert_eq!(invalid_args(dispatch(&reg, msg)), "signature mismatch: expected u got s");
}

#[test]
fn properties_interface_needs_a_property() {
    let mut iface = InterfaceDescriptor::new("org.example.Iface");
    iface.add_method(MethodDescriptor::new("Ping", "", "").unwrap());
    let reg = Registry::new(vec![iface], true).unwrap();
    let msg = call(Some(PROPS), Some("GetAll"), Some("s"), vec![text("org.example.Iface")]);
    assert!(matches!(dispatch(&reg, msg), Action::Send(Reply::UnknownInterface)));
}

#[test]
fn descriptor_errors() {
    assert!(matches!(
        MethodDescriptor::new("M", "a", ""),
        Err(DescriptorError::Signature(SignatureError::ArrayWasLast))
    ));
    assert!(matches!(
        MethodDescriptor::new("M", "i", "()"),
        Err(DescriptorError::Signature(SignatureError::StructIsEmpty))
    ));
    assert!(matches!(PropertyDescriptor::new("P", "ii", true, true), Err(DescriptorError::PropertyNotOneType)));
    assert!(matches!(PropertyDescriptor::new("P", "", true, true), Err(DescriptorError::PropertyNotOneType)));
    assert!(matches!(PropertyDescriptor::new("P", "i", false, false), Err(DescriptorError::PropertyWithoutAccess)));
    assert!(matches!(
        PropertyDescriptor::new("P", "q(", true, false),
        Err(DescriptorError::PropertyNotOneType)
    ));
    assert!(matches!(
        PropertyDescriptor::new("P", "(", true, false),
        Err(DescriptorError::Signature(SignatureError::StructNotClosed))
    ));
    let a = InterfaceDescriptor::new("org.example.A");
    let b = InterfaceDescriptor::new("org.example.B");
    let c = InterfaceDescriptor::new("org.example.A");
    match Registry::new(vec![a, b, c], true) {
        Err(DescriptorError::DuplicateInterface(n)) => assert_eq!(n, "org.example.A"),
        other => panic!("unexpected {:?}", other.err()),
    }
}

#[test]
fn signatures_of_remaining_values() {
    assert_eq!(value_signatures(&vec![Value::Byte(1), text("a"), Value::Struct(vec![Value::Int64(2)])]), "ys(x)");
}
