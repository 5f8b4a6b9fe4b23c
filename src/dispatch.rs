//! The dispatcher: validates one incoming call and decides what is done with
//! it. Handlers run outside; their results come back to the functions that
//! build the replies.
use vstd::prelude::*;
use crate::signature::{TypeNode, sig, sigs, signatures};
use crate::codec::{
    Value, Native, CodecError, Failure, decode, decodes, members_failure, value_sigs,
    value_signature,
};
use crate::descriptor::{Registry, InterfaceDescriptor};

verus! {

broadcast use vstd::std_specs::vec::group_vec_axioms;

/// The text of an InvalidArgs reply for a value of the wrong type.
pub open spec fn mismatch_text(expected: Seq<char>, got: Seq<char>) -> Seq<char> {
    "signature mismatch: expected "@ + expected + " got "@ + got
}

/// The text of an InvalidArgs reply for a value that is missing.
pub open spec fn missing_text(expected: Seq<char>) -> Seq<char> {
    "signature mismatch: expected "@ + expected
}

/// The text of an InvalidArgs reply for values past the last argument.
pub open spec fn too_many_text(got: Seq<char>) -> Seq<char> {
    "too many arguments: got "@ + got
}

/// The text that reports a decode failure.
pub open spec fn failure_text(f: Failure) -> Seq<char> {
    match f {
        Failure::Mismatch(expected, got) => mismatch_text(expected, got),
        Failure::Missing(expected) => missing_text(expected),
    }
}

/// The text of an optional string.
pub open spec fn opt_view(o: Option<String>) -> Option<Seq<char>> {
    match o {
        Some(s) => Some(s@),
        None => None,
    }
}

/// Why the arguments of a call do not fit the types `ts`, as the text of an
/// InvalidArgs reply; `None` when they fit. The header's signature is checked
/// first: with no arguments declared it must be absent, else it must equal
/// their signature. Then the body is decoded positionally, and no value may
/// remain.
pub open spec fn args_error(ts: Seq<TypeNode>, signature: Option<Seq<char>>, body: Seq<Value>) -> Option<Seq<char>> {
    let expected = sigs(ts);
    if expected.len() == 0 && signature is Some {
        Some(too_many_text(signature->0))
    } else if expected.len() != 0 && signature is None {
        Some(missing_text(expected))
    } else if expected.len() != 0 && signature->0 != expected {
        Some(mismatch_text(expected, signature->0))
    } else {
        body_error(ts, body)
    }
}

/// Why a body does not decode positionally as the types `ts` with no value
/// left over, as the text of an InvalidArgs reply.
pub open spec fn body_error(ts: Seq<TypeNode>, body: Seq<Value>) -> Option<Seq<char>> {
    match members_failure(ts, body) {
        Some(f) => Some(failure_text(f)),
        None => if body.len() > ts.len() {
            Some(too_many_text(value_sigs(body.subrange(ts.len() as int, body.len() as int))))
        } else {
            None
        },
    }
}

fn mismatch_message(expected: &String, got: &String) -> (r: String)
    ensures
        r@ == mismatch_text(expected@, got@),
{
    let mut r = String::from_str("signature mismatch: expected ");
    r.append(expected.as_str());
    r.append(" got ");
    r.append(got.as_str());
    r
}

fn missing_message(expected: &String) -> (r: String)
    ensures
        r@ == missing_text(expected@),
{
    let mut r = String::from_str("signature mismatch: expected ");
    r.append(expected.as_str());
    r
}

fn too_many_message(got: &String) -> (r: String)
    ensures
        r@ == too_many_text(got@),
{
    let mut r = String::from_str("too many arguments: got ");
    r.append(got.as_str());
    r
}

impl CodecError {
    /// The text of the InvalidArgs reply that reports this error.
    pub fn message(&self) -> (r: String)
        ensures
            r@ == failure_text(self.failure()),
    {
        match self {
            CodecError::Mismatch { expected, actual } => mismatch_message(expected, actual),
            CodecError::MissingValue { expected } => missing_message(expected),
        }
    }
}

/// The signatures of a sequence of values, one after the other.
pub fn value_signatures(values: &Vec<Value>) -> (r: String)
    ensures
        r@ == value_sigs(values@),
{
    let mut r = String::new();
    let mut i: usize = 0;
    while i < values.len()
        invariant
            0 <= i <= values@.len(),
            r@ == value_sigs(values@.subrange(0, i as int)),
        decreases values@.len() - i,
    {
        let inner = value_signature(&values[i]);
        r.append(inner.as_str());
        assert(values@.subrange(0, i + 1).drop_last() =~= values@.subrange(0, i as int));
        i = i + 1;
    }
    assert(values@.subrange(0, i as int) =~= values@);
    r
}

/// Checks the arguments of a call against the types `ts` and decodes them.
pub fn decode_args(ts: &Vec<TypeNode>, signature: &Option<String>, body: Vec<Value>) -> (r: Result<Vec<Native>, String>)
    ensures
        match r {
            Err(t) => args_error(ts@, opt_view(*signature), body@) == Some(t@),
            Ok(a) => {
                &&& args_error(ts@, opt_view(*signature), body@) is None
                &&& a@.len() == ts@.len()
                &&& forall|k: int| 0 <= k < ts@.len() ==> decodes(#[trigger] ts@[k], body@[k], a@[k])
            },
        },
{
    let expected = signatures(ts);
    let empty = expected.as_str().unicode_len() == 0;
    match signature {
        Some(s) => {
            if empty {
                return Err(too_many_message(s));
            }
            if !(*s == expected) {
                return Err(mismatch_message(&expected, s));
            }
        },
        None => {
            if !empty {
                return Err(missing_message(&expected));
            }
        },
    }
    let ghost orig = body@;
    let mut rest = body;
    let mut out: Vec<Native> = Vec::new();
    let mut i: usize = 0;
    assert(ts@.subrange(0, ts@.len() as int) =~= ts@);
    assert(orig.subrange(0, orig.len() as int) =~= orig);
    while i < ts.len()
        invariant
            orig == body@,
            args_error(ts@, opt_view(*signature), orig) == body_error(ts@, orig),
            0 <= i <= ts@.len(),
            i <= orig.len(),
            out@.len() == i,
            rest@ == orig.subrange(i as int, orig.len() as int),
            forall|j: int| 0 <= j < i ==> decodes(#[trigger] ts@[j], orig[j], out@[j]),
            members_failure(ts@, orig) == members_failure(
                ts@.subrange(i as int, ts@.len() as int),
                rest@,
            ),
        decreases ts@.len() - i,
    {
        let ghost tail = ts@.subrange(i as int, ts@.len() as int);
        assert(tail[0] == ts@[i as int]);
        assert(tail.drop_first() =~= ts@.subrange(i + 1, ts@.len() as int));
        if rest.len() == 0 {
            return Err(missing_message(&ts[i].signature()));
        }
        let ghost before = rest@;
        let item = rest.remove(0);
        assert(before.drop_first() =~= rest@);
        assert(rest@ =~= orig.subrange(i + 1, orig.len() as int));
        match decode(&ts[i], item) {
            Ok(n) => {
                out.push(n);
            },
            Err(x) => {
                return Err(x.message());
            },
        }
        i = i + 1;
    }
    assert(ts@.subrange(i as int, ts@.len() as int) =~= Seq::<TypeNode>::empty());
    if rest.len() > 0 {
        return Err(too_many_message(&value_signatures(&rest)));
    }
    Ok(out)
}


/// `i` is the first position of `name` in `names`.
pub open spec fn first_match(names: Seq<Seq<char>>, name: Seq<char>, i: int) -> bool {
    &&& 0 <= i < names.len()
    &&& names[i] == name
    &&& forall|j: int| 0 <= j < i ==> names[j] != name
}

/// The first position of `name` in `names`.
pub open spec fn lookup(names: Seq<Seq<char>>, name: Seq<char>) -> Option<int> {
    if exists|i: int| first_match(names, name, i) {
        Some(choose|i: int| first_match(names, name, i))
    } else {
        None
    }
}

/// The names of the interfaces of a registry, in order.
pub open spec fn interface_names(reg: Registry) -> Seq<Seq<char>> {
    reg.interfaces@.map_values(|x: InterfaceDescriptor| x.name@)
}

/// The names of the methods of an interface, in order.
pub open spec fn method_names(iface: InterfaceDescriptor) -> Seq<Seq<char>> {
    iface.methods@.map_values(|x: crate::descriptor::MethodDescriptor| x.name@)
}

/// The names of the properties of an interface, in order.
pub open spec fn property_names(iface: InterfaceDescriptor) -> Seq<Seq<char>> {
    iface.properties@.map_values(|x: crate::descriptor::PropertyDescriptor| x.name@)
}

proof fn lemma_lookup_found(names: Seq<Seq<char>>, name: Seq<char>, i: int)
    requires
        first_match(names, name, i),
    ensures
        lookup(names, name) == Some(i),
{
    let c = choose|c: int| first_match(names, name, c);
    if c < i {
        assert(names[c] != name);
    } else if i < c {
        assert(names[i] != name);
    }
}

proof fn lemma_lookup_absent(names: Seq<Seq<char>>, name: Seq<char>)
    requires
        forall|j: int| 0 <= j < names.len() ==> names[j] != name,
    ensures
        lookup(names, name) is None,
{
}

fn find_interface(reg: &Registry, name: &String) -> (r: Option<usize>)
    ensures
        match r {
            Some(i) => lookup(interface_names(*reg), name@) == Some(i as int),
            None => lookup(interface_names(*reg), name@) is None,
        },
{
    let ghost names = interface_names(*reg);
    let mut i: usize = 0;
    while i < reg.interfaces.len()
        invariant
            names == interface_names(*reg),
            names.len() == reg.interfaces@.len(),
            0 <= i <= names.len(),
            forall|j: int| 0 <= j < i ==> names[j] != name@,
        decreases names.len() - i,
    {
        if reg.interfaces[i].name == *name {
            proof {
                lemma_lookup_found(names, name@, i as int);
            }
            return Some(i);
        }
        i = i + 1;
    }
    proof {
        lemma_lookup_absent(names, name@);
    }
    None
}

fn find_method(iface: &InterfaceDescriptor, name: &String) -> (r: Option<usize>)
    ensures
        match r {
            Some(i) => lookup(method_names(*iface), name@) == Some(i as int),
            None => lookup(method_names(*iface), name@) is None,
        },
{
    let ghost names = method_names(*iface);
    let mut i: usize = 0;
    while i < iface.methods.len()
        invariant
            names == method_names(*iface),
            names.len() == iface.methods@.len(),
            0 <= i <= names.len(),
            forall|j: int| 0 <= j < i ==> names[j] != name@,
        decreases names.len() - i,
    {
        if iface.methods[i].name == *name {
            proof {
                lemma_lookup_found(names, name@, i as int);
            }
            return Some(i);
        }
        i = i + 1;
    }
    proof {
        lemma_lookup_absent(names, name@);
    }
    None
}

fn find_property(iface: &InterfaceDescriptor, name: &String) -> (r: Option<usize>)
    ensures
        match r {
            Some(i) => lookup(property_names(*iface), name@) == Some(i as int),
            None => lookup(property_names(*iface), name@) is None,
        },
{
    let ghost names = property_names(*iface);
    let mut i: usize = 0;
    while i < iface.properties.len()
        invariant
            names == property_names(*iface),
            names.len() == iface.properties@.len(),
            0 <= i <= names.len(),
            forall|j: int| 0 <= j < i ==> names[j] != name@,
        decreases names.len() - i,
    {
        if iface.properties[i].name == *name {
            proof {
                lemma_lookup_found(names, name@, i as int);
            }
            return Some(i);
        }
        i = i + 1;
    }
    proof {
        lemma_lookup_absent(names, name@);
    }
    None
}


/// The kind of an incoming message.
#[derive(PartialEq, Eq, Structural, Clone, Copy, Debug)]
pub enum MessageType {
    MethodCall,
    MethodReturn,
    Error,
    Signal,
}

/// An incoming message: its header fields, each of which may be absent, and
/// its body.
pub struct Message {
    pub message_type: MessageType,
    pub interface: Option<String>,
    pub member: Option<String>,
    pub signature: Option<String>,
    pub body: Vec<Value>,
}

/// A reply to send for a call.
#[derive(Debug)]
pub enum Reply {
    /// A method return carrying these values.
    Return(Vec<Value>),
    /// An error reply of this name and message.
    Error { name: String, message: String },
    /// The standard invalid-arguments error, with its message.
    InvalidArgs(String),
    /// The standard unknown-interface error.
    UnknownInterface,
    /// The standard unknown-member error.
    UnknownMember,
    /// The standard unknown-property error, for this property name.
    UnknownProperty(String),
}

/// What is to be done with an incoming message.
#[derive(Debug)]
pub enum Action {
    /// Nothing: the message is no method call.
    Ignore,
    /// Send this reply, and nothing else.
    Send(Reply),
    /// Call the handler of a method with the decoded arguments.
    CallMethod { interface: usize, method: usize, args: Vec<Native> },
    /// Call the getter of a property.
    GetProperty { interface: usize, property: usize },
    /// Call the getters of every readable property of an interface.
    GetAll { interface: usize },
    /// Call the setter of a property with the decoded value.
    SetProperty { interface: usize, property: usize, value: Native },
    /// List the children of the object path and reply with the XML.
    Introspect,
}

/// What is decided about a message, over plain values.
pub enum Outcome {
    Ignore,
    Return,
    Error(Seq<char>, Seq<char>),
    InvalidArgs(Seq<char>),
    UnknownInterface,
    UnknownMember,
    UnknownProperty(Seq<char>),
    CallMethod(int, int),
    GetProperty(int, int),
    GetAll(int),
    SetProperty(int, int),
    Introspect,
}

impl Reply {
    /// What this reply decides, over plain values.
    pub open spec fn outcome(self) -> Outcome {
        match self {
            Reply::Return(_) => Outcome::Return,
            Reply::Error { name, message } => Outcome::Error(name@, message@),
            Reply::InvalidArgs(t) => Outcome::InvalidArgs(t@),
            Reply::UnknownInterface => Outcome::UnknownInterface,
            Reply::UnknownMember => Outcome::UnknownMember,
            Reply::UnknownProperty(p) => Outcome::UnknownProperty(p@),
        }
    }
}

impl Action {
    /// What this action decides, over plain values.
    pub open spec fn outcome(self) -> Outcome {
        match self {
            Action::Ignore => Outcome::Ignore,
            Action::Send(reply) => reply.outcome(),
            Action::CallMethod { interface, method, .. } => Outcome::CallMethod(
                interface as int,
                method as int,
            ),
            Action::GetProperty { interface, property } => Outcome::GetProperty(
                interface as int,
                property as int,
            ),
            Action::GetAll { interface } => Outcome::GetAll(interface as int),
            Action::SetProperty { interface, property, .. } => Outcome::SetProperty(
                interface as int,
                property as int,
            ),
            Action::Introspect => Outcome::Introspect,
        }
    }
}

/// The name of the built-in properties interface.
pub open spec fn properties_interface() -> Seq<char> {
    "org.freedesktop.DBus.Properties"@
}

/// The error for a call without an interface.
pub open spec fn no_interface() -> Outcome {
    Outcome::Error("org.freedesktop.DBus.Error.Interface"@, "Message does not have a interface"@)
}

/// The error for a call without a member.
pub open spec fn no_member() -> Outcome {
    Outcome::Error("org.freedesktop.DBus.Error.Member"@, "Message does not have a member"@)
}

/// The error for a property access that the property does not allow.
pub open spec fn property_error(message: Seq<char>) -> Outcome {
    Outcome::Error("org.freedesktop.DBus.Error.Property"@, message)
}

/// Some interface of the registry has a property.
pub open spec fn has_properties(reg: Registry) -> bool {
    exists|i: int| 0 <= i < reg.interfaces@.len() && reg.interfaces@[i].properties@.len() > 0
}

/// The text of a string value.
pub open spec fn text_of(v: Value) -> Seq<char> {
    v->String_0@
}

/// The interface named `iface`, and its property named `prop`.
pub open spec fn property_of(reg: Registry, iface: Seq<char>, prop: Seq<char>) -> Result<(int, int), Outcome> {
    match lookup(interface_names(reg), iface) {
        None => Err(Outcome::UnknownInterface),
        Some(i) => match lookup(property_names(reg.interfaces@[i]), prop) {
            None => Err(Outcome::UnknownProperty(prop)),
            Some(p) => Ok((i, p)),
        },
    }
}

/// What a call of the built-in properties interface comes to.
pub open spec fn properties_outcome(
    reg: Registry,
    member: Option<Seq<char>>,
    signature: Option<Seq<char>>,
    body: Seq<Value>,
) -> Outcome {
    match member {
        None => no_member(),
        Some(m) => if m == "Get"@ {
            match args_error(seq![TypeNode::String, TypeNode::String], signature, body) {
                Some(t) => Outcome::InvalidArgs(t),
                None => match property_of(reg, text_of(body[0]), text_of(body[1])) {
                    Err(o) => o,
                    Ok((i, p)) => if reg.interfaces@[i].properties@[p].readable {
                        Outcome::GetProperty(i, p)
                    } else {
                        property_error("This property is write only"@)
                    },
                },
            }
        } else if m == "GetAll"@ {
            match args_error(seq![TypeNode::String], signature, body) {
                Some(t) => Outcome::InvalidArgs(t),
                None => match lookup(interface_names(reg), text_of(body[0])) {
                    None => Outcome::UnknownInterface,
                    Some(i) => Outcome::GetAll(i),
                },
            }
        } else if m == "Set"@ {
            match args_error(
                seq![TypeNode::String, TypeNode::String, TypeNode::Variant],
                signature,
                body,
            ) {
                Some(t) => Outcome::InvalidArgs(t),
                None => match property_of(reg, text_of(body[0]), text_of(body[1])) {
                    Err(o) => o,
                    Ok((i, p)) => if !reg.interfaces@[i].properties@[p].writable {
                        property_error("This property is read only"@)
                    } else {
                        match crate::codec::failure(
                            reg.interfaces@[i].properties@[p].node,
                            *body[2]->Variant_0,
                        ) {
                            Some(f) => Outcome::InvalidArgs(failure_text(f)),
                            None => Outcome::SetProperty(i, p),
                        }
                    },
                },
            }
        } else {
            Outcome::UnknownMember
        },
    }
}

/// What a call of a method of the interface at `i` comes to.
pub open spec fn method_outcome(
    reg: Registry,
    i: int,
    member: Option<Seq<char>>,
    signature: Option<Seq<char>>,
    body: Seq<Value>,
) -> Outcome {
    match member {
        None => no_member(),
        Some(m) => match lookup(method_names(reg.interfaces@[i]), m) {
            None => Outcome::UnknownMember,
            Some(k) => match args_error(reg.interfaces@[i].methods@[k].inputs@, signature, body) {
                Some(t) => Outcome::InvalidArgs(t),
                None => Outcome::CallMethod(i, k),
            },
        },
    }
}

/// What an incoming message comes to.
pub open spec fn dispatch_outcome(reg: Registry, msg: Message) -> Outcome {
    if msg.message_type != MessageType::MethodCall {
        Outcome::Ignore
    } else if msg.interface is None {
        no_interface()
    } else {
        let name = msg.interface->0@;
        let member = opt_view(msg.member);
        let signature = opt_view(msg.signature);
        if name == properties_interface() && has_properties(reg) {
            properties_outcome(reg, member, signature, msg.body@)
        } else {
            match lookup(interface_names(reg), name) {
                Some(i) => method_outcome(reg, i, member, signature, msg.body@),
                None => if reg.introspectable && member == Some("Introspect"@) {
                    match args_error(Seq::empty(), signature, msg.body@) {
                        Some(t) => Outcome::InvalidArgs(t),
                        None => Outcome::Introspect,
                    }
                } else {
                    Outcome::UnknownInterface
                },
            }
        }
    }
}

fn equals(s: &String, lit: &str) -> (r: bool)
    ensures
        r == (s@ == lit@),
{
    *s == String::from_str(lit)
}

fn error_reply(name: &str, message: &str) -> (r: Action)
    ensures
        r.outcome() == Outcome::Error(name@, message@),
{
    Action::Send(Reply::Error { name: String::from_str(name), message: String::from_str(message) })
}

fn registry_has_properties(reg: &Registry) -> (r: bool)
    ensures
        r == has_properties(*reg),
{
    let mut i: usize = 0;
    while i < reg.interfaces.len()
        invariant
            0 <= i <= reg.interfaces@.len(),
            forall|j: int| 0 <= j < i ==> reg.interfaces@[j].properties@.len() == 0,
        decreases reg.interfaces@.len() - i,
    {
        if reg.interfaces[i].properties.len() > 0 {
            return true;
        }
        i = i + 1;
    }
    false
}

fn string_types(n: usize, variant: bool) -> (r: Vec<TypeNode>)
    requires
        n <= 2,
    ensures
        r@ == if variant {
            Seq::new(n as nat, |k: int| TypeNode::String).push(TypeNode::Variant)
        } else {
            Seq::new(n as nat, |k: int| TypeNode::String)
        },
{
    let mut r: Vec<TypeNode> = Vec::new();
    let mut i: usize = 0;
    while i < n
        invariant
            0 <= i <= n <= 2,
            r@ == Seq::new(i as nat, |k: int| TypeNode::String),
        decreases n - i,
    {
        r.push(TypeNode::String);
        assert(r@ =~= Seq::new((i + 1) as nat, |k: int| TypeNode::String));
        i = i + 1;
    }
    if variant {
        r.push(TypeNode::Variant);
    }
    r
}


fn native_text(n: &Native) -> (r: String)
    requires
        n is String,
    ensures
        r@ == n->String_0@,
{
    match n {
        Native::String(s) => s.clone(),
        // ruled out by the precondition
        _ => String::new(),
    }
}

fn locate_property(reg: &Registry, iface: &String, prop: &String) -> (r: Result<(usize, usize), Action>)
    ensures
        match r {
            Ok((i, p)) => property_of(*reg, iface@, prop@) == Ok::<(int, int), Outcome>((i as int, p as int))
                && i < reg.interfaces@.len() && p < reg.interfaces@[i as int].properties@.len(),
            Err(a) => property_of(*reg, iface@, prop@) == Err::<(int, int), Outcome>(a.outcome()),
        },
{
    let i = match find_interface(reg, iface) {
        None => {
            return Err(Action::Send(Reply::UnknownInterface));
        },
        Some(i) => i,
    };
    proof {
        let c = choose|c: int| first_match(interface_names(*reg), iface@, c);
        assert(first_match(interface_names(*reg), iface@, c));
    }
    match find_property(&reg.interfaces[i], prop) {
        None => Err(Action::Send(Reply::UnknownProperty(prop.clone()))),
        Some(p) => {
            proof {
                let names = property_names(reg.interfaces@[i as int]);
                let c = choose|c: int| first_match(names, prop@, c);
                assert(first_match(names, prop@, c));
            }
            Ok((i, p))
        },
    }
}


fn dispatch_properties(
    reg: &Registry,
    member: Option<String>,
    signature: Option<String>,
    body: Vec<Value>,
) -> (r: Action)
    ensures
        r.outcome() == properties_outcome(*reg, opt_view(member), opt_view(signature), body@),
        match r {
            Action::SetProperty { interface, property, value } => decodes(
                reg.interfaces@[interface as int].properties@[property as int].node,
                *body@[2]->Variant_0,
                value,
            ),
            _ => true,
        },
{
    let m = match member {
        None => {
            return error_reply("org.freedesktop.DBus.Error.Member", "Message does not have a member");
        },
        Some(m) => m,
    };
    let ghost b = body@;
    if equals(&m, "Get") {
        let ts = string_types(2, false);
        assert(ts@ =~= seq![TypeNode::String, TypeNode::String]);
        let args = match decode_args(&ts, &signature, body) {
            Err(t) => {
                return Action::Send(Reply::InvalidArgs(t));
            },
            Ok(a) => a,
        };
        assert(decodes(ts@[0], b[0], args@[0]) && decodes(ts@[1], b[1], args@[1]));
        let iface = native_text(&args[0]);
        let prop = native_text(&args[1]);
        let (i, p) = match locate_property(reg, &iface, &prop) {
            Err(a) => {
                return a;
            },
            Ok(x) => x,
        };
        if reg.interfaces[i].properties[p].readable {
            Action::GetProperty { interface: i, property: p }
        } else {
            error_reply("org.freedesktop.DBus.Error.Property", "This property is write only")
        }
    } else if equals(&m, "GetAll") {
        let ts = string_types(1, false);
        assert(ts@ =~= seq![TypeNode::String]);
        let args = match decode_args(&ts, &signature, body) {
            Err(t) => {
                return Action::Send(Reply::InvalidArgs(t));
            },
            Ok(a) => a,
        };
        assert(decodes(ts@[0], b[0], args@[0]));
        let iface = native_text(&args[0]);
        match find_interface(reg, &iface) {
            None => Action::Send(Reply::UnknownInterface),
            Some(i) => Action::GetAll { interface: i },
        }
    } else if equals(&m, "Set") {
        let ts = string_types(2, true);
        assert(ts@ =~= seq![TypeNode::String, TypeNode::String, TypeNode::Variant]);
        let mut args = match decode_args(&ts, &signature, body) {
            Err(t) => {
                return Action::Send(Reply::InvalidArgs(t));
            },
            Ok(a) => a,
        };
        assert(decodes(ts@[0], b[0], args@[0]) && decodes(ts@[1], b[1], args@[1]));
        assert(decodes(ts@[2], b[2], args@[2]));
        let iface = native_text(&args[0]);
        let prop = native_text(&args[1]);
        let (i, p) = match locate_property(reg, &iface, &prop) {
            Err(a) => {
                return a;
            },
            Ok(x) => x,
        };
        if !reg.interfaces[i].properties[p].writable {
            return error_reply("org.freedesktop.DBus.Error.Property", "This property is read only");
        }
        let inner = match args.pop() {
            Some(Native::Variant(v)) => v,
            // the third argument decoded as a variant
            _ => {
                return Action::Ignore;
            },
        };
        match decode(&reg.interfaces[i].properties[p].node, *inner) {
            Err(x) => Action::Send(Reply::InvalidArgs(x.message())),
            Ok(value) => Action::SetProperty { interface: i, property: p, value },
        }
    } else {
        Action::Send(Reply::UnknownMember)
    }
}

fn dispatch_method(
    reg: &Registry,
    i: usize,
    member: Option<String>,
    signature: Option<String>,
    body: Vec<Value>,
) -> (r: Action)
    requires
        i < reg.interfaces@.len(),
    ensures
        r.outcome() == method_outcome(*reg, i as int, opt_view(member), opt_view(signature), body@),
        match r {
            Action::CallMethod { interface, method, args } => {
                let inputs = reg.interfaces@[interface as int].methods@[method as int].inputs@;
                &&& args@.len() == inputs.len()
                &&& forall|k: int| 0 <= k < inputs.len() ==> decodes(#[trigger] inputs[k], body@[k], args@[k])
            },
            _ => true,
        },
{
    let m = match member {
        None => {
            return error_reply("org.freedesktop.DBus.Error.Member", "Message does not have a member");
        },
        Some(m) => m,
    };
    let k = match find_method(&reg.interfaces[i], &m) {
        None => {
            return Action::Send(Reply::UnknownMember);
        },
        Some(k) => k,
    };
    proof {
        let names = method_names(reg.interfaces@[i as int]);
        let c = choose|c: int| first_match(names, m@, c);
        assert(first_match(names, m@, c));
    }
    match decode_args(&reg.interfaces[i].methods[k].inputs, &signature, body) {
        Err(t) => Action::Send(Reply::InvalidArgs(t)),
        Ok(args) => Action::CallMethod { interface: i, method: k, args },
    }
}

/// Decides what is done with an incoming message: ignore it, reply at once
/// (with an error, since every successful path goes through a handler or the
/// introspection data), or call a handler with the decoded arguments.
pub fn dispatch(reg: &Registry, msg: Message) -> (r: Action)
    ensures
        r.outcome() == dispatch_outcome(*reg, msg),
        match r {
            Action::CallMethod { interface, method, args } => {
                let inputs = reg.interfaces@[interface as int].methods@[method as int].inputs@;
                &&& args@.len() == inputs.len()
                &&& forall|k: int| 0 <= k < inputs.len() ==> decodes(#[trigger] inputs[k], msg.body@[k], args@[k])
            },
            Action::SetProperty { interface, property, value } => decodes(
                reg.interfaces@[interface as int].properties@[property as int].node,
                *msg.body@[2]->Variant_0,
                value,
            ),
            _ => true,
        },
{
    let Message { message_type, interface, member, signature, body } = msg;
    if message_type != MessageType::MethodCall {
        return Action::Ignore;
    }
    let name = match interface {
        None => {
            return error_reply("org.freedesktop.DBus.Error.Interface", "Message does not have a interface");
        },
        Some(n) => n,
    };
    if equals(&name, "org.freedesktop.DBus.Properties") && registry_has_properties(reg) {
        return dispatch_properties(reg, member, signature, body);
    }
    match find_interface(reg, &name) {
        Some(i) => {
            proof {
                let c = choose|c: int| first_match(interface_names(*reg), name@, c);
                assert(first_match(interface_names(*reg), name@, c));
            }
            dispatch_method(reg, i, member, signature, body)
        },
        None => {
            let introspect = match &member {
                Some(m) => equals(m, "Introspect"),
                None => false,
            };
            if reg.introspectable && introspect {
                let none: Vec<TypeNode> = Vec::new();
                assert(none@ =~= Seq::<TypeNode>::empty());
                match decode_args(&none, &signature, body) {
                    Err(t) => Action::Send(Reply::InvalidArgs(t)),
                    Ok(_) => Action::Introspect,
                }
            } else {
                Action::Send(Reply::UnknownInterface)
            }
        },
    }
}


/// The header signature that a call of a method with inputs `ts` must carry:
/// none when it takes no argument, else the inputs' signature.
pub open spec fn declared_signature(ts: Seq<TypeNode>) -> Option<Seq<char>> {
    if sigs(ts).len() == 0 {
        None
    } else {
        Some(sigs(ts))
    }
}

/// A call of a method whose header signature differs from the one its
/// inputs declare is answered with InvalidArgs, so its handler is never
/// called; when both are present the text names the declared signature and
/// the one received.
pub proof fn lemma_signature_mismatch_rejected(reg: Registry, msg: Message, i: int, k: int)
    requires
        msg.message_type == MessageType::MethodCall,
        msg.interface is Some,
        !(msg.interface->0@ == properties_interface() && has_properties(reg)),
        lookup(interface_names(reg), msg.interface->0@) == Some(i),
        msg.member is Some,
        lookup(method_names(reg.interfaces@[i]), msg.member->0@) == Some(k),
        opt_view(msg.signature) != declared_signature(reg.interfaces@[i].methods@[k].inputs@),
    ensures
        dispatch_outcome(reg, msg) is InvalidArgs,
        msg.signature is Some && sigs(reg.interfaces@[i].methods@[k].inputs@).len() > 0
            ==> dispatch_outcome(reg, msg) == Outcome::InvalidArgs(
            mismatch_text(sigs(reg.interfaces@[i].methods@[k].inputs@), msg.signature->0@),
        ),
{
}

/// On an introspectable object, a call naming an interface that the object
/// does not have is answered with the introspection data when it is a
/// well-formed `Introspect` call (no signature, no arguments), and with
/// UnknownInterface when it names any other member.
pub proof fn lemma_unknown_interface(reg: Registry, msg: Message)
    requires
        msg.message_type == MessageType::MethodCall,
        msg.interface is Some,
        !(msg.interface->0@ == properties_interface() && has_properties(reg)),
        lookup(interface_names(reg), msg.interface->0@) is None,
        reg.introspectable,
    ensures
        opt_view(msg.member) == Some("Introspect"@) && msg.signature is None && msg.body@.len()
            == 0 ==> dispatch_outcome(reg, msg) == Outcome::Introspect,
        opt_view(msg.member) != Some("Introspect"@) ==> dispatch_outcome(reg, msg)
            == Outcome::UnknownInterface,
{
    assert(sigs(Seq::<TypeNode>::empty()).len() == 0);
    assert(members_failure(Seq::<TypeNode>::empty(), msg.body@) is None);
}

/// `Get` of a property that has no getter is answered with the property
/// error "This property is write only".
pub proof fn lemma_get_write_only(reg: Registry, msg: Message, i: int, p: int)
    requires
        msg.message_type == MessageType::MethodCall,
        msg.interface is Some,
        msg.interface->0@ == properties_interface(),
        has_properties(reg),
        opt_view(msg.member) == Some("Get"@),
        opt_view(msg.signature) == Some(seq!['s', 's']),
        msg.body@.len() == 2,
        msg.body@[0] is String,
        msg.body@[1] is String,
        lookup(interface_names(reg), text_of(msg.body@[0])) == Some(i),
        lookup(property_names(reg.interfaces@[i]), text_of(msg.body@[1])) == Some(p),
        !reg.interfaces@[i].properties@[p].readable,
    ensures
        dispatch_outcome(reg, msg) == property_error("This property is write only"@),
{
    let ts = seq![TypeNode::String, TypeNode::String];
    let b = msg.body@;
    let one = seq![TypeNode::String];
    assert(one.drop_last() =~= Seq::<TypeNode>::empty());
    assert(sigs(Seq::<TypeNode>::empty()) == Seq::<char>::empty());
    assert(one.last() == TypeNode::String && one[0] == TypeNode::String);
    assert(sig(TypeNode::String) == seq!['s']);
    assert(sigs(one) =~= seq!['s']);
    assert(ts.drop_last() =~= one);
    assert(sigs(ts) =~= seq!['s', 's']);
    assert(one.drop_first() =~= Seq::<TypeNode>::empty());
    assert(ts.drop_first() =~= one);
    assert(b.drop_first()[0] == b[1]);
    assert(members_failure(one.drop_first(), b.drop_first().drop_first()) is None);
    assert(crate::codec::failure(TypeNode::String, b[1]) is None);
    assert(members_failure(one, b.drop_first()) is None);
    assert(ts[0] == TypeNode::String);
    assert(crate::codec::failure(TypeNode::String, b[0]) is None);
    assert(members_failure(ts, b) is None);
}

} // verus!
