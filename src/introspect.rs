//! Introspection data: the descriptors rendered as an XML document, in
//! declaration order.
use vstd::prelude::*;
use vstd::string::*;
use crate::signature::{TypeNode, sig};
use crate::descriptor::{
    Registry, InterfaceDescriptor, MethodDescriptor, PropertyDescriptor, SignalDescriptor,
};
use crate::dispatch::has_properties;

verus! {

broadcast use vstd::std_specs::vec::group_vec_axioms;

/// The decimal digits of `n`.
pub open spec fn decimal(n: nat) -> Seq<char>
    decreases n,
{
    if n < 10 {
        seq!["0123456789"@[n as int]]
    } else {
        decimal(n / 10) + seq!["0123456789"@[(n % 10) as int]]
    }
}

fn digit(d: usize) -> (r: &'static str)
    requires
        d < 10,
    ensures
        r@ == seq!["0123456789"@[d as int]],
{
    proof {
        reveal_strlit("0123456789");
        reveal_strlit("0");
        reveal_strlit("1");
        reveal_strlit("2");
        reveal_strlit("3");
        reveal_strlit("4");
        reveal_strlit("5");
        reveal_strlit("6");
        reveal_strlit("7");
        reveal_strlit("8");
        reveal_strlit("9");
    }
    match d {
        0 => "0",
        1 => "1",
        2 => "2",
        3 => "3",
        4 => "4",
        5 => "5",
        6 => "6",
        7 => "7",
        8 => "8",
        _ => "9",
    }
}

/// `n` written in decimal.
pub fn decimal_text(n: u128) -> (r: String)
    ensures
        r@ == decimal(n as nat),
    decreases n,
{
    if n < 10 {
        String::from_str(digit(n as usize))
    } else {
        let mut r = decimal_text(n / 10);
        r.append(digit((n % 10) as usize));
        r
    }
}

/// One argument of a method, named after its position.
pub open spec fn method_arg_xml(t: TypeNode, position: nat, direction: Seq<char>) -> Seq<char> {
    "      <arg type=\""@ + sig(t) + "\" name=\"arg_"@ + decimal(position) + "\" direction=\""@
        + direction + "\"/>\n"@
}

/// The arguments `ts` of a method, numbered from `first`.
pub open spec fn method_args_xml(ts: Seq<TypeNode>, first: nat, direction: Seq<char>) -> Seq<char>
    decreases ts.len(),
{
    if ts.len() == 0 {
        Seq::empty()
    } else {
        method_args_xml(ts.drop_last(), first, direction) + method_arg_xml(
            ts.last(),
            (first + ts.len() - 1) as nat,
            direction,
        )
    }
}

/// One method with its arguments, inputs first.
pub open spec fn method_xml(m: MethodDescriptor) -> Seq<char> {
    "    <method name=\""@ + m.name@ + "\">\n"@ + method_args_xml(m.inputs@, 0, "in"@)
        + method_args_xml(m.outputs@, m.inputs@.len(), "out"@) + "    </method>\n"@
}

/// The access of a property: read, write or readwrite.
pub open spec fn access(p: PropertyDescriptor) -> Seq<char> {
    (if p.readable {
        "read"@
    } else {
        Seq::empty()
    }) + (if p.writable {
        "write"@
    } else {
        Seq::empty()
    })
}

/// One property with its type and access.
pub open spec fn property_xml(p: PropertyDescriptor) -> Seq<char> {
    "    <property type=\""@ + sig(p.node) + "\" name=\""@ + p.name@ + "\" access=\""@ + access(p)
        + "\"/>\n"@
}

/// The arguments of a signal, which carry only their types.
pub open spec fn signal_args_xml(ts: Seq<TypeNode>) -> Seq<char>
    decreases ts.len(),
{
    if ts.len() == 0 {
        Seq::empty()
    } else {
        signal_args_xml(ts.drop_last()) + "      <arg type=\""@ + sig(ts.last()) + "\"/>\n"@
    }
}

/// One signal with its arguments.
pub open spec fn signal_xml(s: SignalDescriptor) -> Seq<char> {
    "    <signal name=\""@ + s.name@ + "\">\n"@ + signal_args_xml(s.args@) + "    </signal>\n"@
}

/// The methods of an interface, in order.
pub open spec fn methods_xml(ms: Seq<MethodDescriptor>) -> Seq<char>
    decreases ms.len(),
{
    if ms.len() == 0 {
        Seq::empty()
    } else {
        methods_xml(ms.drop_last()) + method_xml(ms.last())
    }
}

/// The properties of an interface, in order.
pub open spec fn properties_xml(ps: Seq<PropertyDescriptor>) -> Seq<char>
    decreases ps.len(),
{
    if ps.len() == 0 {
        Seq::empty()
    } else {
        properties_xml(ps.drop_last()) + property_xml(ps.last())
    }
}

/// The signals of an interface, in order.
pub open spec fn signals_xml(ss: Seq<SignalDescriptor>) -> Seq<char>
    decreases ss.len(),
{
    if ss.len() == 0 {
        Seq::empty()
    } else {
        signals_xml(ss.drop_last()) + signal_xml(ss.last())
    }
}

/// One interface with its methods, then its properties, then its signals.
pub open spec fn interface_xml(i: InterfaceDescriptor) -> Seq<char> {
    "  <interface name=\""@ + i.name@ + "\">\n"@ + methods_xml(i.methods@) + properties_xml(
        i.properties@,
    ) + signals_xml(i.signals@) + "  </interface>\n"@
}

/// The interfaces of a registry, in order.
pub open spec fn interfaces_xml(is: Seq<InterfaceDescriptor>) -> Seq<char>
    decreases is.len(),
{
    if is.len() == 0 {
        Seq::empty()
    } else {
        interfaces_xml(is.drop_last()) + interface_xml(is.last())
    }
}

/// One node element per child path segment.
pub open spec fn children_xml(cs: Seq<String>) -> Seq<char>
    decreases cs.len(),
{
    if cs.len() == 0 {
        Seq::empty()
    } else {
        children_xml(cs.drop_last()) + "  <node name=\""@ + cs.last()@ + "\"/>\n"@
    }
}

fn method_args_text(xml: &mut String, ts: &Vec<TypeNode>, first: u128, direction: &str)
    requires
        first <= usize::MAX,
    ensures
        final(xml)@ == old(xml)@ + method_args_xml(ts@, first as nat, direction@),
{
    let ghost start = xml@;
    let mut i: usize = 0;
    while i < ts.len()
        invariant
            first <= usize::MAX,
            0 <= i <= ts@.len(),
            xml@ == start + method_args_xml(ts@.subrange(0, i as int), first as nat, direction@),
        decreases ts@.len() - i,
    {
        let ghost sub = ts@.subrange(0, i + 1);
        assert(sub.drop_last() =~= ts@.subrange(0, i as int));
        xml.append("      <arg type=\"");
        xml.append(ts[i].signature().as_str());
        xml.append("\" name=\"arg_");
        xml.append(decimal_text(first + i as u128).as_str());
        xml.append("\" direction=\"");
        xml.append(direction);
        xml.append("\"/>\n");
        assert(xml@ =~= start + method_args_xml(sub, first as nat, direction@));
        i = i + 1;
    }
    assert(ts@.subrange(0, i as int) =~= ts@);
}

fn method_text(xml: &mut String, m: &MethodDescriptor)
    ensures
        final(xml)@ == old(xml)@ + method_xml(*m),
{
    let ghost start = xml@;
    xml.append("    <method name=\"");
    xml.append(m.name.as_str());
    xml.append("\">\n");
    let ghost a = xml@;
    method_args_text(xml, &m.inputs, 0, "in");
    let ghost b = xml@;
    method_args_text(xml, &m.outputs, m.inputs.len() as u128, "out");
    let ghost c = xml@;
    xml.append("    </method>\n");
    assert(xml@ =~= start + method_xml(*m));
}

fn property_text(xml: &mut String, p: &PropertyDescriptor)
    ensures
        final(xml)@ == old(xml)@ + property_xml(*p),
{
    let ghost start = xml@;
    xml.append("    <property type=\"");
    xml.append(p.node.signature().as_str());
    xml.append("\" name=\"");
    xml.append(p.name.as_str());
    xml.append("\" access=\"");
    let ghost before = xml@;
    if p.readable {
        xml.append("read");
    }
    if p.writable {
        xml.append("write");
    }
    assert(xml@ =~= before + access(*p));
    xml.append("\"/>\n");
    assert(xml@ =~= start + property_xml(*p));
}

fn signal_text(xml: &mut String, s: &SignalDescriptor)
    ensures
        final(xml)@ == old(xml)@ + signal_xml(*s),
{
    let ghost start = xml@;
    xml.append("    <signal name=\"");
    xml.append(s.name.as_str());
    xml.append("\">\n");
    let ghost head = xml@;
    let mut i: usize = 0;
    while i < s.args.len()
        invariant
            0 <= i <= s.args@.len(),
            xml@ == head + signal_args_xml(s.args@.subrange(0, i as int)),
        decreases s.args@.len() - i,
    {
        let ghost sub = s.args@.subrange(0, i + 1);
        assert(sub.drop_last() =~= s.args@.subrange(0, i as int));
        xml.append("      <arg type=\"");
        xml.append(s.args[i].signature().as_str());
        xml.append("\"/>\n");
        assert(xml@ =~= head + signal_args_xml(sub));
        i = i + 1;
    }
    assert(s.args@.subrange(0, i as int) =~= s.args@);
    xml.append("    </signal>\n");
    assert(xml@ =~= start + signal_xml(*s));
}


fn interface_text(xml: &mut String, iface: &InterfaceDescriptor)
    ensures
        final(xml)@ == old(xml)@ + interface_xml(*iface),
{
    let ghost start = xml@;
    xml.append("  <interface name=\"");
    xml.append(iface.name.as_str());
    xml.append("\">\n");
    let ghost head = xml@;
    let mut i: usize = 0;
    while i < iface.methods.len()
        invariant
            0 <= i <= iface.methods@.len(),
            xml@ == head + methods_xml(iface.methods@.subrange(0, i as int)),
        decreases iface.methods@.len() - i,
    {
        assert(iface.methods@.subrange(0, i + 1).drop_last() =~= iface.methods@.subrange(0, i as int));
        method_text(xml, &iface.methods[i]);
        i = i + 1;
    }
    assert(iface.methods@.subrange(0, i as int) =~= iface.methods@);
    let ghost after_methods = xml@;
    let mut i: usize = 0;
    while i < iface.properties.len()
        invariant
            0 <= i <= iface.properties@.len(),
            xml@ == after_methods + properties_xml(iface.properties@.subrange(0, i as int)),
        decreases iface.properties@.len() - i,
    {
        assert(iface.properties@.subrange(0, i + 1).drop_last() =~= iface.properties@.subrange(0, i as int));
        property_text(xml, &iface.properties[i]);
        i = i + 1;
    }
    assert(iface.properties@.subrange(0, i as int) =~= iface.properties@);
    let ghost after_properties = xml@;
    let mut i: usize = 0;
    while i < iface.signals.len()
        invariant
            0 <= i <= iface.signals@.len(),
            xml@ == after_properties + signals_xml(iface.signals@.subrange(0, i as int)),
        decreases iface.signals@.len() - i,
    {
        assert(iface.signals@.subrange(0, i + 1).drop_last() =~= iface.signals@.subrange(0, i as int));
        signal_text(xml, &iface.signals[i]);
        i = i + 1;
    }
    assert(iface.signals@.subrange(0, i as int) =~= iface.signals@);
    xml.append("  </interface>\n");
    assert(xml@ =~= start + interface_xml(*iface));
}

/// The opening of every document, with the built-in introspection interface.
pub open spec fn header_xml() -> Seq<char> {
    "\n<!DOCTYPE node PUBLIC \"-//freedesktop//DTD D-BUS Object Introspection 1.0//EN\"\n                      \"http://www.freedesktop.org/standards/dbus/1.0/introspect.dtd\">\n<node>\n   <interface name=\"org.freedesktop.DBus.Introspectable\">\n     <method name=\"Introspect\">\n       <arg type=\"s\" name=\"xml_data\" direction=\"out\"/>\n     </method>\n   </interface>\n"@
}

/// The built-in properties interface.
pub open spec fn properties_interface_xml() -> Seq<char> {
    "\n   <interface name=\"org.freedesktop.DBus.Properties\">\n     <method name=\"Get\">\n       <arg type=\"s\" name=\"interface_name\" direction=\"in\"/>\n       <arg type=\"s\" name=\"property_name\" direction=\"in\"/>\n       <arg type=\"v\" name=\"value\" direction=\"out\"/>\n     </method>\n     <method name=\"GetAll\">\n       <arg type=\"s\" name=\"interface_name\" direction=\"in\"/>\n       <arg type=\"a{sv}\" name=\"properties\" direction=\"out\"/>\n     </method>\n     <method name=\"Set\">\n       <arg type=\"s\" name=\"interface_name\" direction=\"in\"/>\n       <arg type=\"s\" name=\"property_name\" direction=\"in\"/>\n       <arg type=\"v\" name=\"value\" direction=\"in\"/>\n     </method>\n     <signal name=\"PropertiesChanged\">\n       <arg type=\"s\" name=\"interface_name\"/>\n       <arg type=\"a{sv}\" name=\"changed_properties\"/>\n       <arg type=\"as\" name=\"invalidated_properties\"/>\n     </signal>\n   </interface>\n"@
}

/// The introspection document of an object with the interfaces of `reg` and
/// the child nodes `children`.
pub open spec fn introspection_xml(reg: Registry, children: Seq<String>) -> Seq<char> {
    header_xml() + (if has_properties(reg) {
        properties_interface_xml()
    } else {
        Seq::empty()
    }) + interfaces_xml(reg.interfaces@) + children_xml(children) + "</node>"@
}

/// Renders the introspection document of an object.
pub fn introspection(reg: &Registry, children: &Vec<String>) -> (r: String)
    ensures
        r@ == introspection_xml(*reg, children@),
{
    let mut xml = String::from_str("\n<!DOCTYPE node PUBLIC \"-//freedesktop//DTD D-BUS Object Introspection 1.0//EN\"\n                      \"http://www.freedesktop.org/standards/dbus/1.0/introspect.dtd\">\n<node>\n   <interface name=\"org.freedesktop.DBus.Introspectable\">\n     <method name=\"Introspect\">\n       <arg type=\"s\" name=\"xml_data\" direction=\"out\"/>\n     </method>\n   </interface>\n");
    let mut with_properties = false;
    let mut i: usize = 0;
    while i < reg.interfaces.len()
        invariant
            0 <= i <= reg.interfaces@.len(),
            with_properties == exists|j: int| 0 <= j < i && reg.interfaces@[j].properties@.len() > 0,
        decreases reg.interfaces@.len() - i,
    {
        if reg.interfaces[i].properties.len() > 0 {
            with_properties = true;
        }
        i = i + 1;
    }
    if with_properties {
        xml.append("\n   <interface name=\"org.freedesktop.DBus.Properties\">\n     <method name=\"Get\">\n       <arg type=\"s\" name=\"interface_name\" direction=\"in\"/>\n       <arg type=\"s\" name=\"property_name\" direction=\"in\"/>\n       <arg type=\"v\" name=\"value\" direction=\"out\"/>\n     </method>\n     <method name=\"GetAll\">\n       <arg type=\"s\" name=\"interface_name\" direction=\"in\"/>\n       <arg type=\"a{sv}\" name=\"properties\" direction=\"out\"/>\n     </method>\n     <method name=\"Set\">\n       <arg type=\"s\" name=\"interface_name\" direction=\"in\"/>\n       <arg type=\"s\" name=\"property_name\" direction=\"in\"/>\n       <arg type=\"v\" name=\"value\" direction=\"in\"/>\n     </method>\n     <signal name=\"PropertiesChanged\">\n       <arg type=\"s\" name=\"interface_name\"/>\n       <arg type=\"a{sv}\" name=\"changed_properties\"/>\n       <arg type=\"as\" name=\"invalidated_properties\"/>\n     </signal>\n   </interface>\n");
    }
    let ghost head = xml@;
    let mut i: usize = 0;
    while i < reg.interfaces.len()
        invariant
            0 <= i <= reg.interfaces@.len(),
            xml@ == head + interfaces_xml(reg.interfaces@.subrange(0, i as int)),
        decreases reg.interfaces@.len() - i,
    {
        assert(reg.interfaces@.subrange(0, i + 1).drop_last() =~= reg.interfaces@.subrange(0, i as int));
        interface_text(&mut xml, &reg.interfaces[i]);
        i = i + 1;
    }
    assert(reg.interfaces@.subrange(0, i as int) =~= reg.interfaces@);
    let ghost body = xml@;
    let mut i: usize = 0;
    while i < children.len()
        invariant
            0 <= i <= children@.len(),
            xml@ == body + children_xml(children@.subrange(0, i as int)),
        decreases children@.len() - i,
    {
        let ghost sub = children@.subrange(0, i + 1);
        assert(sub.drop_last() =~= children@.subrange(0, i as int));
        xml.append("  <node name=\"");
        xml.append(children[i].as_str());
        xml.append("\"/>\n");
        assert(xml@ =~= body + children_xml(sub));
        i = i + 1;
    }
    assert(children@.subrange(0, i as int) =~= children@);
    xml.append("</node>");
    assert(xml@ =~= introspection_xml(*reg, children@));
    xml
}

/// The reply to `Introspect`: the document as one string.
pub fn introspect_reply(reg: &Registry, children: &Vec<String>) -> (r: crate::dispatch::Reply)
    ensures
        r is Return,
        r->Return_0@.len() == 1,
        r->Return_0@[0] is String,
        r->Return_0@[0]->String_0@ == introspection_xml(*reg, children@),
{
    let mut values: Vec<crate::codec::Value> = Vec::new();
    values.push(crate::codec::Value::String(introspection(reg, children)));
    crate::dispatch::Reply::Return(values)
}

} // verus!
