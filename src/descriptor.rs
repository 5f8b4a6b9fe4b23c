//! The descriptor model: what an exported object offers, built once from
//! signature strings and read-only afterwards.
use vstd::prelude::*;
use crate::signature::{
    TypeNode, SignatureError, SignatureIterator, parse_signature, sigs, sig, scan, scan_all,
    valid_signature,
};

verus! {

/// Why a descriptor could not be built.
#[derive(Debug)]
pub enum DescriptorError {
    /// A signature does not parse.
    Signature(SignatureError),
    /// A property's signature is not exactly one complete type.
    PropertyNotOneType,
    /// A property with neither a getter nor a setter.
    PropertyWithoutAccess,
    /// Two interfaces of one registry with the same name.
    DuplicateInterface(String),
}

/// A method: its name and the types of its arguments and results.
pub struct MethodDescriptor {
    pub name: String,
    pub inputs: Vec<TypeNode>,
    pub outputs: Vec<TypeNode>,
}

/// A property: its name, its type, and whether it has a getter and a setter.
pub struct PropertyDescriptor {
    pub name: String,
    pub node: TypeNode,
    pub readable: bool,
    pub writable: bool,
}

/// A signal, described for introspection only.
pub struct SignalDescriptor {
    pub name: String,
    pub args: Vec<TypeNode>,
}

/// An interface: its name and its members in declaration order.
pub struct InterfaceDescriptor {
    pub name: String,
    pub methods: Vec<MethodDescriptor>,
    pub properties: Vec<PropertyDescriptor>,
    pub signals: Vec<SignalDescriptor>,
}

/// The interfaces of one exported object, and whether it answers
/// introspection.
pub struct Registry {
    pub interfaces: Vec<InterfaceDescriptor>,
    pub introspectable: bool,
}

fn parse(signature: &str) -> (r: Result<Vec<TypeNode>, DescriptorError>)
    ensures
        (r is Ok) <==> valid_signature(signature@),
        match r {
            Ok(v) => sigs(v@) == signature@,
            Err(e) => exists|x: SignatureError|
                e == DescriptorError::Signature(x) && scan_all(signature@, 0) == Err::<(), SignatureError>(x),
        },
{
    match parse_signature(signature) {
        Ok(v) => Ok(v),
        Err(x) => Err(DescriptorError::Signature(x)),
    }
}

impl MethodDescriptor {
    /// A method named `name` whose arguments and results have the given
    /// signatures.
    pub fn new(name: &str, inputs: &str, outputs: &str) -> (r: Result<MethodDescriptor, DescriptorError>)
        ensures
            (r is Ok) <==> valid_signature(inputs@) && valid_signature(outputs@),
            match r {
                Ok(m) => m.name@ == name@ && sigs(m.inputs@) == inputs@ && sigs(m.outputs@) == outputs@,
                Err(e) => exists|x: SignatureError|
                    e == DescriptorError::Signature(x) && (scan_all(inputs@, 0) == Err::<(), SignatureError>(x)
                        || (valid_signature(inputs@) && scan_all(outputs@, 0) == Err::<(), SignatureError>(x))),
            },
    {
        let inputs = parse(inputs)?;
        let outputs = parse(outputs)?;
        Ok(MethodDescriptor { name: String::from_str(name), inputs, outputs })
    }
}

/// `s` is exactly one complete type.
pub open spec fn single_type(s: Seq<char>) -> bool {
    scan(s, 0) == Some(Ok::<int, SignatureError>(s.len() as int))
}

impl PropertyDescriptor {
    /// A property named `name` of the single type `signature`, with a getter
    /// when `readable` and a setter when `writable`.
    pub fn new(name: &str, signature: &str, readable: bool, writable: bool) -> (r: Result<PropertyDescriptor, DescriptorError>)
        ensures
            (r is Ok) <==> single_type(signature@) && (readable || writable),
            match r {
                Ok(p) => {
                    &&& p.name@ == name@
                    &&& sig(p.node) == signature@
                    &&& p.readable == readable
                    &&& p.writable == writable
                },
                Err(DescriptorError::Signature(x)) => scan(signature@, 0) == Some(Err::<int, SignatureError>(x)),
                Err(DescriptorError::PropertyNotOneType) => !(scan(signature@, 0) is Some && scan(signature@, 0)->0 is Err)
                    && !single_type(signature@),
                Err(DescriptorError::PropertyWithoutAccess) => single_type(signature@) && !readable && !writable,
                Err(DescriptorError::DuplicateInterface(_)) => false,
            },
    {
        let mut iter = SignatureIterator::new(signature);
        let node = match iter.next() {
            None => {
                return Err(DescriptorError::PropertyNotOneType);
            },
            Some(Err(x)) => {
                return Err(DescriptorError::Signature(x));
            },
            Some(Ok(t)) => t,
        };
        if iter.next().is_some() {
            return Err(DescriptorError::PropertyNotOneType);
        }
        assert(signature@.subrange(0, signature@.len() as int) =~= signature@);
        if !readable && !writable {
            return Err(DescriptorError::PropertyWithoutAccess);
        }
        Ok(PropertyDescriptor { name: String::from_str(name), node, readable, writable })
    }
}

impl SignalDescriptor {
    /// A signal named `name` whose arguments have the given signature.
    pub fn new(name: &str, signature: &str) -> (r: Result<SignalDescriptor, DescriptorError>)
        ensures
            (r is Ok) <==> valid_signature(signature@),
            match r {
                Ok(s) => s.name@ == name@ && sigs(s.args@) == signature@,
                Err(e) => exists|x: SignatureError|
                    e == DescriptorError::Signature(x) && scan_all(signature@, 0) == Err::<(), SignatureError>(x),
            },
    {
        let args = parse(signature)?;
        Ok(SignalDescriptor { name: String::from_str(name), args })
    }
}

impl InterfaceDescriptor {
    /// An interface named `name` with no members yet.
    pub fn new(name: &str) -> (r: InterfaceDescriptor)
        ensures
            r.name@ == name@,
            r.methods@.len() == 0,
            r.properties@.len() == 0,
            r.signals@.len() == 0,
    {
        InterfaceDescriptor {
            name: String::from_str(name),
            methods: Vec::new(),
            properties: Vec::new(),
            signals: Vec::new(),
        }
    }

    /// Declares a method after those already declared.
    pub fn add_method(&mut self, method: MethodDescriptor)
        ensures
            final(self).name == old(self).name,
            final(self).methods@ == old(self).methods@.push(method),
            final(self).properties@ == old(self).properties@,
            final(self).signals@ == old(self).signals@,
    {
        self.methods.push(method);
    }

    /// Declares a property after those already declared.
    pub fn add_property(&mut self, property: PropertyDescriptor)
        ensures
            final(self).name == old(self).name,
            final(self).methods@ == old(self).methods@,
            final(self).properties@ == old(self).properties@.push(property),
            final(self).signals@ == old(self).signals@,
    {
        self.properties.push(property);
    }

    /// Declares a signal after those already declared.
    pub fn add_signal(&mut self, signal: SignalDescriptor)
        ensures
            final(self).name == old(self).name,
            final(self).methods@ == old(self).methods@,
            final(self).properties@ == old(self).properties@,
            final(self).signals@ == old(self).signals@.push(signal),
    {
        self.signals.push(signal);
    }
}

/// No two interfaces share a name.
pub open spec fn unique_names(ifaces: Seq<InterfaceDescriptor>) -> bool {
    forall|i: int, j: int|
        0 <= i < ifaces.len() && 0 <= j < ifaces.len() && i != j ==> #[trigger] ifaces[i].name@
            != #[trigger] ifaces[j].name@
}

impl Registry {
    /// The registry is well formed: its interface names are unique.
    pub open spec fn wf(&self) -> bool {
        unique_names(self.interfaces@)
    }

    /// A registry of `interfaces`, which must have unique names; the first
    /// name met twice is the error.
    pub fn new(interfaces: Vec<InterfaceDescriptor>, introspectable: bool) -> (r: Result<Registry, DescriptorError>)
        ensures
            (r is Ok) <==> unique_names(interfaces@),
            match r {
                Ok(reg) => reg.interfaces@ == interfaces@ && reg.introspectable == introspectable && reg.wf(),
                Err(DescriptorError::DuplicateInterface(n)) => exists|i: int, j: int|
                    0 <= i < j < interfaces@.len() && interfaces@[i].name@ == n@ && interfaces@[j].name@ == n@,
                Err(_) => false,
            },
    {
        let mut j: usize = 0;
        while j < interfaces.len()
            invariant
                0 <= j <= interfaces@.len(),
                unique_names(interfaces@.subrange(0, j as int)),
            decreases interfaces@.len() - j,
        {
            let mut i: usize = 0;
            while i < j
                invariant
                    0 <= i <= j < interfaces@.len(),
                    forall|k: int| 0 <= k < i ==> interfaces@[k].name@ != interfaces@[j as int].name@,
                decreases j - i,
            {
                if interfaces[i].name == interfaces[j].name {
                    return Err(DescriptorError::DuplicateInterface(interfaces[j].name.clone()));
                }
                i = i + 1;
            }
            assert(unique_names(interfaces@.subrange(0, j + 1))) by {
                let s = interfaces@.subrange(0, j + 1);
                assert forall|a: int, b: int|
                    0 <= a < s.len() && 0 <= b < s.len() && a != b implies #[trigger] s[a].name@
                        != #[trigger] s[b].name@ by {
                    if a < j && b < j {
                        assert(interfaces@.subrange(0, j as int)[a] == s[a]);
                        assert(interfaces@.subrange(0, j as int)[b] == s[b]);
                    }
                }
            }
            j = j + 1;
        }
        assert(interfaces@.subrange(0, j as int) =~= interfaces@);
        Ok(Registry { interfaces, introspectable })
    }
}

} // verus!
