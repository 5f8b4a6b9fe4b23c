//! The type codec: wire values are checked against a type and turned into
//! native values, and native values are turned back into wire values.
use vstd::prelude::*;
use vstd::string::*;
use crate::signature::{TypeNode, sig, sigs};

verus! {

broadcast use vstd::std_specs::vec::group_vec_axioms;

/// A value as it travels in a message body.
#[derive(Debug)]
pub enum Value {
    Byte(u8),
    Boolean(bool),
    Int16(i16),
    Uint16(u16),
    Int32(i32),
    Uint32(u32),
    Int64(i64),
    Uint64(u64),
    String(String),
    ObjectPath(String),
    Signature(String),
    Variant(Box<Value>),
    /// The elements and the signature of their type.
    Array(Vec<Value>, String),
    Struct(Vec<Value>),
    DictEntry(Box<Value>, Box<Value>),
}

/// A value as a handler takes or gives it: the shape of a type, without the
/// signatures that the wire format carries.
#[derive(Debug)]
pub enum Native {
    Byte(u8),
    Boolean(bool),
    Int16(i16),
    Uint16(u16),
    Int32(i32),
    Uint32(u32),
    Int64(i64),
    Uint64(u64),
    String(String),
    ObjectPath(String),
    Signature(String),
    Variant(Box<Value>),
    Array(Vec<Native>),
    Struct(Vec<Native>),
    DictEntry(Box<Native>, Box<Native>),
}

/// Why a value could not be decoded.
#[derive(Debug)]
pub enum CodecError {
    /// A value of another type stood where a value of type `expected` was due.
    Mismatch { expected: String, actual: String },
    /// The values ran out where a value of type `expected` was due.
    MissingValue { expected: String },
}

/// The first failure of a decode, over signatures.
pub enum Failure {
    Mismatch(Seq<char>, Seq<char>),
    Missing(Seq<char>),
}

/// The signature that a value carries.
pub open spec fn value_sig(v: Value) -> Seq<char>
    decreases v,
{
    match v {
        Value::Byte(_) => seq!['y'],
        Value::Boolean(_) => seq!['b'],
        Value::Int16(_) => seq!['n'],
        Value::Uint16(_) => seq!['q'],
        Value::Int32(_) => seq!['i'],
        Value::Uint32(_) => seq!['u'],
        Value::Int64(_) => seq!['x'],
        Value::Uint64(_) => seq!['t'],
        Value::String(_) => seq!['s'],
        Value::ObjectPath(_) => seq!['o'],
        Value::Signature(_) => seq!['g'],
        Value::Variant(_) => seq!['v'],
        Value::Array(_, s) => seq!['a'] + s@,
        Value::Struct(vs) => seq!['('] + value_sigs(vs@) + seq![')'],
        Value::DictEntry(k, v) => seq!['{'] + value_sig(*k) + value_sig(*v) + seq!['}'],
    }
}

/// The signatures of a sequence of values, one after the other.
pub open spec fn value_sigs(s: Seq<Value>) -> Seq<char>
    decreases s,
{
    if s.len() == 0 {
        Seq::empty()
    } else {
        value_sigs(s.drop_last()) + value_sig(s.last())
    }
}

/// The value is of the variant that a single-character type asks for.
pub open spec fn same_basic(t: TypeNode, v: Value) -> bool {
    match t {
        TypeNode::Byte => v is Byte,
        TypeNode::Boolean => v is Boolean,
        TypeNode::Int16 => v is Int16,
        TypeNode::Uint16 => v is Uint16,
        TypeNode::Int32 => v is Int32,
        TypeNode::Uint32 => v is Uint32,
        TypeNode::Int64 => v is Int64,
        TypeNode::Uint64 => v is Uint64,
        TypeNode::String => v is String,
        TypeNode::ObjectPath => v is ObjectPath,
        TypeNode::Signature => v is Signature,
        TypeNode::Variant => v is Variant,
        _ => false,
    }
}

/// The first failure met when `v` is decoded as a `t`, or `None` when it
/// decodes.
pub open spec fn failure(t: TypeNode, v: Value) -> Option<Failure>
    decreases t, 0int,
{
    match t {
        TypeNode::Array(e) => match v {
            Value::Array(vs, es) => if es@ != sig(*e) {
                Some(Failure::Mismatch(sig(*e), es@))
            } else {
                elements_failure(*e, vs@)
            },
            _ => Some(Failure::Mismatch(sig(t), value_sig(v))),
        },
        TypeNode::Struct(ts) => match v {
            Value::Struct(vs) => members_failure(ts@, vs@),
            _ => Some(Failure::Mismatch(sig(t), value_sig(v))),
        },
        TypeNode::DictEntry(kt, vt) => match v {
            Value::DictEntry(k, w) => match failure(*kt, *k) {
                Some(f) => Some(f),
                None => failure(*vt, *w),
            },
            _ => Some(Failure::Mismatch(sig(t), value_sig(v))),
        },
        _ => if same_basic(t, v) {
            None
        } else {
            Some(Failure::Mismatch(sig(t), value_sig(v)))
        },
    }
}

/// The first failure among the elements of an array of `e`.
pub open spec fn elements_failure(e: TypeNode, vs: Seq<Value>) -> Option<Failure>
    decreases e, vs.len() + 1,
{
    if vs.len() == 0 {
        None
    } else {
        match failure(e, vs[0]) {
            Some(f) => Some(f),
            None => elements_failure(e, vs.drop_first()),
        }
    }
}

/// The first failure among the members of a struct, read positionally;
/// values past the last member are not looked at.
pub open spec fn members_failure(ts: Seq<TypeNode>, vs: Seq<Value>) -> Option<Failure>
    decreases ts, 0int,
{
    if ts.len() == 0 {
        None
    } else if vs.len() == 0 {
        Some(Failure::Missing(sig(ts[0])))
    } else {
        match failure(ts[0], vs[0]) {
            Some(f) => Some(f),
            None => members_failure(ts.drop_first(), vs.drop_first()),
        }
    }
}


/// `n` is what `v` decodes to as a `t`.
pub open spec fn decodes(t: TypeNode, v: Value, n: Native) -> bool
    decreases t,
{
    match t {
        TypeNode::Byte => v is Byte && n is Byte && v->Byte_0 == n->Byte_0,
        TypeNode::Boolean => v is Boolean && n is Boolean && v->Boolean_0 == n->Boolean_0,
        TypeNode::Int16 => v is Int16 && n is Int16 && v->Int16_0 == n->Int16_0,
        TypeNode::Uint16 => v is Uint16 && n is Uint16 && v->Uint16_0 == n->Uint16_0,
        TypeNode::Int32 => v is Int32 && n is Int32 && v->Int32_0 == n->Int32_0,
        TypeNode::Uint32 => v is Uint32 && n is Uint32 && v->Uint32_0 == n->Uint32_0,
        TypeNode::Int64 => v is Int64 && n is Int64 && v->Int64_0 == n->Int64_0,
        TypeNode::Uint64 => v is Uint64 && n is Uint64 && v->Uint64_0 == n->Uint64_0,
        TypeNode::String => v is String && n is String && v->String_0@ == n->String_0@,
        TypeNode::ObjectPath => v is ObjectPath && n is ObjectPath && v->ObjectPath_0@
            == n->ObjectPath_0@,
        TypeNode::Signature => v is Signature && n is Signature && v->Signature_0@
            == n->Signature_0@,
        TypeNode::Variant => v is Variant && n is Variant && v->Variant_0 == n->Variant_0,
        TypeNode::Array(e) => match (v, n) {
            (Value::Array(vs, es), Native::Array(ns)) => {
                &&& es@ == sig(*e)
                &&& ns@.len() == vs@.len()
                &&& forall|i: int| 0 <= i < vs@.len() ==> decodes(*e, #[trigger] vs@[i], ns@[i])
            },
            _ => false,
        },
        TypeNode::Struct(ts) => match (v, n) {
            (Value::Struct(vs), Native::Struct(ns)) => {
                &&& ns@.len() == ts@.len()
                &&& vs@.len() >= ts@.len()
                &&& forall|i: int|
                    0 <= i < ts@.len() ==> decodes(#[trigger] ts@[i], vs@[i], ns@[i])
            },
            _ => false,
        },
        TypeNode::DictEntry(kt, vt) => match (v, n) {
            (Value::DictEntry(k, w), Native::DictEntry(nk, nw)) => decodes(*kt, *k, *nk)
                && decodes(*vt, *w, *nw),
            _ => false,
        },
    }
}

/// `v` has exactly the shape of a `t`: it decodes, and no struct in it has
/// members past those of its type.
pub open spec fn conforms(t: TypeNode, v: Value) -> bool
    decreases t,
{
    match t {
        TypeNode::Array(e) => match v {
            Value::Array(vs, es) => es@ == sig(*e) && forall|i: int|
                0 <= i < vs@.len() ==> conforms(*e, #[trigger] vs@[i]),
            _ => false,
        },
        TypeNode::Struct(ts) => match v {
            Value::Struct(vs) => vs@.len() == ts@.len() && forall|i: int|
                0 <= i < ts@.len() ==> conforms(#[trigger] ts@[i], vs@[i]),
            _ => false,
        },
        TypeNode::DictEntry(kt, vt) => match v {
            Value::DictEntry(k, w) => conforms(*kt, *k) && conforms(*vt, *w),
            _ => false,
        },
        _ => same_basic(t, v),
    }
}

/// `n` has the shape of a `t`, so that it can be encoded as one.
pub open spec fn fits(t: TypeNode, n: Native) -> bool
    decreases t,
{
    match t {
        TypeNode::Byte => matches!(n, Native::Byte(_)),
        TypeNode::Boolean => matches!(n, Native::Boolean(_)),
        TypeNode::Int16 => matches!(n, Native::Int16(_)),
        TypeNode::Uint16 => matches!(n, Native::Uint16(_)),
        TypeNode::Int32 => matches!(n, Native::Int32(_)),
        TypeNode::Uint32 => matches!(n, Native::Uint32(_)),
        TypeNode::Int64 => matches!(n, Native::Int64(_)),
        TypeNode::Uint64 => matches!(n, Native::Uint64(_)),
        TypeNode::String => matches!(n, Native::String(_)),
        TypeNode::ObjectPath => matches!(n, Native::ObjectPath(_)),
        TypeNode::Signature => matches!(n, Native::Signature(_)),
        TypeNode::Variant => matches!(n, Native::Variant(_)),
        TypeNode::Array(e) => match n {
            Native::Array(ns) => forall|i: int| 0 <= i < ns@.len() ==> fits(*e, #[trigger] ns@[i]),
            _ => false,
        },
        TypeNode::Struct(ts) => match n {
            Native::Struct(ns) => ns@.len() == ts@.len() && forall|i: int|
                0 <= i < ts@.len() ==> fits(#[trigger] ts@[i], ns@[i]),
            _ => false,
        },
        TypeNode::DictEntry(kt, vt) => match n {
            Native::DictEntry(k, w) => fits(*kt, *k) && fits(*vt, *w),
            _ => false,
        },
    }
}

impl CodecError {
    /// The failure that this error reports.
    pub open spec fn failure(self) -> Failure {
        match self {
            CodecError::Mismatch { expected, actual } => Failure::Mismatch(expected@, actual@),
            CodecError::MissingValue { expected } => Failure::Missing(expected@),
        }
    }
}

/// The signature that a value carries.
pub fn value_signature(v: &Value) -> (r: String)
    ensures
        r@ == value_sig(*v),
    decreases v,
{
    match v {
        Value::Array(_, es) => {
            proof {
                reveal_strlit("a");
            }
            let mut r = String::from_str("a");
            r.append(es.as_str());
            r
        },
        Value::Struct(vs) => {
            proof {
                reveal_strlit("(");
                reveal_strlit(")");
            }
            let mut r = String::from_str("(");
            let mut i: usize = 0;
            while i < vs.len()
                invariant
                    0 <= i <= vs@.len(),
                    *v == Value::Struct(*vs),
                    r@ == seq!['('] + value_sigs(vs@.subrange(0, i as int)),
                decreases vs@.len() - i,
            {
                proof {
                    assert(decreases_to!(*v => (*v)->Struct_0));
                    assert(decreases_to!(*vs => vs@));
                    assert(decreases_to!(vs@ => vs@[i as int]));
                }
                let inner = value_signature(&vs[i]);
                r.append(inner.as_str());
                assert(vs@.subrange(0, i + 1).drop_last() =~= vs@.subrange(0, i as int));
                i = i + 1;
            }
            assert(vs@.subrange(0, i as int) =~= vs@);
            r.append(")");
            r
        },
        Value::DictEntry(k, w) => {
            proof {
                reveal_strlit("{");
                reveal_strlit("}");
            }
            let key = value_signature(k);
            let value = value_signature(w);
            let mut r = String::from_str("{");
            r.append(key.as_str());
            r.append(value.as_str());
            r.append("}");
            r
        },
        _ => basic_value_signature(v),
    }
}

fn basic_value_signature(v: &Value) -> (r: String)
    requires
        !(v is Array || v is Struct || v is DictEntry),
    ensures
        r@ == value_sig(*v),
{
    proof {
        reveal_strlit("y");
        reveal_strlit("b");
        reveal_strlit("n");
        reveal_strlit("q");
        reveal_strlit("i");
        reveal_strlit("u");
        reveal_strlit("x");
        reveal_strlit("t");
        reveal_strlit("s");
        reveal_strlit("o");
        reveal_strlit("g");
        reveal_strlit("v");
    }
    let c = match v {
        Value::Byte(_) => "y",
        Value::Boolean(_) => "b",
        Value::Int16(_) => "n",
        Value::Uint16(_) => "q",
        Value::Int32(_) => "i",
        Value::Uint32(_) => "u",
        Value::Int64(_) => "x",
        Value::Uint64(_) => "t",
        Value::String(_) => "s",
        Value::ObjectPath(_) => "o",
        Value::Signature(_) => "g",
        _ => "v",
    };
    String::from_str(c)
}


fn mismatch(t: &TypeNode, v: &Value) -> (r: CodecError)
    ensures
        r.failure() == Failure::Mismatch(sig(*t), value_sig(*v)),
{
    CodecError::Mismatch { expected: t.signature(), actual: value_signature(v) }
}

fn decode_basic(t: &TypeNode, v: Value) -> (r: Result<Native, CodecError>)
    requires
        !(t is Array || t is Struct || t is DictEntry),
    ensures
        match r {
            Ok(n) => failure(*t, v) is None && decodes(*t, v, n),
            Err(e) => failure(*t, v) == Some(e.failure()),
        },
{
    match (t, v) {
        (TypeNode::Byte, Value::Byte(x)) => Ok(Native::Byte(x)),
        (TypeNode::Boolean, Value::Boolean(x)) => Ok(Native::Boolean(x)),
        (TypeNode::Int16, Value::Int16(x)) => Ok(Native::Int16(x)),
        (TypeNode::Uint16, Value::Uint16(x)) => Ok(Native::Uint16(x)),
        (TypeNode::Int32, Value::Int32(x)) => Ok(Native::Int32(x)),
        (TypeNode::Uint32, Value::Uint32(x)) => Ok(Native::Uint32(x)),
        (TypeNode::Int64, Value::Int64(x)) => Ok(Native::Int64(x)),
        (TypeNode::Uint64, Value::Uint64(x)) => Ok(Native::Uint64(x)),
        (TypeNode::String, Value::String(x)) => Ok(Native::String(x)),
        (TypeNode::ObjectPath, Value::ObjectPath(x)) => Ok(Native::ObjectPath(x)),
        (TypeNode::Signature, Value::Signature(x)) => Ok(Native::Signature(x)),
        (TypeNode::Variant, Value::Variant(x)) => Ok(Native::Variant(x)),
        (_, v) => Err(mismatch(t, &v)),
    }
}

/// Decodes a wire value as a `t`. Arrays and structs are decoded member by
/// member, and the first member that fails gives the error; members of a
/// struct value past those of its type are ignored.
pub fn decode(t: &TypeNode, v: Value) -> (r: Result<Native, CodecError>)
    ensures
        (r is Ok) <==> failure(*t, v) is None,
        match r {
            Ok(n) => decodes(*t, v, n),
            Err(e) => failure(*t, v) == Some(e.failure()),
        },
    decreases t,
{
    match t {
        TypeNode::Array(e) => match v {
            Value::Array(vs, es) => {
                let ghost orig = vs@;
                let inner = e.signature();
                if !(inner == es) {
                    return Err(CodecError::Mismatch { expected: inner, actual: es });
                }
                let mut rest = vs;
                let mut out: Vec<Native> = Vec::new();
                while rest.len() > 0
                    invariant
                        *t == TypeNode::Array(*e),
                        v == Value::Array(v->Array_0, es),
                        v->Array_0@ == orig,
                        es@ == sig(**e),
                        out@.len() <= orig.len(),
                        rest@ == orig.subrange(out@.len() as int, orig.len() as int),
                        forall|j: int| 0 <= j < out@.len() ==> decodes(**e, #[trigger] orig[j], out@[j]),
                        elements_failure(**e, orig) == elements_failure(**e, rest@),
                    decreases rest@.len(),
                {
                    let item = rest.remove(0);
                    assert(rest@ =~= orig.subrange(out@.len() as int + 1, orig.len() as int));
                    match decode(e, item) {
                        Ok(n) => {
                            out.push(n);
                        },
                        Err(x) => {
                            return Err(x);
                        },
                    }
                }
                assert(out@.len() == orig.len());
                Ok(Native::Array(out))
            },
            v => Err(mismatch(t, &v)),
        },
        TypeNode::Struct(ts) => match v {
            Value::Struct(vs) => {
                let ghost orig = vs@;
                let mut rest = vs;
                let mut out: Vec<Native> = Vec::new();
                let mut i: usize = 0;
                assert(ts@.subrange(0, ts@.len() as int) =~= ts@);
                assert(orig.subrange(0, orig.len() as int) =~= orig);
                while i < ts.len()
                    invariant
                        *t == TypeNode::Struct(*ts),
                        v == Value::Struct(v->Struct_0),
                        v->Struct_0@ == orig,
                        0 <= i <= ts@.len(),
                        i <= orig.len(),
                        out@.len() == i,
                        rest@ == orig.subrange(i as int, orig.len() as int),
                        forall|j: int| 0 <= j < i ==> decodes(#[trigger] ts@[j], orig[j], out@[j]),
                        members_failure(ts@, orig) == members_failure(
                            ts@.subrange(i as int, ts@.len() as int),
                            rest@,
                        ),
                    decreases ts@.len() - i,
                {
                    let ghost tail = ts@.subrange(i as int, ts@.len() as int);
                    assert(tail[0] == ts@[i as int]);
                    assert(tail.drop_first() =~= ts@.subrange(i + 1, ts@.len() as int));
                    if rest.len() == 0 {
                        return Err(CodecError::MissingValue { expected: ts[i].signature() });
                    }
                    let ghost before = rest@;
                    let item = rest.remove(0);
                    assert(before.drop_first() =~= rest@);
                    assert(rest@ =~= orig.subrange(i + 1, orig.len() as int));
                    proof {
                        assert(decreases_to!(*t => (*t)->Struct_0));
                        assert(decreases_to!(*ts => ts@));
                        assert(decreases_to!(ts@ => ts@[i as int]));
                    }
                    match decode(&ts[i], item) {
                        Ok(n) => {
                            out.push(n);
                        },
                        Err(x) => {
                            return Err(x);
                        },
                    }
                    i = i + 1;
                }
                Ok(Native::Struct(out))
            },
            v => Err(mismatch(t, &v)),
        },
        TypeNode::DictEntry(kt, vt) => match v {
            Value::DictEntry(k, w) => {
                let key = match decode(kt, *k) {
                    Ok(n) => n,
                    Err(x) => {
                        return Err(x);
                    },
                };
                let value = match decode(vt, *w) {
                    Ok(n) => n,
                    Err(x) => {
                        return Err(x);
                    },
                };
                Ok(Native::DictEntry(Box::new(key), Box::new(value)))
            },
            v => Err(mismatch(t, &v)),
        },
        _ => decode_basic(t, v),
    }
}


fn encode_basic(t: &TypeNode, n: Native) -> (r: Value)
    requires
        !(t is Array || t is Struct || t is DictEntry),
        fits(*t, n),
    ensures
        conforms(*t, r),
        decodes(*t, r, n),
{
    match n {
        Native::Byte(x) => Value::Byte(x),
        Native::Boolean(x) => Value::Boolean(x),
        Native::Int16(x) => Value::Int16(x),
        Native::Uint16(x) => Value::Uint16(x),
        Native::Int32(x) => Value::Int32(x),
        Native::Uint32(x) => Value::Uint32(x),
        Native::Int64(x) => Value::Int64(x),
        Native::Uint64(x) => Value::Uint64(x),
        Native::String(x) => Value::String(x),
        Native::ObjectPath(x) => Value::ObjectPath(x),
        Native::Signature(x) => Value::Signature(x),
        Native::Variant(x) => Value::Variant(x),
        // containers are ruled out by the precondition
        Native::Array(_) => Value::Struct(Vec::new()),
        Native::Struct(_) => Value::Struct(Vec::new()),
        Native::DictEntry(_, _) => Value::Struct(Vec::new()),
    }
}

/// Encodes a native value of type `t` as a wire value. An array carries the
/// signature of its element type.
pub fn encode(t: &TypeNode, n: Native) -> (r: Value)
    requires
        fits(*t, n),
    ensures
        conforms(*t, r),
        decodes(*t, r, n),
    decreases t,
{
    match t {
        TypeNode::Array(e) => match n {
            Native::Array(ns) => {
                let ghost orig = ns@;
                let es = e.signature();
                let mut rest = ns;
                let mut out: Vec<Value> = Vec::new();
                while rest.len() > 0
                    invariant
                        *t == TypeNode::Array(*e),
                        n == Native::Array(n->Array_0),
                        n->Array_0@ == orig,
                        forall|j: int| 0 <= j < orig.len() ==> fits(**e, #[trigger] orig[j]),
                        es@ == sig(**e),
                        out@.len() <= orig.len(),
                        rest@ == orig.subrange(out@.len() as int, orig.len() as int),
                        forall|j: int|
                            0 <= j < out@.len() ==> decodes(**e, #[trigger] out@[j], orig[j])
                                && conforms(**e, out@[j]),
                    decreases rest@.len(),
                {
                    let ghost k = out@.len() as int;
                    let item = rest.remove(0);
                    assert(rest@ =~= orig.subrange(k + 1, orig.len() as int));
                    assert(item == orig[k]);
                    proof {
                        assert(decreases_to!(*t => (*t)->Array_0));
                    }
                    let w = encode(e, item);
                    out.push(w);
                }
                Value::Array(out, es)
            },
            // ruled out by `fits`
            _ => Value::Struct(Vec::new()),
        },
        TypeNode::Struct(ts) => match n {
            Native::Struct(ns) => {
                let ghost orig = ns@;
                let mut rest = ns;
                let mut out: Vec<Value> = Vec::new();
                let mut i: usize = 0;
                assert(orig.subrange(0, orig.len() as int) =~= orig);
                while i < ts.len()
                    invariant
                        *t == TypeNode::Struct(*ts),
                        n == Native::Struct(n->Struct_0),
                        n->Struct_0@ == orig,
                        orig.len() == ts@.len(),
                        forall|j: int| 0 <= j < ts@.len() ==> fits(#[trigger] ts@[j], orig[j]),
                        0 <= i <= ts@.len(),
                        out@.len() == i,
                        rest@ == orig.subrange(i as int, orig.len() as int),
                        forall|j: int|
                            0 <= j < i ==> decodes(#[trigger] ts@[j], out@[j], orig[j])
                                && conforms(ts@[j], out@[j]),
                    decreases ts@.len() - i,
                {
                    let item = rest.remove(0);
                    assert(rest@ =~= orig.subrange(i + 1, orig.len() as int));
                    assert(item == orig[i as int]);
                    proof {
                        assert(decreases_to!(*t => (*t)->Struct_0));
                        assert(decreases_to!(*ts => ts@));
                        assert(decreases_to!(ts@ => ts@[i as int]));
                    }
                    let w = encode(&ts[i], item);
                    out.push(w);
                    i = i + 1;
                }
                Value::Struct(out)
            },
            // ruled out by `fits`
            _ => Value::Struct(Vec::new()),
        },
        TypeNode::DictEntry(kt, vt) => match n {
            Native::DictEntry(k, w) => {
                let key = encode(kt, *k);
                let value = encode(vt, *w);
                Value::DictEntry(Box::new(key), Box::new(value))
            },
            // ruled out by `fits`
            _ => Value::Struct(Vec::new()),
        },
        _ => encode_basic(t, n),
    }
}


/// Tells whether `n` has the shape of a `t`, so that it can be encoded.
pub fn native_fits(t: &TypeNode, n: &Native) -> (r: bool)
    ensures
        r == fits(*t, *n),
    decreases t,
{
    match t {
        TypeNode::Array(e) => match n {
            Native::Array(ns) => {
                let mut i: usize = 0;
                while i < ns.len()
                    invariant
                        *t == TypeNode::Array(*e),
                        *n == Native::Array(*ns),
                        0 <= i <= ns@.len(),
                        forall|j: int| 0 <= j < i ==> fits(**e, #[trigger] ns@[j]),
                    decreases ns@.len() - i,
                {
                    proof {
                        assert(decreases_to!(*t => (*t)->Array_0));
                    }
                    if !native_fits(e, &ns[i]) {
                        assert(!fits(**e, ns@[i as int]));
                        assert(!fits(*t, *n)) by {
                            if fits(*t, *n) {
                                assert(fits(*(*t)->Array_0, n->Array_0@[i as int]));
                            }
                        }
                        return false;
                    }
                    i = i + 1;
                }
                true
            },
            _ => false,
        },
        TypeNode::Struct(ts) => match n {
            Native::Struct(ns) => {
                if ns.len() != ts.len() {
                    return false;
                }
                let mut i: usize = 0;
                while i < ts.len()
                    invariant
                        *t == TypeNode::Struct(*ts),
                        *n == Native::Struct(*ns),
                        ns@.len() == ts@.len(),
                        0 <= i <= ts@.len(),
                        forall|j: int| 0 <= j < i ==> fits(#[trigger] ts@[j], ns@[j]),
                    decreases ts@.len() - i,
                {
                    proof {
                        assert(decreases_to!(*t => (*t)->Struct_0));
                        assert(decreases_to!(*ts => ts@));
                        assert(decreases_to!(ts@ => ts@[i as int]));
                    }
                    if !native_fits(&ts[i], &ns[i]) {
                        assert(!fits(ts@[i as int], ns@[i as int]));
                        return false;
                    }
                    i = i + 1;
                }
                true
            },
            _ => false,
        },
        TypeNode::DictEntry(kt, vt) => match n {
            Native::DictEntry(k, w) => native_fits(kt, k) && native_fits(vt, w),
            _ => false,
        },
        TypeNode::Byte => matches!(n, Native::Byte(_)),
        TypeNode::Boolean => matches!(n, Native::Boolean(_)),
        TypeNode::Int16 => matches!(n, Native::Int16(_)),
        TypeNode::Uint16 => matches!(n, Native::Uint16(_)),
        TypeNode::Int32 => matches!(n, Native::Int32(_)),
        TypeNode::Uint32 => matches!(n, Native::Uint32(_)),
        TypeNode::Int64 => matches!(n, Native::Int64(_)),
        TypeNode::Uint64 => matches!(n, Native::Uint64(_)),
        TypeNode::String => matches!(n, Native::String(_)),
        TypeNode::ObjectPath => matches!(n, Native::ObjectPath(_)),
        TypeNode::Signature => matches!(n, Native::Signature(_)),
        TypeNode::Variant => matches!(n, Native::Variant(_)),
    }
}

/// Two wire values are the same: same variants, same contents.
pub open spec fn same_value(a: Value, b: Value) -> bool
    decreases a,
{
    match (a, b) {
        (Value::Byte(x), Value::Byte(y)) => x == y,
        (Value::Boolean(x), Value::Boolean(y)) => x == y,
        (Value::Int16(x), Value::Int16(y)) => x == y,
        (Value::Uint16(x), Value::Uint16(y)) => x == y,
        (Value::Int32(x), Value::Int32(y)) => x == y,
        (Value::Uint32(x), Value::Uint32(y)) => x == y,
        (Value::Int64(x), Value::Int64(y)) => x == y,
        (Value::Uint64(x), Value::Uint64(y)) => x == y,
        (Value::String(x), Value::String(y)) => x@ == y@,
        (Value::ObjectPath(x), Value::ObjectPath(y)) => x@ == y@,
        (Value::Signature(x), Value::Signature(y)) => x@ == y@,
        (Value::Variant(x), Value::Variant(y)) => x == y,
        (Value::Array(xs, s), Value::Array(ys, r)) => {
            &&& s@ == r@
            &&& xs@.len() == ys@.len()
            &&& forall|i: int| 0 <= i < xs@.len() ==> same_value(#[trigger] xs@[i], ys@[i])
        },
        (Value::Struct(xs), Value::Struct(ys)) => {
            &&& xs@.len() == ys@.len()
            &&& forall|i: int| 0 <= i < xs@.len() ==> same_value(#[trigger] xs@[i], ys@[i])
        },
        (Value::DictEntry(k1, v1), Value::DictEntry(k2, v2)) => same_value(*k1, *k2)
            && same_value(*v1, *v2),
        _ => false,
    }
}

/// Two native values are the same: same variants, same contents.
pub open spec fn same_native(a: Native, b: Native) -> bool
    decreases a,
{
    match (a, b) {
        (Native::Byte(x), Native::Byte(y)) => x == y,
        (Native::Boolean(x), Native::Boolean(y)) => x == y,
        (Native::Int16(x), Native::Int16(y)) => x == y,
        (Native::Uint16(x), Native::Uint16(y)) => x == y,
        (Native::Int32(x), Native::Int32(y)) => x == y,
        (Native::Uint32(x), Native::Uint32(y)) => x == y,
        (Native::Int64(x), Native::Int64(y)) => x == y,
        (Native::Uint64(x), Native::Uint64(y)) => x == y,
        (Native::String(x), Native::String(y)) => x@ == y@,
        (Native::ObjectPath(x), Native::ObjectPath(y)) => x@ == y@,
        (Native::Signature(x), Native::Signature(y)) => x@ == y@,
        (Native::Variant(x), Native::Variant(y)) => x == y,
        (Native::Array(xs), Native::Array(ys)) => {
            &&& xs@.len() == ys@.len()
            &&& forall|i: int| 0 <= i < xs@.len() ==> same_native(#[trigger] xs@[i], ys@[i])
        },
        (Native::Struct(xs), Native::Struct(ys)) => {
            &&& xs@.len() == ys@.len()
            &&& forall|i: int| 0 <= i < xs@.len() ==> same_native(#[trigger] xs@[i], ys@[i])
        },
        (Native::DictEntry(k1, v1), Native::DictEntry(k2, v2)) => same_native(*k1, *k2)
            && same_native(*v1, *v2),
        _ => false,
    }
}

proof fn lemma_decodes_unique(t: TypeNode, w: Value, n: Native, m: Native)
    requires
        decodes(t, w, n),
        decodes(t, w, m),
    ensures
        same_native(m, n),
    decreases t,
{
    match t {
        TypeNode::Array(e) => {
            let ws = w->Array_0@;
            let ns = n->Array_0@;
            let ms = m->Array_0@;
            assert forall|i: int| 0 <= i < ms.len() implies same_native(#[trigger] ms[i], ns[i]) by {
                lemma_decodes_unique(*e, ws[i], ns[i], ms[i]);
            }
        },
        TypeNode::Struct(ts) => {
            let ws = w->Struct_0@;
            let ns = n->Struct_0@;
            let ms = m->Struct_0@;
            assert forall|i: int| 0 <= i < ms.len() implies same_native(#[trigger] ms[i], ns[i]) by {
                assert(decreases_to!(t => t->Struct_0));
                assert(decreases_to!(ts => ts@));
                assert(decreases_to!(ts@ => ts@[i]));
                lemma_decodes_unique(ts@[i], ws[i], ns[i], ms[i]);
            }
        },
        TypeNode::DictEntry(kt, vt) => {
            lemma_decodes_unique(*kt, *w->DictEntry_0, *n->DictEntry_0, *m->DictEntry_0);
            lemma_decodes_unique(*vt, *w->DictEntry_1, *n->DictEntry_1, *m->DictEntry_1);
        },
        _ => {},
    }
}

proof fn lemma_encodes_unique(t: TypeNode, v: Value, w: Value, n: Native)
    requires
        conforms(t, v),
        conforms(t, w),
        decodes(t, v, n),
        decodes(t, w, n),
    ensures
        same_value(v, w),
    decreases t,
{
    match t {
        TypeNode::Array(e) => {
            let vs = v->Array_0@;
            let ws = w->Array_0@;
            let ns = n->Array_0@;
            assert forall|i: int| 0 <= i < vs.len() implies same_value(#[trigger] vs[i], ws[i]) by {
                lemma_encodes_unique(*e, vs[i], ws[i], ns[i]);
            }
        },
        TypeNode::Struct(ts) => {
            let vs = v->Struct_0@;
            let ws = w->Struct_0@;
            let ns = n->Struct_0@;
            assert forall|i: int| 0 <= i < vs.len() implies same_value(#[trigger] vs[i], ws[i]) by {
                assert(decreases_to!(t => t->Struct_0));
                assert(decreases_to!(ts => ts@));
                assert(decreases_to!(ts@ => ts@[i]));
                lemma_encodes_unique(ts@[i], vs[i], ws[i], ns[i]);
            }
        },
        TypeNode::DictEntry(kt, vt) => {
            lemma_encodes_unique(*kt, *v->DictEntry_0, *w->DictEntry_0, *n->DictEntry_0);
            lemma_encodes_unique(*vt, *v->DictEntry_1, *w->DictEntry_1, *n->DictEntry_1);
        },
        _ => {},
    }
}

/// A value decodes as `t` to some native value only when decoding it as a
/// `t` meets no failure, so `decode` succeeds on it.
pub proof fn lemma_decodes_no_failure(t: TypeNode, w: Value, n: Native)
    requires
        decodes(t, w, n),
    ensures
        failure(t, w) is None,
    decreases t, 0int,
{
    match t {
        TypeNode::Array(e) => {
            lemma_elements_no_failure(*e, w->Array_0@, n->Array_0@);
        },
        TypeNode::Struct(ts) => {
            lemma_members_no_failure(ts@, w->Struct_0@, n->Struct_0@);
        },
        TypeNode::DictEntry(kt, vt) => {
            lemma_decodes_no_failure(*kt, *w->DictEntry_0, *n->DictEntry_0);
            lemma_decodes_no_failure(*vt, *w->DictEntry_1, *n->DictEntry_1);
        },
        _ => {},
    }
}

proof fn lemma_elements_no_failure(e: TypeNode, vs: Seq<Value>, ns: Seq<Native>)
    requires
        ns.len() == vs.len(),
        forall|i: int| 0 <= i < vs.len() ==> decodes(e, #[trigger] vs[i], ns[i]),
    ensures
        elements_failure(e, vs) is None,
    decreases e, vs.len() + 1,
{
    if vs.len() > 0 {
        lemma_decodes_no_failure(e, vs[0], ns[0]);
        assert forall|i: int| 0 <= i < vs.drop_first().len() implies decodes(
            e,
            #[trigger] vs.drop_first()[i],
            ns.drop_first()[i],
        ) by {
            assert(vs.drop_first()[i] == vs[i + 1]);
        }
        lemma_elements_no_failure(e, vs.drop_first(), ns.drop_first());
    }
}

proof fn lemma_members_no_failure(ts: Seq<TypeNode>, vs: Seq<Value>, ns: Seq<Native>)
    requires
        ns.len() == ts.len(),
        vs.len() >= ts.len(),
        forall|i: int| 0 <= i < ts.len() ==> decodes(#[trigger] ts[i], vs[i], ns[i]),
    ensures
        members_failure(ts, vs) is None,
    decreases ts, 0int,
{
    if ts.len() > 0 {
        lemma_decodes_no_failure(ts[0], vs[0], ns[0]);
        assert forall|i: int| 0 <= i < ts.drop_first().len() implies decodes(
            #[trigger] ts.drop_first()[i],
            vs.drop_first()[i],
            ns.drop_first()[i],
        ) by {
            assert(ts.drop_first()[i] == ts[i + 1]);
        }
        lemma_members_no_failure(ts.drop_first(), vs.drop_first(), ns.drop_first());
    }
}

/// Encoding then decoding gives the native value back: when `w` is what
/// `encode` makes of `n`, `decode` succeeds on `w`, and whatever native
/// value `m` it makes of `w` is `n`.
pub proof fn lemma_decode_of_encode(t: TypeNode, n: Native, w: Value, m: Native)
    requires
        fits(t, n),
        conforms(t, w),
        decodes(t, w, n),
    ensures
        failure(t, w) is None,
        decodes(t, w, m) ==> same_native(m, n),
{
    lemma_decodes_no_failure(t, w, n);
    if decodes(t, w, m) {
        lemma_decodes_unique(t, w, n, m);
    }
}

/// Decoding then encoding gives the wire value back: when `v` has exactly the
/// shape of `t`, `n` is what `decode` makes of it and `w` is what `encode`
/// makes of `n`, `w` is `v`.
pub proof fn lemma_encode_of_decode(t: TypeNode, v: Value, n: Native, w: Value)
    requires
        conforms(t, v),
        decodes(t, v, n),
        conforms(t, w),
        decodes(t, w, n),
    ensures
        same_value(w, v),
{
    lemma_encodes_unique(t, w, v, n);
}

} // verus!
