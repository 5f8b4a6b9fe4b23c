//! Replies built from what the handlers returned. A handler fails with an
//! error name and message, which are passed on as the error reply.
use vstd::prelude::*;
use crate::signature::TypeNode;
use crate::codec::{Value, Native, encode, fits, conforms, decodes, native_fits};
use crate::descriptor::PropertyDescriptor;
use crate::dispatch::{Reply, Outcome};

verus! {

broadcast use vstd::std_specs::vec::group_vec_axioms;

/// What a handler returns: a value, or an error name and message.
pub type HandlerResult<T> = Result<T, (String, String)>;

/// The error reply for a failed handler.
pub fn handler_error(name: String, message: String) -> (r: Reply)
    ensures
        r.outcome() == Outcome::Error(name@, message@),
{
    Reply::Error { name, message }
}

/// The `j`-th result of a method with `count` results held in `n`: `n`
/// itself when there is one, else the `j`-th member of the struct `n`.
pub open spec fn output_part(n: Native, count: int, j: int) -> Native {
    if count == 1 {
        n
    } else {
        n->Struct_0@[j]
    }
}

/// `n` can be returned by a method whose results have the types `outputs`:
/// anything when there are none, a value of the one type, or a struct of
/// values of each type.
pub open spec fn fits_outputs(outputs: Seq<TypeNode>, n: Native) -> bool {
    if outputs.len() == 0 {
        true
    } else if outputs.len() == 1 {
        fits(outputs[0], n)
    } else {
        &&& n is Struct
        &&& n->Struct_0@.len() == outputs.len()
        &&& forall|j: int| 0 <= j < outputs.len() ==> fits(#[trigger] outputs[j], n->Struct_0@[j])
    }
}

/// Tells whether `n` can be returned by a method whose results have the
/// types `outputs`.
pub fn outputs_fit(outputs: &Vec<TypeNode>, n: &Native) -> (r: bool)
    ensures
        r == fits_outputs(outputs@, *n),
{
    if outputs.len() == 0 {
        return true;
    }
    if outputs.len() == 1 {
        return native_fits(&outputs[0], n);
    }
    match n {
        Native::Struct(parts) => {
            if parts.len() != outputs.len() {
                return false;
            }
            let mut j: usize = 0;
            while j < outputs.len()
                invariant
                    outputs@.len() > 1,
                    *n == Native::Struct(*parts),
                    parts@.len() == outputs@.len(),
                    0 <= j <= outputs@.len(),
                    forall|i: int| 0 <= i < j ==> fits(#[trigger] outputs@[i], parts@[i]),
                decreases outputs@.len() - j,
            {
                if !native_fits(&outputs[j], &parts[j]) {
                    assert(!fits(outputs@[j as int], parts@[j as int]));
                    return false;
                }
                j = j + 1;
            }
            true
        },
        _ => false,
    }
}

/// The reply to a method call once its handler has run: the error it gave,
/// or a method return carrying each result encoded by its type.
pub fn method_reply(outputs: &Vec<TypeNode>, result: HandlerResult<Native>) -> (r: Reply)
    requires
        result is Ok ==> fits_outputs(outputs@, result->Ok_0),
    ensures
        match result {
            Err((name, message)) => r.outcome() == Outcome::Error(name@, message@),
            Ok(n) => {
                &&& r is Return
                &&& r->Return_0@.len() == outputs@.len()
                &&& forall|j: int|
                    0 <= j < outputs@.len() ==> conforms(#[trigger] outputs@[j], r->Return_0@[j])
                        && decodes(outputs@[j], r->Return_0@[j], output_part(n, outputs@.len() as int, j))
            },
        },
{
    let n = match result {
        Err((name, message)) => {
            return handler_error(name, message);
        },
        Ok(n) => n,
    };
    let mut values: Vec<Value> = Vec::new();
    if outputs.len() == 0 {
        return Reply::Return(values);
    }
    if outputs.len() == 1 {
        values.push(encode(&outputs[0], n));
        return Reply::Return(values);
    }
    let ghost whole = n;
    let parts = match n {
        Native::Struct(parts) => parts,
        // ruled out by `fits_outputs`
        _ => {
            return Reply::Return(values);
        },
    };
    let ghost orig = parts@;
    let mut rest = parts;
    let mut j: usize = 0;
    assert(orig.subrange(0, orig.len() as int) =~= orig);
    while j < outputs.len()
        invariant
            whole == Native::Struct(whole->Struct_0),
            whole->Struct_0@ == orig,
            outputs@.len() > 1,
            fits_outputs(outputs@, whole),
            0 <= j <= outputs@.len(),
            values@.len() == j,
            rest@ == orig.subrange(j as int, orig.len() as int),
            forall|i: int|
                0 <= i < j ==> conforms(#[trigger] outputs@[i], values@[i]) && decodes(
                    outputs@[i],
                    values@[i],
                    output_part(whole, outputs@.len() as int, i),
                ),
        decreases outputs@.len() - j,
    {
        let item = rest.remove(0);
        assert(rest@ =~= orig.subrange(j + 1, orig.len() as int));
        assert(item == orig[j as int]);
        values.push(encode(&outputs[j], item));
        j = j + 1;
    }
    Reply::Return(values)
}

/// The reply to `Get` once the getter has run: the error it gave, or the
/// value encoded by the property's type inside a variant.
pub fn get_reply(property: &PropertyDescriptor, result: HandlerResult<Native>) -> (r: Reply)
    requires
        result is Ok ==> fits(property.node, result->Ok_0),
    ensures
        match result {
            Err((name, message)) => r.outcome() == Outcome::Error(name@, message@),
            Ok(n) => {
                &&& r is Return
                &&& r->Return_0@.len() == 1
                &&& r->Return_0@[0] is Variant
                &&& conforms(property.node, *r->Return_0@[0]->Variant_0)
                &&& decodes(property.node, *r->Return_0@[0]->Variant_0, n)
            },
        },
{
    match result {
        Err((name, message)) => handler_error(name, message),
        Ok(n) => {
            let mut values: Vec<Value> = Vec::new();
            values.push(Value::Variant(Box::new(encode(&property.node, n))));
            Reply::Return(values)
        },
    }
}

/// The types of the readable properties, in declaration order.
pub open spec fn readable_nodes(props: Seq<PropertyDescriptor>) -> Seq<TypeNode>
    decreases props.len(),
{
    if props.len() == 0 {
        Seq::empty()
    } else if props.last().readable {
        readable_nodes(props.drop_last()).push(props.last().node)
    } else {
        readable_nodes(props.drop_last())
    }
}

/// The positions of the readable properties, in declaration order.
pub open spec fn readable_positions(props: Seq<PropertyDescriptor>) -> Seq<int>
    decreases props.len(),
{
    if props.len() == 0 {
        Seq::empty()
    } else if props.last().readable {
        readable_positions(props.drop_last()).push(props.len() - 1)
    } else {
        readable_positions(props.drop_last())
    }
}

/// The positions of the properties whose getters `GetAll` calls: the
/// readable ones, in declaration order. The `j`-th has the `j`-th type that
/// `get_all_reply` encodes with.
pub fn readable_properties(props: &Vec<PropertyDescriptor>) -> (r: Vec<usize>)
    ensures
        r@.map_values(|i: usize| i as int) == readable_positions(props@),
        r@.len() == readable_nodes(props@).len(),
        forall|j: int|
            0 <= j < r@.len() ==> {
                &&& #[trigger] r@[j] < props@.len()
                &&& props@[r@[j] as int].readable
                &&& props@[r@[j] as int].node == readable_nodes(props@)[j]
            },
{
    let mut r: Vec<usize> = Vec::new();
    let mut i: usize = 0;
    while i < props.len()
        invariant
            0 <= i <= props@.len(),
            r@.map_values(|k: usize| k as int) == readable_positions(props@.subrange(0, i as int)),
            r@.len() == readable_nodes(props@.subrange(0, i as int)).len(),
            forall|j: int|
                0 <= j < r@.len() ==> {
                    &&& #[trigger] r@[j] < i
                    &&& props@[r@[j] as int].readable
                    &&& props@[r@[j] as int].node == readable_nodes(props@.subrange(0, i as int))[j]
                },
        decreases props@.len() - i,
    {
        let ghost sub = props@.subrange(0, i + 1);
        assert(sub.drop_last() =~= props@.subrange(0, i as int));
        assert(sub.last() == props@[i as int]);
        if props[i].readable {
            let ghost before = r@;
            r.push(i);
            assert(r@.map_values(|k: usize| k as int) =~= before.map_values(|k: usize| k as int).push(i as int));
        }
        i = i + 1;
    }
    assert(props@.subrange(0, i as int) =~= props@);
    r
}

/// The types of the readable properties of `props`, as a vector.
pub fn readable_types(props: &Vec<PropertyDescriptor>) -> (r: Vec<&TypeNode>)
    ensures
        r@.len() == readable_nodes(props@).len(),
        forall|j: int| 0 <= j < r@.len() ==> *#[trigger] r@[j] == readable_nodes(props@)[j],
{
    let mut r: Vec<&TypeNode> = Vec::new();
    let mut i: usize = 0;
    while i < props.len()
        invariant
            0 <= i <= props@.len(),
            r@.len() == readable_nodes(props@.subrange(0, i as int)).len(),
            forall|j: int| 0 <= j < r@.len() ==> *#[trigger] r@[j] == readable_nodes(props@.subrange(0, i as int))[j],
        decreases props@.len() - i,
    {
        assert(props@.subrange(0, i + 1).drop_last() =~= props@.subrange(0, i as int));
        if props[i].readable {
            r.push(&props[i].node);
        }
        i = i + 1;
    }
    assert(props@.subrange(0, i as int) =~= props@);
    r
}


/// The reply to `GetAll` once the getters of the readable properties have
/// run, one result each in declaration order: the first error among them,
/// or an array of variants holding each value encoded by its type.
pub fn get_all_reply(properties: &Vec<PropertyDescriptor>, results: Vec<HandlerResult<Native>>) -> (r: Reply)
    requires
        results@.len() == readable_nodes(properties@).len(),
        forall|j: int|
            0 <= j < results@.len() && (#[trigger] results@[j]) is Ok ==> fits(
                readable_nodes(properties@)[j],
                results@[j]->Ok_0,
            ),
    ensures
        (exists|j: int| 0 <= j < results@.len() && results@[j] is Err) ==> exists|j: int|
            0 <= j < results@.len() && (forall|k: int| 0 <= k < j ==> results@[k] is Ok) && match #[trigger] results@[j] {
                Err((name, message)) => r.outcome() == Outcome::Error(name@, message@),
                Ok(_) => false,
            },
        (forall|j: int| 0 <= j < results@.len() ==> results@[j] is Ok) ==> {
            let nodes = readable_nodes(properties@);
            &&& r is Return
            &&& r->Return_0@.len() == 1
            &&& r->Return_0@[0] is Array
            &&& r->Return_0@[0]->Array_1@ == seq!['v']
            &&& r->Return_0@[0]->Array_0@.len() == nodes.len()
            &&& forall|j: int|
                0 <= j < nodes.len() ==> {
                    let v = #[trigger] r->Return_0@[0]->Array_0@[j];
                    &&& v is Variant
                    &&& conforms(nodes[j], *v->Variant_0)
                    &&& decodes(nodes[j], *v->Variant_0, results@[j]->Ok_0)
                }
        },
{
    let types = readable_types(properties);
    let ghost nodes = readable_nodes(properties@);
    let ghost orig = results@;
    let mut rest = results;
    let mut out: Vec<Value> = Vec::new();
    let mut j: usize = 0;
    assert(orig.subrange(0, orig.len() as int) =~= orig);
    while j < types.len()
        invariant
            orig == results@,
            nodes == readable_nodes(properties@),
            orig.len() == nodes.len(),
            types@.len() == nodes.len(),
            forall|i: int| 0 <= i < types@.len() ==> *#[trigger] types@[i] == nodes[i],
            forall|i: int| 0 <= i < orig.len() && (#[trigger] orig[i]) is Ok ==> fits(nodes[i], orig[i]->Ok_0),
            0 <= j <= nodes.len(),
            out@.len() == j,
            rest@ == orig.subrange(j as int, orig.len() as int),
            forall|i: int| 0 <= i < j ==> orig[i] is Ok,
            forall|i: int|
                0 <= i < j ==> {
                    let v = #[trigger] out@[i];
                    &&& v is Variant
                    &&& conforms(nodes[i], *v->Variant_0)
                    &&& decodes(nodes[i], *v->Variant_0, orig[i]->Ok_0)
                },
        decreases nodes.len() - j,
    {
        let item = rest.remove(0);
        assert(rest@ =~= orig.subrange(j + 1, orig.len() as int));
        assert(item == orig[j as int]);
        match item {
            Err((name, message)) => {
                assert(orig[j as int] is Err);
                return handler_error(name, message);
            },
            Ok(n) => {
                out.push(Value::Variant(Box::new(encode(types[j], n))));
            },
        }
        j = j + 1;
    }
    proof {
        reveal_strlit("v");
    }
    let mut values: Vec<Value> = Vec::new();
    values.push(Value::Array(out, String::from_str("v")));
    Reply::Return(values)
}

/// The reply to `Set` once the setter has run: the error it gave, or an
/// empty method return.
pub fn set_reply(result: HandlerResult<()>) -> (r: Reply)
    ensures
        match result {
            Err((name, message)) => r.outcome() == Outcome::Error(name@, message@),
            Ok(_) => r is Return && r->Return_0@.len() == 0,
        },
{
    match result {
        Err((name, message)) => handler_error(name, message),
        Ok(_) => Reply::Return(Vec::new()),
    }
}

} // verus!
