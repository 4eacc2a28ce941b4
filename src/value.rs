//! Decoded values and their mathematical model.
use vstd::prelude::*;
use crate::address::WideHash;

verus! {

broadcast use vstd::std_specs::vec::group_vec_axioms;

/// Mathematical model of a decoded value.
pub enum ValueModel {
    Scalar(u64),
    Record(Seq<ValueModel>),
    Sequence(Seq<ValueModel>),
    Reference(WideHash, Option<Box<ValueModel>>),
    Variant(WideHash, u32, Option<Box<ValueModel>>),
}

/// A decoded value.
#[derive(Debug, PartialEq, Eq)]
pub enum Value {
    /// The integer's bits, zero-extended.
    Scalar(u64),
    /// One value per field of the schema, in field order.
    Record(Vec<Value>),
    /// The elements, in order.
    Sequence(Vec<Value>),
    /// The address read and, unless it led nowhere, the record it resolved to.
    Reference(WideHash, Option<Box<Value>>),
    /// The address, the discriminant, and the record of the chosen shape, if any.
    Variant(WideHash, u32, Option<Box<Value>>),
}

pub open spec fn views(s: Seq<Value>) -> Seq<ValueModel>
    decreases s,
{
    Seq::new(s.len(), |i: int| if 0 <= i < s.len() { view_of(s[i]) } else { ValueModel::Scalar(0) })
}

pub open spec fn view_of(v: Value) -> ValueModel
    decreases v,
{
    match v {
        Value::Scalar(b) => ValueModel::Scalar(b),
        Value::Record(fs) => ValueModel::Record(views(fs@)),
        Value::Sequence(es) => ValueModel::Sequence(views(es@)),
        Value::Reference(a, t) => match t {
            Some(b) => ValueModel::Reference(a, Some(Box::new(view_of(*b)))),
            None => ValueModel::Reference(a, None),
        },
        Value::Variant(a, d, t) => match t {
            Some(b) => ValueModel::Variant(a, d, Some(Box::new(view_of(*b)))),
            None => ValueModel::Variant(a, d, None),
        },
    }
}

impl View for Value {
    type V = ValueModel;

    open spec fn view(&self) -> ValueModel {
        view_of(*self)
    }
}

pub proof fn lemma_views_push(s: Seq<Value>, v: Value)
    ensures
        views(s.push(v)) == views(s).push(view_of(v)),
{
    assert(views(s.push(v)) =~= views(s).push(view_of(v)));
}

} // verus!
