//! Leaf data of the engine: identities of subjects, products and fields, and
//! the values and failures that computations produce.

use vstd::prelude::*;

verus! {

/// Identity of a type in the engine's type universe. A subject carries one;
/// the rule resolver matches on it.
#[derive(Clone, Copy, PartialEq, Eq, Structural, Debug)]
pub struct TypeId {
    pub id: u64,
}

/// Identity of a desired output type: a request parameter, and the constraint
/// the rule resolver matches execution paths against.
#[derive(Clone, Copy, PartialEq, Eq, Structural, Debug)]
pub struct TypeConstraint {
    pub constraint: u64,
}

/// Identity plus type tag of the value a computation is about. Immutable;
/// many roots may share one subject.
#[derive(Clone, Copy, PartialEq, Eq, Structural, Debug)]
pub struct Key {
    pub id: u64,
    pub type_id: TypeId,
}

impl Key {
    /// The declared type of the subject, which resolution is directed by.
    pub fn type_id(&self) -> (t: TypeId)
        ensures
            t == self.type_id,
    {
        self.type_id
    }
}

/// Identity of a field used by dependency fan-out selection.
#[derive(Clone, Copy, PartialEq, Eq, Structural, Debug)]
pub struct Field {
    pub id: u64,
}

/// A value produced by a computation: a single opaque handle, or the ordered
/// collection that a dependency fan-out aggregates.
#[derive(Debug)]
pub enum Value {
    Atom(u64),
    List(Vec<u64>),
}

/// Mathematical form of a `Value`.
#[verifier::ext_equal]
pub enum ValueView {
    Atom(u64),
    List(Seq<u64>),
}

impl View for Value {
    type V = ValueView;

    open spec fn view(&self) -> ValueView {
        match self {
            Value::Atom(n) => ValueView::Atom(*n),
            Value::List(items) => ValueView::List(items@),
        }
    }
}

/// Description of a failed computation.
#[derive(Clone, Copy, PartialEq, Eq, Structural, Debug)]
pub struct Failure {
    pub info: u64,
}

/// Terminal outcome of a root's computation.
pub type RootResult = Result<Value, Failure>;

/// Mathematical form of a `RootResult`.
pub type RootResultView = Result<ValueView, Failure>;

/// Mathematical form of an optional `RootResult`, as `peek` reports it.
pub open spec fn root_result_view(r: RootResult) -> RootResultView {
    match r {
        Ok(v) => Ok(v@),
        Err(f) => Err(f),
    }
}

/// View of the optional outcome a non-blocking lookup reports.
pub open spec fn opt_result_view(r: Option<RootResult>) -> Option<RootResultView> {
    match r {
        Some(res) => Some(root_result_view(res)),
        None => None,
    }
}

/// Copies a list of plain identifiers.
pub fn clone_ids(v: &Vec<u64>) -> (r: Vec<u64>)
    ensures
        r@ == v@,
{
    let mut r: Vec<u64> = Vec::new();
    let mut i: usize = 0;
    while i < v.len()
        invariant
            i <= v.len(),
            r@ == v@.take(i as int),
        decreases v.len() - i,
    {
        r.push(v[i]);
        i = i + 1;
    }
    proof {
        assert(r@ =~= v@);
    }
    r
}

impl Value {
    /// Copies the value; the copy denotes the same mathematical value.
    pub fn duplicate(&self) -> (r: Value)
        ensures
            r@ == self@,
    {
        match self {
            Value::Atom(n) => Value::Atom(*n),
            Value::List(items) => Value::List(clone_ids(items)),
        }
    }
}

/// Copies an outcome; the copy denotes the same mathematical outcome.
pub fn duplicate_result(r: &RootResult) -> (d: RootResult)
    ensures
        root_result_view(d) == root_result_view(*r),
{
    match r {
        Ok(v) => Ok(v.duplicate()),
        Err(f) => Err(*f),
    }
}

} // verus!
