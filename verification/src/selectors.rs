//! Selectors: declarative descriptions of a desired computation. Pure data;
//! a selector carries no resolved execution path.

use vstd::prelude::*;

use crate::types::{Field, TypeConstraint, TypeId};

verus! {

/// Direct selection: produce `product` for the subject.
#[derive(Clone, Copy, PartialEq, Eq, Structural, Debug)]
pub struct Select {
    pub product: TypeConstraint,
}

/// Dependency fan-out selection: locate dependencies of the subject through
/// `field` on an intermediate `dep_product`, then produce `product` for each
/// element whose type is among `field_types`.
#[derive(Debug)]
pub struct SelectDependencies {
    pub product: TypeConstraint,
    pub dep_product: TypeConstraint,
    pub field: Field,
    pub field_types: Vec<TypeId>,
}

/// Mathematical form of a `SelectDependencies`.
#[verifier::ext_equal]
pub struct SelectDependenciesView {
    pub product: TypeConstraint,
    pub dep_product: TypeConstraint,
    pub field: Field,
    pub field_types: Seq<TypeId>,
}

impl View for SelectDependencies {
    type V = SelectDependenciesView;

    open spec fn view(&self) -> SelectDependenciesView {
        SelectDependenciesView {
            product: self.product,
            dep_product: self.dep_product,
            field: self.field,
            field_types: self.field_types@,
        }
    }
}

/// The closed set of selection kinds a request may use.
#[derive(Debug)]
pub enum Selector {
    Select(Select),
    SelectDependencies(SelectDependencies),
}

/// Mathematical form of a `Selector`.
#[verifier::ext_equal]
pub enum SelectorView {
    Select(Select),
    SelectDependencies(SelectDependenciesView),
}

impl View for Selector {
    type V = SelectorView;

    open spec fn view(&self) -> SelectorView {
        match self {
            Selector::Select(s) => SelectorView::Select(*s),
            Selector::SelectDependencies(s) => SelectorView::SelectDependencies(s@),
        }
    }
}

impl Selector {
    /// Builds a direct selection of `product`.
    pub fn select(product: TypeConstraint) -> (r: Selector)
        ensures
            r@ == SelectorView::Select(Select { product }),
    {
        Selector::Select(Select { product })
    }

    /// Copies the selector; the copy denotes the same mathematical selector.
    pub fn duplicate(&self) -> (r: Selector)
        ensures
            r@ == self@,
    {
        match self {
            Selector::Select(s) => Selector::Select(*s),
            Selector::SelectDependencies(s) => Selector::SelectDependencies(s.duplicate()),
        }
    }
}

/// Copies a list of type identifiers.
pub fn clone_type_ids(v: &Vec<TypeId>) -> (r: Vec<TypeId>)
    ensures
        r@ == v@,
{
    let mut r: Vec<TypeId> = Vec::new();
    let mut i: usize = 0;
    while i < v.len()
        invariant
            i <= v.len(),
            r@ == v@.take(i as int),
        decreases v.len() - i,
    {
        r.push(v[i]);
        i = i + 1;
    }
    proof {
        assert(r@ =~= v@);
    }
    r
}

/// Decides equality of two lists of type identifiers.
pub fn type_ids_eq(a: &Vec<TypeId>, b: &Vec<TypeId>) -> (r: bool)
    ensures
        r == (a@ == b@),
{
    if a.len() != b.len() {
        return false;
    }
    let mut i: usize = 0;
    while i < a.len()
        invariant
            i <= a.len(),
            a@.len() == b@.len(),
            forall|j: int| 0 <= j < i ==> a@[j] == b@[j],
        decreases a.len() - i,
    {
        if a[i] != b[i] {
            return false;
        }
        i = i + 1;
    }
    proof {
        assert(a@ =~= b@);
    }
    true
}

impl SelectDependencies {
    /// Copies the selection; the copy denotes the same mathematical selection.
    pub fn duplicate(&self) -> (r: SelectDependencies)
        ensures
            r@ == self@,
    {
        SelectDependencies {
            product: self.product,
            dep_product: self.dep_product,
            field: self.field,
            field_types: clone_type_ids(&self.field_types),
        }
    }

    /// Decides equality of two dependency selections.
    pub fn equals(&self, other: &SelectDependencies) -> (r: bool)
        ensures
            r == (self@ == other@),
    {
        let r = self.product == other.product && self.dep_product == other.dep_product
            && self.field == other.field && type_ids_eq(&self.field_types, &other.field_types);
        proof {
            if r {
                assert(self@ =~= other@);
            }
        }
        r
    }
}

/// Decides equality of two selectors.
pub fn selector_eq(a: &Selector, b: &Selector) -> (r: bool)
    ensures
        r == (a@ == b@),
{
    match (a, b) {
        (Selector::Select(x), Selector::Select(y)) => x.product == y.product,
        (Selector::SelectDependencies(x), Selector::SelectDependencies(y)) => x.equals(y),
        _ => false,
    }
}

} // verus!
