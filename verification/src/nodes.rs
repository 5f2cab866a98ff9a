//! Node identity: the graph-level key a root (or any computation) is memoized
//! under. Two requests with identical (subject, selector, edges) share one
//! key and therefore share one cached result.

use vstd::prelude::*;

use crate::rule_graph::RuleEdges;
use crate::selectors::{selector_eq, Selector, SelectorView};
use crate::types::Key;

verus! {

/// Identity of one memoized computation: the subject it is about, the
/// selector that requested it, and the resolved execution edges.
#[derive(Debug)]
pub struct NodeKey {
    pub subject: Key,
    pub selector: Selector,
    pub edges: RuleEdges,
}

/// Mathematical form of a `NodeKey`.
#[verifier::ext_equal]
pub struct NodeKeyView {
    pub subject: Key,
    pub selector: SelectorView,
    pub edges: RuleEdges,
}

impl View for NodeKey {
    type V = NodeKeyView;

    open spec fn view(&self) -> NodeKeyView {
        NodeKeyView { subject: self.subject, selector: self.selector@, edges: self.edges }
    }
}

impl NodeKey {
    /// Copies the key; the copy denotes the same mathematical key.
    pub fn duplicate(&self) -> (r: NodeKey)
        ensures
            r@ == self@,
    {
        NodeKey { subject: self.subject, selector: self.selector.duplicate(), edges: self.edges }
    }
}

/// Decides equality of two node keys.
pub fn node_key_eq(a: &NodeKey, b: &NodeKey) -> (r: bool)
    ensures
        r == (a@ == b@),
{
    let r = a.subject == b.subject && selector_eq(&a.selector, &b.selector) && a.edges == b.edges;
    proof {
        if r {
            assert(a@ =~= b@);
        }
    }
    r
}

} // verus!
