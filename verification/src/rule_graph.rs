//! The static rule resolver: a fixed table of execution edges, queried with a
//! subject type and a selector. Resolution is a pure function of that pair,
//! so identical registrations always resolve identically — the property that
//! lets the graph memoize purely on node identity.

use vstd::prelude::*;

use crate::selectors::{selector_eq, Selector, SelectorView};
use crate::types::TypeId;

verus! {

/// Resolver-produced description of how to satisfy a (subject type, selector)
/// pair. The scheduler treats it as an opaque capability token: it never
/// interprets the edges, only hands them to node construction.
#[derive(Clone, Copy, PartialEq, Eq, Structural, Debug)]
pub struct RuleEdges {
    pub id: u64,
}

/// One row of the resolver's table.
#[derive(Debug)]
pub struct RuleGraphEntry {
    pub subject_type: TypeId,
    pub selector: Selector,
    pub edges: RuleEdges,
}

/// Mathematical form of a table row.
#[verifier::ext_equal]
pub struct RuleGraphEntryView {
    pub subject_type: TypeId,
    pub selector: SelectorView,
    pub edges: RuleEdges,
}

impl View for RuleGraphEntry {
    type V = RuleGraphEntryView;

    open spec fn view(&self) -> RuleGraphEntryView {
        RuleGraphEntryView {
            subject_type: self.subject_type,
            selector: self.selector@,
            edges: self.edges,
        }
    }
}

/// The resolver: its statically computed edge table. How the table is built
/// is outside this core; the scheduler only queries it.
#[derive(Debug)]
pub struct RuleGraph {
    pub entries: Vec<RuleGraphEntry>,
}

impl View for RuleGraph {
    type V = Seq<RuleGraphEntryView>;

    open spec fn view(&self) -> Seq<RuleGraphEntryView> {
        self.entries@.map(|i: int, e: RuleGraphEntry| e@)
    }
}

/// The edges the table assigns to a (subject type, selector) pair: those of
/// the first matching row, or `None` when no row matches.
pub open spec fn find_edges(
    entries: Seq<RuleGraphEntryView>,
    subject_type: TypeId,
    selector: SelectorView,
) -> Option<RuleEdges>
    decreases entries.len(),
{
    if entries.len() == 0 {
        None
    } else if entries[0].subject_type == subject_type && entries[0].selector == selector {
        Some(entries[0].edges)
    } else {
        find_edges(entries.drop_first(), subject_type, selector)
    }
}

impl RuleGraph {
    /// A resolver over the given edge table.
    pub fn new(entries: Vec<RuleGraphEntry>) -> (r: RuleGraph)
        ensures
            r@ == entries@.map(|i: int, e: RuleGraphEntry| e@),
    {
        RuleGraph { entries }
    }

    /// The execution edges that statically satisfy `(subject_type, selector)`,
    /// or `None` when no valid path exists.
    pub fn find_root_edges(&self, subject_type: TypeId, selector: &Selector) -> (r: Option<
        RuleEdges,
    >)
        ensures
            r == find_edges(self@, subject_type, selector@),
    {
        let mut i: usize = 0;
        proof {
            assert(self@.skip(0) =~= self@);
        }
        while i < self.entries.len()
            invariant
                i <= self.entries.len(),
                find_edges(self@, subject_type, selector@) == find_edges(
                    self@.skip(i as int),
                    subject_type,
                    selector@,
                ),
            decreases self.entries.len() - i,
        {
            let e = &self.entries[i];
            if e.subject_type == subject_type && selector_eq(&e.selector, selector) {
                proof {
                    assert(self@.skip(i as int)[0] == e@);
                }
                return Some(e.edges);
            }
            proof {
                assert(self@.skip(i as int).drop_first() =~= self@.skip(i as int + 1));
                assert(self@.skip(i as int)[0] == e@);
            }
            i = i + 1;
        }
        proof {
            assert(self@.skip(i as int).len() == 0);
        }
        None
    }
}

} // verus!
