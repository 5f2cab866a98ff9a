//! The shared execution environment ("Core"): the memoized graph store, the
//! rule resolver, and the lifecycle discipline that keeps the environment
//! freely mutable during setup and read-only once any node may be executing
//! against it.
//!
//! In the running system the Core sits behind a reference-counted handle and
//! every in-flight node execution context holds a clone of it; exclusive
//! mutation is gated on the count being exactly one. `context_refs` is that
//! count of outstanding execution-context handles, and `Context` is the
//! handle a node executes under. The thread pool the contexts draw on is
//! owned by the unverified host around this library.

use vstd::prelude::*;

use crate::graph::{Graph, GraphEntryView};
use crate::rule_graph::{RuleGraph, RuleGraphEntryView};
use crate::types::TypeId;

verus! {

/// Lifecycle of the Core. `Initializing`: exclusively owned, freely mutable.
/// `Ready`: shared with every in-flight node's execution context; entered via
/// `finish` and never left.
#[derive(Clone, Copy, PartialEq, Eq, Structural, Debug)]
pub enum LifecycleState {
    Initializing,
    Ready,
}

/// The execution context one node runs under: its graph entry, plus (in the
/// running system) a shared handle on the Core, modeled by `context_refs`.
#[derive(Clone, Copy, PartialEq, Eq, Structural, Debug)]
pub struct Context {
    pub entry_id: u64,
}

/// The shared execution environment.
#[derive(Debug)]
pub struct Core {
    pub graph: Graph,
    pub rule_graph: RuleGraph,
    pub root_subject_types: Vec<TypeId>,
    pub state: LifecycleState,
    pub context_refs: u64,
}

/// Mathematical form of the Core.
#[verifier::ext_equal]
pub struct CoreView {
    pub graph: Seq<GraphEntryView>,
    pub rule_graph: Seq<RuleGraphEntryView>,
    pub root_subject_types: Seq<TypeId>,
    pub state: LifecycleState,
    pub context_refs: u64,
}

impl View for Core {
    type V = CoreView;

    open spec fn view(&self) -> CoreView {
        CoreView {
            graph: self.graph@,
            rule_graph: self.rule_graph@,
            root_subject_types: self.root_subject_types@,
            state: self.state,
            context_refs: self.context_refs,
        }
    }
}

impl Core {
    /// Whether the Core is well formed: the graph memoizes no key twice.
    pub open spec fn wf(&self) -> bool {
        self.graph.wf()
    }

    /// A fresh environment over the given resolver: empty graph, no expected
    /// root subject types yet, exclusively owned and mutable.
    pub fn new(rule_graph: RuleGraph) -> (c: Core)
        ensures
            c.wf(),
            c@.graph == Seq::<GraphEntryView>::empty(),
            c@.rule_graph == rule_graph@,
            c@.root_subject_types == Seq::<TypeId>::empty(),
            c@.state == LifecycleState::Initializing,
            c@.context_refs == 0,
    {
        let c = Core {
            graph: Graph::new(),
            rule_graph,
            root_subject_types: Vec::new(),
            state: LifecycleState::Initializing,
            context_refs: 0,
        };
        proof {
            assert(c@.root_subject_types =~= Seq::<TypeId>::empty());
        }
        c
    }

    /// The execution-ready transition: commits the expected root subject
    /// types and ends free mutability. The exclusivity check guarding it is
    /// the scheduler's; there is no path back to `Initializing`.
    pub fn finish(&mut self, root_subject_types: Vec<TypeId>)
        ensures
            final(self)@ == (CoreView {
                root_subject_types: root_subject_types@,
                state: LifecycleState::Ready,
                ..old(self)@
            }),
            final(self).wf() == old(self).wf(),
    {
        let ghost prev = self@;
        self.root_subject_types = root_subject_types;
        self.state = LifecycleState::Ready;
        proof {
            assert(self@ =~= (CoreView {
                root_subject_types: self.root_subject_types@,
                state: LifecycleState::Ready,
                ..prev
            }));
        }
    }
}

} // verus!
