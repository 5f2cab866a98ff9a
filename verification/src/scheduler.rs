//! The state of an execution of (a subgraph of) a graph: an ordered list of
//! resolved root requests over a shared execution environment, with
//! registration, execution, introspection and lifecycle transitions.

use vstd::prelude::*;

use crate::context::{Context, Core, CoreView, LifecycleState};
use crate::graph::{lemma_lookup_push, lookup, GraphEntryView};
use crate::nodes::{node_key_eq, NodeKey, NodeKeyView};
use crate::rule_graph::{find_edges, RuleEdges};
use crate::selectors::{clone_type_ids, Select, SelectDependencies, SelectDependenciesView,
    Selector, SelectorView};
use crate::types::{duplicate_result, Field, Key, RootResult, RootResultView, TypeConstraint,
    TypeId};

verus! {

/// A resolved, registered top-level request. Root requests are limited to the
/// selection kinds known to produce values. Created only by successful
/// registration; immutable thereafter.
#[derive(Debug)]
pub enum Root {
    Select { subject: Key, selector: Select, edges: RuleEdges },
    SelectDependencies { subject: Key, selector: SelectDependencies, edges: RuleEdges },
}

/// Mathematical form of a `Root`.
#[verifier::ext_equal]
pub enum RootView {
    Select { subject: Key, selector: Select, edges: RuleEdges },
    SelectDependencies { subject: Key, selector: SelectDependenciesView, edges: RuleEdges },
}

impl View for Root {
    type V = RootView;

    open spec fn view(&self) -> RootView {
        match self {
            Root::Select { subject, selector, edges } => RootView::Select {
                subject: *subject,
                selector: *selector,
                edges: *edges,
            },
            Root::SelectDependencies { subject, selector, edges } => RootView::SelectDependencies {
                subject: *subject,
                selector: selector@,
                edges: *edges,
            },
        }
    }
}

/// The subject a root is about.
pub open spec fn root_subject(r: RootView) -> Key {
    match r {
        RootView::Select { subject, .. } => subject,
        RootView::SelectDependencies { subject, .. } => subject,
    }
}

/// The product constraint a root requests.
pub open spec fn root_product(r: RootView) -> TypeConstraint {
    match r {
        RootView::Select { selector, .. } => selector.product,
        RootView::SelectDependencies { selector, .. } => selector.product,
    }
}

/// The selector a root was registered with.
pub open spec fn root_selector(r: RootView) -> SelectorView {
    match r {
        RootView::Select { selector, .. } => SelectorView::Select(selector),
        RootView::SelectDependencies { selector, .. } => SelectorView::SelectDependencies(selector),
    }
}

/// The execution edges resolution bound to a root.
pub open spec fn root_edges(r: RootView) -> RuleEdges {
    match r {
        RootView::Select { edges, .. } => edges,
        RootView::SelectDependencies { edges, .. } => edges,
    }
}

/// The graph-level identity a root is memoized under: a pure function of
/// (subject, selector, edges), so identical requests share one node.
pub open spec fn root_node_key(r: RootView) -> NodeKeyView {
    NodeKeyView { subject: root_subject(r), selector: root_selector(r), edges: root_edges(r) }
}

/// The node key of a root, executably.
pub fn root_node_key_of(r: &Root) -> (k: NodeKey)
    ensures
        k@ == root_node_key(r@),
{
    match r {
        Root::Select { subject, selector, edges } => NodeKey {
            subject: *subject,
            selector: Selector::Select(*selector),
            edges: *edges,
        },
        Root::SelectDependencies { subject, selector, edges } => NodeKey {
            subject: *subject,
            selector: Selector::SelectDependencies(selector.duplicate()),
            edges: *edges,
        },
    }
}

/// Why a scheduler operation was refused.
#[derive(Debug)]
pub enum SchedulerError {
    /// The resolver found no execution edges for the named subject type and
    /// selector: a configuration error, detected eagerly at registration.
    NoRootEdges { subject_type: TypeId, selector: Selector },
    /// A root's subject type is not among the expected root subject types.
    UnexpectedSubjectType { subject_type: TypeId },
    /// An exclusive-mutation operation was requested while a concurrent
    /// execution context still holds the Core.
    CoreShared,
}

/// Aggregate counters describing one `execute` call. Advisory only; the
/// counting itself is a placeholder in the return shape, not yet populated.
#[derive(Clone, Copy, PartialEq, Eq, Structural, Debug)]
pub struct ExecutionStat {
    pub runnable_count: u64,
    pub scheduling_iterations: u64,
}

/// Represents the state of an execution of (a subgraph of) a graph.
#[derive(Debug)]
pub struct Scheduler {
    pub core: Core,
    /// Initial set of roots for the execution, in the order they were declared.
    roots: Vec<Root>,
    expected_root_subject_types: Vec<TypeId>,
}

/// Mathematical form of a `Scheduler`.
#[verifier::ext_equal]
pub struct SchedulerView {
    pub core: CoreView,
    pub roots: Seq<RootView>,
    pub expected_root_subject_types: Seq<TypeId>,
}

impl View for Scheduler {
    type V = SchedulerView;

    closed spec fn view(&self) -> SchedulerView {
        SchedulerView {
            core: self.core@,
            roots: self.roots@.map(|i: int, r: Root| r@),
            expected_root_subject_types: self.expected_root_subject_types@,
        }
    }
}

/// Whether registering a root for `subject` is consistent with the committed
/// expected root subject types. Before the Core is execution-ready the
/// expectation is not yet committed, so every subject is admissible; once it
/// is ready, the subject's type must be among the committed types. (The
/// complementary direction is checked when the types are committed.)
pub open spec fn registration_allowed(core: CoreView, subject: Key) -> bool {
    core.state == LifecycleState::Ready ==> core.root_subject_types.contains(subject.type_id)
}

/// What `root_states` reports: for every root in declaration order, its
/// subject, its requested product, and the memoized outcome if one exists.
pub open spec fn root_states_spec(graph: Seq<GraphEntryView>, roots: Seq<RootView>) -> Seq<
    (Key, TypeConstraint, Option<RootResultView>),
> {
    Seq::new(
        roots.len(),
        |i: int| (root_subject(roots[i]), root_product(roots[i]), lookup(graph, root_node_key(roots[i]))),
    )
}

/// Whether the committed outcome `r` is the view of the reported outcome.
pub open spec fn reported(r: Option<RootResult>) -> Option<RootResultView> {
    crate::types::opt_result_view(r)
}

/// The subject type of the first registered root whose subject type is not
/// among `types`, or `None` when every root conforms.
pub open spec fn first_unexpected(roots: Seq<RootView>, types: Seq<TypeId>) -> Option<TypeId>
    decreases roots.len(),
{
    if roots.len() == 0 {
        None
    } else if !types.contains(root_subject(roots[0]).type_id) {
        Some(root_subject(roots[0]).type_id)
    } else {
        first_unexpected(roots.drop_first(), types)
    }
}

/// Decides whether `t` occurs in `v`.
pub fn contains_type_id(v: &Vec<TypeId>, t: TypeId) -> (r: bool)
    ensures
        r == v@.contains(t),
{
    let mut i: usize = 0;
    while i < v.len()
        invariant
            i <= v.len(),
            forall|j: int| 0 <= j < i ==> v@[j] != t,
        decreases v.len() - i,
    {
        if v[i] == t {
            return true;
        }
        i = i + 1;
    }
    false
}

impl Scheduler {
    /// Whether the scheduler is well formed: its graph memoizes no key twice.
    pub open spec fn wf(&self) -> bool {
        crate::graph::entries_wf(self@.core.graph)
    }

    /// Creates a Scheduler with an initially empty set of roots. The Core is
    /// moved into the scheduler's ownership at this point.
    pub fn new(core: Core, root_subject_types: Vec<TypeId>) -> (s: Scheduler)
        ensures
            s@.core == core@,
            s@.roots == Seq::<RootView>::empty(),
            s@.expected_root_subject_types == root_subject_types@,
            s.wf() == core.wf(),
    {
        let s = Scheduler {
            core,
            roots: Vec::new(),
            expected_root_subject_types: root_subject_types,
        };
        proof {
            assert(s@.roots =~= Seq::<RootView>::empty());
        }
        s
    }

    /// Clears all roots atomically. The Core — in particular every memoized
    /// graph entry — is untouched, so one scheduler can be reused across
    /// successive independent executions.
    pub fn reset(&mut self)
        ensures
            final(self)@ == (SchedulerView { roots: Seq::<RootView>::empty(), ..old(self)@ }),
            final(self).wf() == old(self).wf(),
    {
        let ghost prev = self@;
        self.roots = Vec::new();
        proof {
            assert(self@ =~= (SchedulerView { roots: Seq::<RootView>::empty(), ..prev }));
        }
    }

    /// The node identity of every root, in declaration order: the form the
    /// graph's own interfaces address computations by.
    pub fn root_nodes(&self) -> (r: Vec<NodeKey>)
        ensures
            r@.len() == self@.roots.len(),
            forall|i: int| 0 <= i < r@.len() ==> r@[i]@ == root_node_key(self@.roots[i]),
    {
        let mut r: Vec<NodeKey> = Vec::new();
        let mut i: usize = 0;
        while i < self.roots.len()
            invariant
                i <= self.roots.len(),
                r@.len() == i,
                forall|j: int| 0 <= j < i ==> r@[j]@ == root_node_key(self@.roots[j]),
            decreases self.roots.len() - i,
        {
            r.push(root_node_key_of(&self.roots[i]));
            i = i + 1;
        }
        r
    }

    /// For every root in declaration order: its subject, its requested
    /// product constraint, and the current outcome if the graph has already
    /// computed it. Non-blocking; never triggers computation.
    pub fn root_states(&self) -> (r: Vec<(Key, TypeConstraint, Option<RootResult>)>)
        ensures
            r@.len() == self@.roots.len(),
            forall|i: int|
                0 <= i < r@.len() ==> (r@[i].0, r@[i].1, reported(r@[i].2)) == root_states_spec(
                    self@.core.graph,
                    self@.roots,
                )[i],
    {
        let mut r: Vec<(Key, TypeConstraint, Option<RootResult>)> = Vec::new();
        let mut i: usize = 0;
        while i < self.roots.len()
            invariant
                i <= self.roots.len(),
                r@.len() == i,
                forall|j: int|
                    0 <= j < i ==> (r@[j].0, r@[j].1, reported(r@[j].2)) == root_states_spec(
                        self@.core.graph,
                        self@.roots,
                    )[j],
            decreases self.roots.len() - i,
        {
            let root = &self.roots[i];
            let key = root_node_key_of(root);
            let state = self.core.graph.peek(&key);
            let (subject, product): (Key, TypeConstraint) = match root {
                Root::Select { subject, selector, .. } => (*subject, selector.product),
                Root::SelectDependencies { subject, selector, .. } => (*subject, selector.product),
            };
            r.push((subject, product, state));
            i = i + 1;
        }
        r
    }

    /// Asks the resolver for edges satisfying `(type of subject, Select
    /// product)` and, on success, atomically appends a `Select` root. When no
    /// valid path exists, a descriptive error names the subject type and the
    /// selector, and the root list is left unchanged. A root whose subject
    /// type falls outside the committed expected types is likewise rejected
    /// once the Core is execution-ready.
    pub fn add_root_select(&mut self, subject: Key, product: TypeConstraint) -> (r: Result<
        (),
        SchedulerError,
    >)
        ensures
            final(self)@.core == old(self)@.core,
            final(self)@.expected_root_subject_types == old(self)@.expected_root_subject_types,
            final(self).wf() == old(self).wf(),
            !registration_allowed(old(self)@.core, subject) ==> final(self)@ == old(self)@ && (
            r matches Err(SchedulerError::UnexpectedSubjectType { subject_type }) && subject_type
                == subject.type_id),
            registration_allowed(old(self)@.core, subject) && find_edges(
                old(self)@.core.rule_graph,
                subject.type_id,
                SelectorView::Select(Select { product }),
            ) is None ==> final(self)@ == old(self)@ && (
            r matches Err(SchedulerError::NoRootEdges { subject_type, selector }) && subject_type
                == subject.type_id && selector@ == SelectorView::Select(Select { product })),
            registration_allowed(old(self)@.core, subject) && find_edges(
                old(self)@.core.rule_graph,
                subject.type_id,
                SelectorView::Select(Select { product }),
            ) is Some ==> r is Ok && final(self)@.roots == old(self)@.roots.push(
                RootView::Select {
                    subject,
                    selector: Select { product },
                    edges: find_edges(
                        old(self)@.core.rule_graph,
                        subject.type_id,
                        SelectorView::Select(Select { product }),
                    )->Some_0,
                },
            ),
    {
        let selector = Selector::select(product);
        let subject_type = subject.type_id();
        if self.core.state == LifecycleState::Ready && !contains_type_id(
            &self.core.root_subject_types,
            subject_type,
        ) {
            return Err(SchedulerError::UnexpectedSubjectType { subject_type });
        }
        match self.core.rule_graph.find_root_edges(subject_type, &selector) {
            None => Err(SchedulerError::NoRootEdges { subject_type, selector }),
            Some(edges) => {
                let ghost prev_roots = self@.roots;
                self.roots.push(Root::Select { subject, selector: Select { product }, edges });
                proof {
                    assert(self@.roots =~= prev_roots.push(
                        RootView::Select { subject, selector: Select { product }, edges },
                    ));
                }
                Ok(())
            },
        }
    }

    /// Builds a `SelectDependencies` selector from the arguments, resolves
    /// edges the same way as `add_root_select`, and appends a
    /// `SelectDependencies` root on success; on resolution failure the error
    /// names the subject type and the full selector, and nothing is appended.
    pub fn add_root_select_dependencies(
        &mut self,
        subject: Key,
        product: TypeConstraint,
        dep_product: TypeConstraint,
        field: Field,
        field_types: Vec<TypeId>,
    ) -> (r: Result<(), SchedulerError>)
        ensures
            final(self)@.core == old(self)@.core,
            final(self)@.expected_root_subject_types == old(self)@.expected_root_subject_types,
            final(self).wf() == old(self).wf(),
            !registration_allowed(old(self)@.core, subject) ==> final(self)@ == old(self)@ && (
            r matches Err(SchedulerError::UnexpectedSubjectType { subject_type }) && subject_type
                == subject.type_id),
            registration_allowed(old(self)@.core, subject) && find_edges(
                old(self)@.core.rule_graph,
                subject.type_id,
                SelectorView::SelectDependencies(sd_view(product, dep_product, field, field_types@)),
            ) is None ==> final(self)@ == old(self)@ && (
            r matches Err(SchedulerError::NoRootEdges { subject_type, selector }) && subject_type
                == subject.type_id && selector@ == SelectorView::SelectDependencies(
                sd_view(product, dep_product, field, field_types@),
            )),
            registration_allowed(old(self)@.core, subject) && find_edges(
                old(self)@.core.rule_graph,
                subject.type_id,
                SelectorView::SelectDependencies(sd_view(product, dep_product, field, field_types@)),
            ) is Some ==> r is Ok && final(self)@.roots == old(self)@.roots.push(
                RootView::SelectDependencies {
                    subject,
                    selector: sd_view(product, dep_product, field, field_types@),
                    edges: find_edges(
                        old(self)@.core.rule_graph,
                        subject.type_id,
                        SelectorView::SelectDependencies(
                            sd_view(product, dep_product, field, field_types@),
                        ),
                    )->Some_0,
                },
            ),
    {
        let sd = SelectDependencies { product, dep_product, field, field_types };
        let subject_type = subject.type_id();
        if self.core.state == LifecycleState::Ready && !contains_type_id(
            &self.core.root_subject_types,
            subject_type,
        ) {
            return Err(SchedulerError::UnexpectedSubjectType { subject_type });
        }
        let selector = Selector::SelectDependencies(sd.duplicate());
        match self.core.rule_graph.find_root_edges(subject_type, &selector) {
            None => Err(SchedulerError::NoRootEdges { subject_type, selector }),
            Some(edges) => {
                let ghost prev_roots = self@.roots;
                let ghost sdv = sd@;
                self.roots.push(Root::SelectDependencies { subject, selector: sd, edges });
                proof {
                    assert(self@.roots =~= prev_roots.push(
                        RootView::SelectDependencies { subject, selector: sdv, edges },
                    ));
                }
                Ok(())
            },
        }
    }

    /// The execution-ready lifecycle transition: commits `self`'s expected
    /// root subject types into the Core and marks it `Ready`. Exclusivity
    /// must have been established by the caller.
    fn finish(&mut self)
        requires
            old(self)@.core.context_refs == 0,
        ensures
            final(self)@ == (SchedulerView {
                core: CoreView {
                    root_subject_types: old(self)@.expected_root_subject_types,
                    state: LifecycleState::Ready,
                    ..old(self)@.core
                },
                ..old(self)@
            }),
            final(self).wf() == old(self).wf(),
    {
        let ghost prev = self@;
        let types = clone_type_ids(&self.expected_root_subject_types);
        self.core.finish(types);
        proof {
            assert(self@ =~= (SchedulerView {
                core: CoreView {
                    root_subject_types: prev.expected_root_subject_types,
                    state: LifecycleState::Ready,
                    ..prev.core
                },
                ..prev
            }));
        }
    }

    /// Replaces the expected root subject types and immediately performs the
    /// Core's execution-ready transition; after it succeeds, exclusive
    /// mutation of the Core is no longer available through this scheduler.
    /// The call is refused while any execution context still shares the Core,
    /// and when a registered root's subject type is missing from `subject_types`
    /// — committing the expectation must be consistent with every root already
    /// registered.
    pub fn set_root_subject_types(&mut self, subject_types: Vec<TypeId>) -> (r: Result<
        (),
        SchedulerError,
    >)
        ensures
            final(self).wf() == old(self).wf(),
            old(self)@.core.context_refs > 0 ==> final(self)@ == old(self)@ && (
            r matches Err(SchedulerError::CoreShared)),
            old(self)@.core.context_refs == 0 && first_unexpected(
                old(self)@.roots,
                subject_types@,
            ) is Some ==> final(self)@ == old(self)@ && (
            r matches Err(SchedulerError::UnexpectedSubjectType { subject_type }) && subject_type
                == first_unexpected(old(self)@.roots, subject_types@)->Some_0),
            old(self)@.core.context_refs == 0 && first_unexpected(
                old(self)@.roots,
                subject_types@,
            ) is None ==> r is Ok && final(self)@ == (SchedulerView {
                core: CoreView {
                    root_subject_types: subject_types@,
                    state: LifecycleState::Ready,
                    ..old(self)@.core
                },
                expected_root_subject_types: subject_types@,
                ..old(self)@
            }),
    {
        if self.core.context_refs > 0 {
            return Err(SchedulerError::CoreShared);
        }
        let ghost rootsv = self@.roots;
        let mut i: usize = 0;
        proof {
            assert(rootsv.skip(0) =~= rootsv);
        }
        while i < self.roots.len()
            invariant
                *self == *old(self),
                old(self)@.core.context_refs == 0,
                i <= self.roots.len(),
                rootsv == self@.roots,
                self@.roots.len() == self.roots.len(),
                first_unexpected(rootsv, subject_types@) == first_unexpected(
                    rootsv.skip(i as int),
                    subject_types@,
                ),
            decreases self.roots.len() - i,
        {
            let subject_type = match &self.roots[i] {
                Root::Select { subject, .. } => subject.type_id(),
                Root::SelectDependencies { subject, .. } => subject.type_id(),
            };
            proof {
                assert(rootsv.skip(i as int)[0] == rootsv[i as int]);
                assert(rootsv.skip(i as int).drop_first() =~= rootsv.skip(i as int + 1));
            }
            if !contains_type_id(&subject_types, subject_type) {
                return Err(SchedulerError::UnexpectedSubjectType { subject_type });
            }
            i = i + 1;
        }
        proof {
            assert(rootsv.skip(i as int).len() == 0);
        }
        self.expected_root_subject_types = subject_types;
        self.finish();
        Ok(())
    }

    /// Notifies the Core that one batch of external work driving the graph
    /// has ended. The per-task caches this flushes belong to the value system
    /// outside this core, so nothing modeled here changes; the call is
    /// nevertheless an exclusive-mutation operation and is refused while any
    /// execution context still shares the Core.
    pub fn task_end(&mut self) -> (r: Result<(), SchedulerError>)
        ensures
            final(self)@ == old(self)@,
            old(self)@.core.context_refs > 0 ==> r matches Err(SchedulerError::CoreShared),
            old(self)@.core.context_refs == 0 ==> r is Ok,
    {
        if self.core.context_refs > 0 {
            return Err(SchedulerError::CoreShared);
        }
        Ok(())
    }

    /// Hands out the execution context a node runs under: one more shared
    /// holder of the Core, which blocks exclusive-mutation operations until
    /// it is released.
    pub fn create_context(&mut self, entry_id: u64) -> (c: Context)
        requires
            old(self)@.core.context_refs < u64::MAX,
        ensures
            c.entry_id == entry_id,
            final(self)@ == (SchedulerView {
                core: CoreView {
                    context_refs: (old(self)@.core.context_refs + 1) as u64,
                    ..old(self)@.core
                },
                ..old(self)@
            }),
            final(self).wf() == old(self).wf(),
    {
        let ghost prev = self@;
        self.core.context_refs = self.core.context_refs + 1;
        proof {
            assert(self@ =~= (SchedulerView {
                core: CoreView { context_refs: self.core.context_refs, ..prev.core },
                ..prev
            }));
        }
        Context { entry_id }
    }

    /// Returns a node's execution context: one fewer shared holder of the
    /// Core.
    #[allow(unused_variables)]
    pub fn release_context(&mut self, context: Context)
        requires
            old(self)@.core.context_refs > 0,
        ensures
            final(self)@ == (SchedulerView {
                core: CoreView {
                    context_refs: (old(self)@.core.context_refs - 1) as u64,
                    ..old(self)@.core
                },
                ..old(self)@
            }),
            final(self).wf() == old(self).wf(),
    {
        let ghost prev = self@;
        self.core.context_refs = self.core.context_refs - 1;
        proof {
            assert(self@ =~= (SchedulerView {
                core: CoreView { context_refs: self.core.context_refs, ..prev.core },
                ..prev
            }));
        }
    }
}

/// Views of a list of node keys.
pub open spec fn keys_view(keys: Seq<NodeKey>) -> Seq<NodeKeyView> {
    keys.map(|i: int, k: NodeKey| k@)
}

/// The node keys `execute` must launch, given what is already memoized:
/// accumulates, over the roots in declaration order, each root's key unless
/// the graph already memoizes it or an earlier root contributed it.
pub open spec fn pending_keys_rec(
    graph: Seq<GraphEntryView>,
    roots: Seq<RootView>,
    acc: Seq<NodeKeyView>,
) -> Seq<NodeKeyView>
    decreases roots.len(),
{
    if roots.len() == 0 {
        acc
    } else {
        let k = root_node_key(roots[0]);
        let acc2 = if lookup(graph, k) is Some || acc.contains(k) {
            acc
        } else {
            acc.push(k)
        };
        pending_keys_rec(graph, roots.drop_first(), acc2)
    }
}

/// The distinct, not-yet-memoized node keys of `roots`, in first-occurrence
/// order: exactly the computations one `execute` call launches.
pub open spec fn pending_keys(graph: Seq<GraphEntryView>, roots: Seq<RootView>) -> Seq<
    NodeKeyView,
> {
    pending_keys_rec(graph, roots, Seq::<NodeKeyView>::empty())
}

/// The pending keys extend the accumulator, are distinct, are unmemoized, and
/// together with the graph cover every root's key.
pub proof fn lemma_pending_keys_rec_props(
    graph: Seq<GraphEntryView>,
    roots: Seq<RootView>,
    acc: Seq<NodeKeyView>,
)
    requires
        forall|i: int, j: int| 0 <= i < j < acc.len() ==> acc[i] != acc[j],
        forall|i: int| 0 <= i < acc.len() ==> lookup(graph, acc[i]) is None,
    ensures
        ({
            let out = pending_keys_rec(graph, roots, acc);
            &&& out.len() >= acc.len()
            &&& forall|i: int| 0 <= i < acc.len() ==> out[i] == acc[i]
            &&& forall|i: int, j: int| 0 <= i < j < out.len() ==> out[i] != out[j]
            &&& forall|i: int| 0 <= i < out.len() ==> lookup(graph, out[i]) is None
            &&& forall|i: int|
                0 <= i < roots.len() ==> lookup(graph, root_node_key(roots[i])) is Some
                    || out.contains(root_node_key(roots[i]))
        }),
    decreases roots.len(),
{
    if roots.len() > 0 {
        let out = pending_keys_rec(graph, roots, acc);
        let k = root_node_key(roots[0]);
        let acc2 = if lookup(graph, k) is Some || acc.contains(k) {
            acc
        } else {
            acc.push(k)
        };
        assert(forall|i: int, j: int| 0 <= i < j < acc2.len() ==> acc2[i] != acc2[j]);
        assert(forall|i: int| 0 <= i < acc2.len() ==> lookup(graph, acc2[i]) is None);
        lemma_pending_keys_rec_props(graph, roots.drop_first(), acc2);
        assert(out == pending_keys_rec(graph, roots.drop_first(), acc2));
        assert forall|i: int|
            0 <= i < roots.len() implies lookup(graph, root_node_key(roots[i])) is Some
            || out.contains(root_node_key(roots[i])) by {
            if i == 0 {
                if lookup(graph, k) is None {
                    if acc.contains(k) {
                        let w = choose|w: int| 0 <= w < acc.len() && acc[w] == k;
                        assert(out[w] == acc2[w]);
                        assert(out[w] == k);
                    } else {
                        assert(acc2[acc.len() as int] == k);
                        assert(out[acc.len() as int] == k);
                    }
                }
            } else {
                assert(roots.drop_first()[i - 1] == roots[i]);
            }
        }
    }
}

impl Scheduler {
    /// The node keys one `execute` call must launch: those of roots the graph
    /// has not yet memoized, deduplicated, in first-occurrence order.
    pub fn pending_root_nodes(&self) -> (r: Vec<NodeKey>)
        ensures
            keys_view(r@) == pending_keys(self@.core.graph, self@.roots),
    {
        let mut r: Vec<NodeKey> = Vec::new();
        let mut i: usize = 0;
        proof {
            assert(self@.roots.skip(0) =~= self@.roots);
            assert(keys_view(r@) =~= Seq::<NodeKeyView>::empty());
        }
        while i < self.roots.len()
            invariant
                i <= self.roots.len(),
                self@.roots.len() == self.roots.len(),
                pending_keys_rec(self@.core.graph, self@.roots.skip(i as int), keys_view(r@))
                    == pending_keys(self@.core.graph, self@.roots),
            decreases self.roots.len() - i,
        {
            let root = &self.roots[i];
            let key = root_node_key_of(root);
            let memoized = {
                let p = self.core.graph.peek(&key);
                p.is_some()
            };
            let already = contains_node_key(&r, &key);
            proof {
                assert(self@.roots.skip(i as int)[0] == self@.roots[i as int]);
                assert(self@.roots.skip(i as int).drop_first() =~= self@.roots.skip(i as int + 1));
            }
            if !memoized && !already {
                let ghost prev = keys_view(r@);
                let ghost kv = key@;
                r.push(key);
                proof {
                    assert(keys_view(r@) =~= prev.push(kv));
                }
            }
            i = i + 1;
        }
        proof {
            assert(self@.roots.skip(i as int).len() == 0);
        }
        r
    }

    /// Starting from the existing roots, executes the graph to completion:
    /// every pending root node is materialized with the outcome the execution
    /// environment computed for it — `outcomes[i]` belongs to the `i`-th key
    /// of `pending_root_nodes` — while every previously memoized entry is kept
    /// unchanged. A per-root failure is recorded like any other outcome; it
    /// aborts neither sibling roots nor the call, and afterwards every root's
    /// node has reached a terminal state. The counters in the returned
    /// statistic are placeholders and are zero.
    pub fn execute(&mut self, outcomes: &Vec<RootResult>) -> (stat: ExecutionStat)
        requires
            old(self).wf(),
            outcomes@.len() == pending_keys(old(self)@.core.graph, old(self)@.roots).len(),
        ensures
            final(self).wf(),
            final(self)@.roots == old(self)@.roots,
            final(self)@.expected_root_subject_types == old(self)@.expected_root_subject_types,
            final(self)@.core.rule_graph == old(self)@.core.rule_graph,
            final(self)@.core.root_subject_types == old(self)@.core.root_subject_types,
            final(self)@.core.state == old(self)@.core.state,
            final(self)@.core.context_refs == old(self)@.core.context_refs,
            ({
                let pk = pending_keys(old(self)@.core.graph, old(self)@.roots);
                let g0 = old(self)@.core.graph;
                let g1 = final(self)@.core.graph;
                &&& g1.len() == g0.len() + pk.len()
                &&& g1.take(g0.len() as int) == g0
                &&& forall|i: int|
                    0 <= i < pk.len() ==> g1[g0.len() + i] == (GraphEntryView {
                        key: pk[i],
                        result: crate::types::root_result_view(outcomes@[i]),
                    })
                &&& forall|i: int|
                    0 <= i < pk.len() ==> lookup(g1, pk[i]) == Some(
                        crate::types::root_result_view(outcomes@[i]),
                    )
                &&& forall|k: NodeKeyView| lookup(g0, k) is Some ==> lookup(g1, k) == lookup(g0, k)
                &&& forall|i: int|
                    0 <= i < old(self)@.roots.len() ==> lookup(
                        g1,
                        root_node_key(old(self)@.roots[i]),
                    ) is Some
            }),
            stat == (ExecutionStat { runnable_count: 0, scheduling_iterations: 0 }),
    {
        let pending = self.pending_root_nodes();
        let ghost g0 = self@.core.graph;
        let ghost pk = pending_keys(g0, self@.roots);
        proof {
            lemma_pending_keys_rec_props(g0, self@.roots, Seq::<NodeKeyView>::empty());
            assert(g0.take(g0.len() as int) =~= g0);
        }
        let mut i: usize = 0;
        while i < pending.len()
            invariant
                i <= pending.len(),
                g0 == old(self)@.core.graph,
                pk == pending_keys(g0, old(self)@.roots),
                outcomes@.len() == pk.len(),
                pending@.len() == pk.len(),
                keys_view(pending@) == pk,
                self@.roots == old(self)@.roots,
                self@.expected_root_subject_types == old(self)@.expected_root_subject_types,
                self@.core.rule_graph == old(self)@.core.rule_graph,
                self@.core.root_subject_types == old(self)@.core.root_subject_types,
                self@.core.state == old(self)@.core.state,
                self@.core.context_refs == old(self)@.core.context_refs,
                self.wf(),
                self@.core.graph.len() == g0.len() + i,
                self@.core.graph.take(g0.len() as int) == g0,
                forall|a: int, b: int| 0 <= a < b < pk.len() ==> pk[a] != pk[b],
                forall|j: int| 0 <= j < pk.len() ==> lookup(g0, pk[j]) is None,
                forall|j: int|
                    0 <= j < old(self)@.roots.len() ==> lookup(
                        g0,
                        root_node_key(old(self)@.roots[j]),
                    ) is Some || pk.contains(root_node_key(old(self)@.roots[j])),
                forall|j: int|
                    0 <= j < i ==> self@.core.graph[g0.len() + j] == (GraphEntryView {
                        key: pk[j],
                        result: crate::types::root_result_view(outcomes@[j]),
                    }),
                forall|j: int|
                    0 <= j < i ==> lookup(self@.core.graph, pk[j]) == Some(
                        crate::types::root_result_view(outcomes@[j]),
                    ),
                forall|j: int| i <= j < pk.len() ==> lookup(self@.core.graph, pk[j]) is None,
                forall|k: NodeKeyView|
                    lookup(g0, k) is Some ==> lookup(self@.core.graph, k) == lookup(g0, k),
            decreases pending.len() - i,
        {
            let key = (&pending[i]).duplicate();
            let outcome = duplicate_result(&outcomes[i]);
            let ghost gprev = self@.core.graph;
            let ghost e = GraphEntryView {
                key: pk[i as int],
                result: crate::types::root_result_view(outcomes@[i as int]),
            };
            proof {
                assert(keys_view(pending@)[i as int] == pending@[i as int]@);
                assert(key@ == pk[i as int]);
            }
            self.core.graph.ensure(key, outcome);
            proof {
                assert(self@.core.graph == gprev.push(e));
                assert(self@.core.graph.take(g0.len() as int) =~= gprev.take(g0.len() as int));
                assert forall|j: int|
                    0 <= j < i + 1 implies lookup(self@.core.graph, pk[j]) == Some(
                    crate::types::root_result_view(outcomes@[j]),
                ) by {
                    lemma_lookup_push(gprev, e, pk[j]);
                }
                assert forall|j: int|
                    i + 1 <= j < pk.len() implies lookup(self@.core.graph, pk[j]) is None by {
                    lemma_lookup_push(gprev, e, pk[j]);
                }
                assert forall|k: NodeKeyView|
                    lookup(g0, k) is Some implies lookup(self@.core.graph, k) == lookup(
                    g0,
                    k,
                ) by {
                    lemma_lookup_push(gprev, e, k);
                }
            }
            i = i + 1;
        }
        proof {
            assert forall|j: int|
                0 <= j < old(self)@.roots.len() implies lookup(
                self@.core.graph,
                root_node_key(old(self)@.roots[j]),
            ) is Some by {
                let k = root_node_key(old(self)@.roots[j]);
                if lookup(g0, k) is None {
                    assert(pk.contains(k));
                    let w = choose|w: int| 0 <= w < pk.len() && pk[w] == k;
                    assert(lookup(self@.core.graph, pk[w]) is Some);
                }
            }
        }
        ExecutionStat { runnable_count: 0, scheduling_iterations: 0 }
    }
}

/// Decides whether the view of `k` occurs among the views of `v`.
fn contains_node_key(v: &Vec<NodeKey>, k: &NodeKey) -> (r: bool)
    ensures
        r == keys_view(v@).contains(k@),
{
    let mut i: usize = 0;
    while i < v.len()
        invariant
            i <= v.len(),
            forall|j: int| 0 <= j < i ==> v@[j]@ != k@,
        decreases v.len() - i,
    {
        if node_key_eq(&v[i], k) {
            proof {
                assert(keys_view(v@)[i as int] == k@);
            }
            return true;
        }
        i = i + 1;
    }
    proof {
        assert forall|j: int| 0 <= j < keys_view(v@).len() implies keys_view(v@)[j] != k@ by {
            assert(keys_view(v@)[j] == v@[j]@);
        }
    }
    false
}

/// Two roots with identical (subject, selector, resolved edges) map to one
/// node key, so the graph yields the same memoized result for both.
pub proof fn lemma_identical_roots_share_result(
    graph: Seq<GraphEntryView>,
    r1: RootView,
    r2: RootView,
)
    requires
        root_subject(r1) == root_subject(r2),
        root_selector(r1) == root_selector(r2),
        root_edges(r1) == root_edges(r2),
    ensures
        root_node_key(r1) == root_node_key(r2),
        lookup(graph, root_node_key(r1)) == lookup(graph, root_node_key(r2)),
{
    assert(root_node_key(r1) =~= root_node_key(r2));
}

/// Introspection preserves registration order exactly: the i-th reported
/// state is the subject, product and memoized outcome of the i-th declared
/// root. Together with `reset` leaving an empty list and registration
/// appending, the order survives reset cycles.
pub proof fn lemma_root_states_preserve_order(graph: Seq<GraphEntryView>, roots: Seq<RootView>)
    ensures
        root_states_spec(graph, roots).len() == roots.len(),
        forall|i: int|
            0 <= i < roots.len() ==> root_states_spec(graph, roots)[i] == (
                root_subject(roots[i]),
                root_product(roots[i]),
                lookup(graph, root_node_key(roots[i])),
            ),
{
}

/// After an execution has materialized every root's node, introspection
/// reports a terminal outcome for every root, each independent of the
/// outcomes of its siblings.
pub proof fn lemma_every_root_reported(graph: Seq<GraphEntryView>, roots: Seq<RootView>)
    requires
        forall|i: int| 0 <= i < roots.len() ==> lookup(graph, root_node_key(roots[i])) is Some,
    ensures
        forall|i: int| 0 <= i < roots.len() ==> root_states_spec(graph, roots)[i].2 is Some,
{
}

/// A memoized entry is reused, never recomputed: when the graph already holds
/// a root's node, registering an identical root again leaves nothing pending
/// and introspection reports the memoized outcome.
pub proof fn lemma_memoized_root_reused(
    graph: Seq<GraphEntryView>,
    r: RootView,
    v: RootResultView,
)
    requires
        lookup(graph, root_node_key(r)) == Some(v),
    ensures
        pending_keys(graph, seq![r]) == Seq::<NodeKeyView>::empty(),
        root_states_spec(graph, seq![r])[0].2 == Some(v),
{
    let roots = seq![r];
    assert(roots.drop_first() =~= Seq::<RootView>::empty());
    assert(pending_keys_rec(graph, roots, Seq::<NodeKeyView>::empty())
        == pending_keys_rec(graph, roots.drop_first(), Seq::<NodeKeyView>::empty()));
}

/// Mathematical form of a dependency selection built from registration
/// arguments.
pub open spec fn sd_view(
    product: TypeConstraint,
    dep_product: TypeConstraint,
    field: Field,
    field_types: Seq<TypeId>,
) -> SelectDependenciesView {
    SelectDependenciesView { product, dep_product, field, field_types }
}

} // verus!
