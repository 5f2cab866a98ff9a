//! The memoized node store consumed by the scheduler: results keyed by node
//! identity. Materializing a node that is already present keeps the cached
//! result; node identities are never recomputed differently, so the store
//! only ever grows.

use vstd::prelude::*;

use crate::nodes::{node_key_eq, NodeKey, NodeKeyView};
use crate::types::{duplicate_result, opt_result_view, root_result_view, RootResult,
    RootResultView};

verus! {

/// One memoized result.
#[derive(Debug)]
pub struct GraphEntry {
    pub key: NodeKey,
    pub result: RootResult,
}

/// Mathematical form of a memoized result.
#[verifier::ext_equal]
pub struct GraphEntryView {
    pub key: NodeKeyView,
    pub result: RootResultView,
}

impl View for GraphEntry {
    type V = GraphEntryView;

    open spec fn view(&self) -> GraphEntryView {
        GraphEntryView { key: self.key@, result: root_result_view(self.result) }
    }
}

/// The store itself: memoized entries in insertion order, with distinct keys.
#[derive(Debug)]
pub struct Graph {
    pub entries: Vec<GraphEntry>,
}

impl View for Graph {
    type V = Seq<GraphEntryView>;

    open spec fn view(&self) -> Seq<GraphEntryView> {
        self.entries@.map(|i: int, e: GraphEntry| e@)
    }
}

/// The result memoized under `k`: the first entry with that key, or `None`.
pub open spec fn lookup(entries: Seq<GraphEntryView>, k: NodeKeyView) -> Option<RootResultView>
    decreases entries.len(),
{
    if entries.len() == 0 {
        None
    } else if entries[0].key == k {
        Some(entries[0].result)
    } else {
        lookup(entries.drop_first(), k)
    }
}

/// Appending an entry leaves every memoized key's result unchanged and
/// memoizes the new key only if it was absent.
pub proof fn lemma_lookup_push(entries: Seq<GraphEntryView>, e: GraphEntryView, k: NodeKeyView)
    ensures
        lookup(entries, k) is Some ==> lookup(entries.push(e), k) == lookup(entries, k),
        lookup(entries, k) is None && k == e.key ==> lookup(entries.push(e), k) == Some(e.result),
        lookup(entries, k) is None && k != e.key ==> lookup(entries.push(e), k) is None,
    decreases entries.len(),
{
    let pushed = entries.push(e);
    if entries.len() == 0 {
        assert(pushed[0] == e);
        assert(pushed.drop_first() =~= Seq::<GraphEntryView>::empty());
        assert(lookup(pushed.drop_first(), k) is None);
    } else {
        assert(pushed.len() == entries.len() + 1);
        assert(pushed[0] == entries[0]);
        assert(pushed.drop_first() =~= entries.drop_first().push(e));
        lemma_lookup_push(entries.drop_first(), e, k);
        if entries[0].key == k {
            assert(lookup(pushed, k) == Some(entries[0].result));
        } else {
            assert(lookup(entries, k) == lookup(entries.drop_first(), k));
            assert(lookup(pushed, k) == lookup(pushed.drop_first(), k));
            assert(lookup(pushed.drop_first(), k) == lookup(entries.drop_first().push(e), k));
        }
    }
}

/// Whether a store's entries are well formed: no key is memoized twice.
pub open spec fn entries_wf(entries: Seq<GraphEntryView>) -> bool {
    forall|i: int, j: int| 0 <= i < j < entries.len() ==> entries[i].key != entries[j].key
}

impl Graph {
    /// Whether the store is well formed: no key is memoized twice.
    pub open spec fn wf(&self) -> bool {
        entries_wf(self@)
    }

    /// An empty store.
    pub fn new() -> (g: Graph)
        ensures
            g@ == Seq::<GraphEntryView>::empty(),
            g.wf(),
    {
        let g = Graph { entries: Vec::new() };
        proof {
            assert(g@ =~= Seq::<GraphEntryView>::empty());
        }
        g
    }

    /// Non-blocking inspection: the result memoized under `k`, or `None`
    /// while nothing has been computed for it. Never triggers computation.
    pub fn peek(&self, k: &NodeKey) -> (r: Option<RootResult>)
        ensures
            opt_result_view(r) == lookup(self@, k@),
    {
        let mut i: usize = 0;
        proof {
            assert(self@.skip(0) =~= self@);
        }
        while i < self.entries.len()
            invariant
                i <= self.entries.len(),
                lookup(self@, k@) == lookup(self@.skip(i as int), k@),
            decreases self.entries.len() - i,
        {
            let e = &self.entries[i];
            proof {
                assert(self@.skip(i as int)[0] == e@);
                assert(self@.skip(i as int).drop_first() =~= self@.skip(i as int + 1));
            }
            if node_key_eq(&e.key, k) {
                return Some(duplicate_result(&e.result));
            }
            i = i + 1;
        }
        None
    }

    /// Materializes the node for `k`: when `k` is already memoized the store
    /// is unchanged; otherwise `result` — the outcome the execution
    /// environment computed for it — is memoized under `k`.
    pub fn ensure(&mut self, k: NodeKey, result: RootResult)
        requires
            old(self).wf(),
        ensures
            final(self).wf(),
            lookup(old(self)@, k@) is Some ==> final(self)@ == old(self)@,
            lookup(old(self)@, k@) is None ==> final(self)@ == old(self)@.push(
                GraphEntryView { key: k@, result: root_result_view(result) },
            ),
    {
        let present = {
            let p = self.peek(&k);
            p.is_some()
        };
        if !present {
            let ghost old_view = self@;
            let ghost kv = k@;
            let ghost rv = root_result_view(result);
            self.entries.push(GraphEntry { key: k, result });
            proof {
                assert(self@ =~= old_view.push(GraphEntryView { key: kv, result: rv }));
                lemma_absent_key_not_in_entries(old_view, kv);
                assert forall|i: int, j: int| 0 <= i < j < self@.len() implies self@[i].key
                    != self@[j].key by {
                    if j == self@.len() - 1 {
                        assert(self@[i] == old_view[i]);
                    }
                }
            }
        }
    }
}

/// A key that no lookup finds occurs in no entry.
pub proof fn lemma_absent_key_not_in_entries(entries: Seq<GraphEntryView>, k: NodeKeyView)
    requires
        lookup(entries, k) is None,
    ensures
        forall|i: int| 0 <= i < entries.len() ==> entries[i].key != k,
    decreases entries.len(),
{
    if entries.len() > 0 {
        lemma_absent_key_not_in_entries(entries.drop_first(), k);
        assert forall|i: int| 0 <= i < entries.len() implies entries[i].key != k by {
            if i > 0 {
                assert(entries.drop_first()[i - 1] == entries[i]);
            }
        }
    }
}

} // verus!
