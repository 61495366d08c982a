//! Refreshing the snapshot from a freshly fetched ranking: what is written,
//! in which order, and what the store holds afterwards.

use vstd::prelude::*;

use crate::errors::ReconcileError;
use crate::node::{records, NodeConnectivity, NodeRecord};

verus! {

/// Where the ranking is fetched from.
pub const NODES_CONNECTIVITY_API: &'static str =
    "https://mempool.space/api/v1/lightning/nodes/rankings/connectivity";

/// The table of the store that holds the nodes.
pub const NODE_TABLE: &'static str = "ln_node_connectivity";

/// The store after each of `nodes` was written to it in turn: every node
/// stands under its public key, in place of what stood there before, and a
/// key that is not among `nodes` keeps what it had. Where two of `nodes`
/// have the same key the later one stays.
pub open spec fn upsert_all(store: Map<Seq<char>, NodeRecord>, nodes: Seq<NodeRecord>) -> Map<
    Seq<char>,
    NodeRecord,
>
    decreases nodes.len(),
{
    if nodes.len() == 0 {
        store
    } else {
        upsert_all(store, nodes.drop_last()).insert(nodes.last().public_key, nodes.last())
    }
}

/// Writing `nodes` to a store lays what they write to an empty store over
/// what the store held.
pub proof fn lemma_upsert_all_overlays(store: Map<Seq<char>, NodeRecord>, nodes: Seq<NodeRecord>)
    ensures
        upsert_all(store, nodes) == store.union_prefer_right(upsert_all(Map::empty(), nodes)),
    decreases nodes.len(),
{
    let written = upsert_all(Map::<Seq<char>, NodeRecord>::empty(), nodes);
    if nodes.len() == 0 {
        assert(store =~= store.union_prefer_right(written));
    } else {
        lemma_upsert_all_overlays(store, nodes.drop_last());
        assert(upsert_all(store, nodes) =~= store.union_prefer_right(written));
    }
}

/// Writing the same list a second time changes nothing: the store after two
/// refreshes from one fetched list is the store after the first.
pub proof fn lemma_reconcile_idempotent(store: Map<Seq<char>, NodeRecord>, nodes: Seq<NodeRecord>)
    ensures
        upsert_all(upsert_all(store, nodes), nodes) == upsert_all(store, nodes),
{
    let written = upsert_all(Map::<Seq<char>, NodeRecord>::empty(), nodes);
    lemma_upsert_all_overlays(store, nodes);
    lemma_upsert_all_overlays(upsert_all(store, nodes), nodes);
    assert(store.union_prefer_right(written).union_prefer_right(written)
        =~= store.union_prefer_right(written));
}

/// A refresh removes nothing: every key that the store had it still has, and
/// a key that is not among `nodes` keeps its node.
pub proof fn lemma_upsert_all_keeps(
    store: Map<Seq<char>, NodeRecord>,
    nodes: Seq<NodeRecord>,
    key: Seq<char>,
)
    requires
        store.contains_key(key),
    ensures
        upsert_all(store, nodes).contains_key(key),
        (forall|i: int| 0 <= i < nodes.len() ==> (#[trigger] nodes[i]).public_key != key)
            ==> upsert_all(store, nodes)[key] == store[key],
    decreases nodes.len(),
{
    if nodes.len() > 0 {
        let front = nodes.drop_last();
        lemma_upsert_all_keeps(store, front, key);
        if forall|i: int| 0 <= i < nodes.len() ==> (#[trigger] nodes[i]).public_key != key {
            assert forall|i: int| 0 <= i < front.len() implies (#[trigger] front[i]).public_key
                != key by {
                assert(nodes[i].public_key != key);
            }
            assert(nodes[nodes.len() - 1].public_key != key);
        }
    }
}

/// Whether `newest` is the latest update among `nodes`: some node was
/// updated then, and none later.
pub open spec fn is_newest_update(nodes: Seq<NodeRecord>, newest: i64) -> bool {
    &&& exists|i: int| 0 <= i < nodes.len() && (#[trigger] nodes[i]).updated_at == newest
    &&& forall|i: int| 0 <= i < nodes.len() ==> (#[trigger] nodes[i]).updated_at <= newest
}

/// The latest update among `nodes`, of which there must be at least one.
pub fn newest_update(nodes: &Vec<NodeConnectivity>) -> (newest: i64)
    requires
        nodes.len() > 0,
    ensures
        is_newest_update(records(nodes@), newest),
{
    let mut newest: i64 = nodes[0].updated_at;
    let mut i: usize = 1;
    assert(records(nodes@)[0].updated_at == newest);
    while i < nodes.len()
        invariant
            1 <= i <= nodes.len(),
            exists|k: int| 0 <= k < i && (#[trigger] records(nodes@)[k]).updated_at == newest,
            forall|k: int| 0 <= k < i ==> (#[trigger] records(nodes@)[k]).updated_at <= newest,
        decreases nodes.len() - i,
    {
        if nodes[i].updated_at > newest {
            newest = nodes[i].updated_at;
        }
        assert(records(nodes@)[i as int].updated_at <= newest);
        i += 1;
    }
    newest
}

/// How a write to the store ended.
#[derive(Debug, PartialEq, Eq)]
pub enum WriteOutcome {
    /// The store took the node.
    Written,
    /// The store refused or could not be reached. The text is its account.
    Failed(String),
}

/// A refresh: the fetched nodes, how many of them the store has taken so
/// far, from the front of the list, and the store's account of the write
/// that failed, if one did. It is made only of a list that holds at least
/// one node.
pub struct Reconciliation {
    nodes: Vec<NodeConnectivity>,
    written: usize,
    failure: Option<String>,
}

impl Reconciliation {
    #[verifier::type_invariant]
    spec fn in_bounds(self) -> bool {
        &&& 0 < self.nodes.len()
        &&& self.written <= self.nodes.len()
        &&& self.failure is Some ==> self.written < self.nodes.len()
    }

    /// The fetched nodes, in the order in which they are written.
    pub closed spec fn fetched(self) -> Seq<NodeRecord> {
        records(self.nodes@)
    }

    /// How many of the fetched nodes the store has taken.
    pub closed spec fn written(self) -> nat {
        self.written as nat
    }

    /// The store's account of the write that failed, if one did.
    pub closed spec fn failure(self) -> Option<Seq<char>> {
        match self.failure {
            Some(account) => Some(account@),
            None => None,
        }
    }

    /// Whether a write has failed, and the refresh with it.
    pub open spec fn failed(self) -> bool {
        self.failure() is Some
    }

    /// Whether every fetched node has been written.
    pub open spec fn complete(self) -> bool {
        self.written() == self.fetched().len()
    }

    /// The nodes that the store has taken so far.
    pub open spec fn acknowledged(self) -> Seq<NodeRecord> {
        self.fetched().take(self.written() as int)
    }

    /// What a store that held `store` before the refresh holds now.
    pub open spec fn store_after(self, store: Map<Seq<char>, NodeRecord>) -> Map<
        Seq<char>,
        NodeRecord,
    > {
        upsert_all(store, self.acknowledged())
    }

    /// How many of the fetched nodes the store has taken: never more than
    /// were fetched, and not all of them if a write has failed.
    pub fn written_count(&self) -> (count: usize)
        ensures
            count == self.written(),
            count <= self.fetched().len(),
            0 < self.fetched().len(),
            self.failed() ==> !self.complete(),
    {
        proof {
            use_type_invariant(self);
        }
        self.written
    }

    /// Whether a write has failed, and the refresh with it.
    pub fn has_failed(&self) -> (failed: bool)
        ensures
            failed == self.failed(),
    {
        self.failure.is_some()
    }

    /// Starts a refresh from a fetched list. An empty list is refused with
    /// [`ReconcileError::EmptyResult`], and then nothing is to be written.
    /// A list with a node in it starts a refresh with nothing written yet
    /// and nothing failed.
    pub fn begin(nodes: Vec<NodeConnectivity>) -> (result: Result<Reconciliation, ReconcileError>)
        ensures
            nodes.len() == 0 ==> result matches Err(ReconcileError::EmptyResult),
            nodes.len() > 0 ==> (result matches Ok(refresh) && refresh.fetched() == records(nodes@)
                && refresh.written() == 0 && !refresh.failed()),
    {
        if nodes.len() == 0 {
            Err(ReconcileError::EmptyResult)
        } else {
            Ok(Reconciliation { nodes, written: 0, failure: None })
        }
    }

    /// The latest update among the fetched nodes.
    pub fn newest_update(&self) -> (newest: i64)
        ensures
            is_newest_update(self.fetched(), newest),
    {
        proof {
            use_type_invariant(self);
        }
        newest_update(&self.nodes)
    }

    /// The node to write next: the first that the store has not taken yet.
    /// It goes to the table [`NODE_TABLE`] under its public key, in place of
    /// whatever is there. There is none once all are written, and none once
    /// a write has failed.
    pub fn next_write(&self) -> (next: Option<&NodeConnectivity>)
        ensures
            self.complete() || self.failed() ==> next is None,
            !self.complete() && !self.failed() ==> (next matches Some(node) && node@
                == self.fetched()[self.written() as int]),
    {
        proof {
            use_type_invariant(self);
        }
        if self.failure.is_none() && self.written < self.nodes.len() {
            Some(&self.nodes[self.written])
        } else {
            None
        }
    }

    /// Takes note of how the write of the node of [`Reconciliation::next_write`]
    /// ended, and says how the refresh goes on.
    ///
    /// After a write that the store took, the node counts as written; the
    /// refresh has succeeded if that was the last node, and goes on with the
    /// next one if not (`None`). After a write that failed the refresh has
    /// failed with [`ReconcileError::Store`] and the store's account: no
    /// node is handed out for writing any more, and what was written stays.
    ///
    /// A refresh that has succeeded or failed has no write under way. It
    /// stays as it is whatever the outcome says, and gives its verdict
    /// again.
    pub fn settle(&mut self, outcome: WriteOutcome) -> (verdict: Option<Result<(), ReconcileError>>)
        ensures
            final(self).fetched() == old(self).fetched(),
            if old(self).failed() {
                &&& final(self).written() == old(self).written()
                &&& final(self).failure() == old(self).failure()
                &&& verdict matches Some(Err(ReconcileError::Store(account)))
                &&& Some(account@) == old(self).failure()
            } else if old(self).complete() {
                &&& final(self).written() == old(self).written()
                &&& !final(self).failed()
                &&& verdict == Some(Ok::<(), ReconcileError>(()))
            } else {
                match outcome {
                    WriteOutcome::Written => {
                        &&& final(self).written() == old(self).written() + 1
                        &&& !final(self).failed()
                        &&& final(self).complete() ==> verdict == Some(
                            Ok::<(), ReconcileError>(()),
                        )
                        &&& !final(self).complete() ==> verdict is None
                    },
                    WriteOutcome::Failed(account) => {
                        &&& final(self).written() == old(self).written()
                        &&& final(self).failure() == Some(account@)
                        &&& verdict == Some(
                            Err::<(), ReconcileError>(ReconcileError::Store(account)),
                        )
                    },
                }
            },
    {
        proof {
            use_type_invariant(&*self);
        }
        if let Some(account) = &self.failure {
            return Some(Err(ReconcileError::Store(account.clone())));
        }
        if self.written == self.nodes.len() {
            return Some(Ok(()));
        }
        match outcome {
            WriteOutcome::Written => {
                self.written = self.written + 1;
                if self.written == self.nodes.len() {
                    Some(Ok(()))
                } else {
                    None
                }
            },
            WriteOutcome::Failed(account) => {
                self.failure = Some(account.clone());
                Some(Err(ReconcileError::Store(account)))
            },
        }
    }
}

} // verus!
