//! The snapshot held in memory: the nodes last written, each under its
//! public key, and the answers to queries over them.

use vstd::prelude::*;

use crate::node::{records, NodeConnectivity, NodeRecord};
use crate::query::{
    answer, is_answer, lemma_answer_is_the_answer, lemma_sorts_before_total, lemma_sorts_before_transitive, listed_in_order,
    sorts_before, stands_before, NodeQuery, SortKey,
};
use crate::text::text_equal;

verus! {

/// Whether no two rows have the same public key.
spec fn distinct_keys(rows: Seq<NodeRecord>) -> bool {
    forall|i: int, j: int|
        0 <= i < j < rows.len() ==> (#[trigger] rows[i]).public_key != (
        #[trigger] rows[j]).public_key
}

/// Whether some row has this public key.
spec fn has_key(rows: Seq<NodeRecord>, key: Seq<char>) -> bool {
    exists|i: int| 0 <= i < rows.len() && (#[trigger] rows[i]).public_key == key
}

/// The place of a row with this public key.
spec fn place_of(rows: Seq<NodeRecord>, key: Seq<char>) -> int {
    choose|i: int| 0 <= i < rows.len() && (#[trigger] rows[i]).public_key == key
}

/// The rows as a map from public key to row.
spec fn keyed(rows: Seq<NodeRecord>) -> Map<Seq<char>, NodeRecord> {
    Map::new(|key: Seq<char>| has_key(rows, key), |key: Seq<char>| rows[place_of(rows, key)])
}

/// Every row of a list without repeated keys is found under its own key.
proof fn lemma_keyed_at(rows: Seq<NodeRecord>, i: int)
    requires
        distinct_keys(rows),
        0 <= i < rows.len(),
    ensures
        keyed(rows).contains_key(rows[i].public_key),
        keyed(rows)[rows[i].public_key] == rows[i],
{
    let key = rows[i].public_key;
    assert(has_key(rows, key));
    let at = place_of(rows, key);
    assert(at == i);
}

/// Adding a row with a new key adds it to the map.
proof fn lemma_keyed_push(rows: Seq<NodeRecord>, node: NodeRecord)
    requires
        distinct_keys(rows),
        !has_key(rows, node.public_key),
    ensures
        distinct_keys(rows.push(node)),
        keyed(rows.push(node)) == keyed(rows).insert(node.public_key, node),
{
    let grown = rows.push(node);
    assert forall|i: int, j: int| 0 <= i < j < grown.len() implies (#[trigger] grown[i]).public_key
        != (#[trigger] grown[j]).public_key by {
        if j == rows.len() {
            assert(rows[i].public_key != node.public_key);
        } else {
            assert(rows[i].public_key != rows[j].public_key);
        }
    }
    let expected = keyed(rows).insert(node.public_key, node);
    assert forall|key: Seq<char>| keyed(grown).contains_key(key) == expected.contains_key(
        key,
    ) by {
        if has_key(grown, key) {
            let i = place_of(grown, key);
            if i < rows.len() {
                assert(rows[i].public_key == key);
            }
        }
        if has_key(rows, key) {
            let i = place_of(rows, key);
            assert(grown[i].public_key == key);
        }
        if key == node.public_key {
            assert(grown[rows.len() as int].public_key == key);
        }
    }
    assert forall|key: Seq<char>| keyed(grown).contains_key(key) implies keyed(grown)[key]
        == expected[key] by {
        let i = place_of(grown, key);
        lemma_keyed_at(grown, i);
        if i < rows.len() {
            assert(rows[i] == grown[i]);
            lemma_keyed_at(rows, i);
        }
    }
    assert(keyed(grown) =~= expected);
}

/// Replacing a row by one with the same key replaces it in the map.
proof fn lemma_keyed_update(rows: Seq<NodeRecord>, at: int, node: NodeRecord)
    requires
        distinct_keys(rows),
        0 <= at < rows.len(),
        rows[at].public_key == node.public_key,
    ensures
        distinct_keys(rows.update(at, node)),
        keyed(rows.update(at, node)) == keyed(rows).insert(node.public_key, node),
{
    let changed = rows.update(at, node);
    assert forall|i: int, j: int| 0 <= i < j < changed.len() implies (
    #[trigger] changed[i]).public_key != (#[trigger] changed[j]).public_key by {
        assert(rows[i].public_key != rows[j].public_key);
    }
    let expected = keyed(rows).insert(node.public_key, node);
    assert forall|key: Seq<char>| keyed(changed).contains_key(key) == expected.contains_key(
        key,
    ) by {
        if has_key(changed, key) {
            let i = place_of(changed, key);
            assert(rows[i].public_key == key);
        }
        if has_key(rows, key) {
            let i = place_of(rows, key);
            assert(changed[i].public_key == key);
        }
        if key == node.public_key {
            assert(changed[at].public_key == key);
        }
    }
    assert forall|key: Seq<char>| keyed(changed).contains_key(key) implies keyed(changed)[key]
        == expected[key] by {
        let i = place_of(changed, key);
        lemma_keyed_at(changed, i);
        if i != at {
            assert(rows[i] == changed[i]);
            lemma_keyed_at(rows, i);
        }
    }
    assert(keyed(changed) =~= expected);
}

/// The map of a list of rows has a key for each row at most, and holds each
/// row under the row's own key.
proof fn lemma_keyed_shape(rows: Seq<NodeRecord>)
    ensures
        keyed(rows).dom().finite(),
        keyed(rows).dom().len() <= rows.len(),
        distinct_keys(rows) ==> keyed(rows).dom().len() == rows.len(),
        forall|key: Seq<char>| #[trigger]
            keyed(rows).contains_key(key) ==> keyed(rows)[key].public_key == key,
    decreases rows.len(),
{
    if rows.len() == 0 {
        assert(keyed(rows).dom() =~= Set::empty());
    } else {
        let front = rows.drop_last();
        let last = rows.last();
        lemma_keyed_shape(front);
        assert forall|key: Seq<char>|
            keyed(rows).dom().contains(key) == keyed(front).dom().insert(
                last.public_key,
            ).contains(key) by {
            if has_key(rows, key) {
                let i = place_of(rows, key);
                if i < front.len() {
                    assert(front[i].public_key == key);
                }
            }
            if has_key(front, key) {
                let i = place_of(front, key);
                assert(rows[i].public_key == key);
            }
            if key == last.public_key {
                assert(rows[rows.len() - 1].public_key == key);
            }
        }
        assert(keyed(rows).dom() =~= keyed(front).dom().insert(last.public_key));
        if distinct_keys(rows) {
            assert forall|i: int, j: int| 0 <= i < j < front.len() implies (
            #[trigger] front[i]).public_key != (#[trigger] front[j]).public_key by {
                assert(rows[i].public_key != rows[j].public_key);
            }
            if has_key(front, last.public_key) {
                let i = place_of(front, last.public_key);
                assert(rows[i].public_key != rows[rows.len() - 1].public_key);
            }
        }
    }
}

/// A snapshot of the ranking, held in memory: at most one node for each
/// public key. A write replaces the whole node stored under its key or adds
/// the node; nothing is ever removed.
pub struct Snapshot {
    nodes: Vec<NodeConnectivity>,
}

impl View for Snapshot {
    type V = Map<Seq<char>, NodeRecord>;

    /// The stored nodes, each under its public key.
    closed spec fn view(&self) -> Map<Seq<char>, NodeRecord> {
        keyed(records(self.nodes@))
    }
}

impl Snapshot {
    #[verifier::type_invariant]
    spec fn one_node_per_key(self) -> bool {
        distinct_keys(records(self.nodes@))
    }

    /// Every snapshot holds finitely many nodes, each under its own public
    /// key.
    pub proof fn lemma_well_keyed(self)
        ensures
            self@.dom().finite(),
            forall|key: Seq<char>| #[trigger] self@.contains_key(key) ==> self@[key].public_key == key,
    {
        lemma_keyed_shape(records(self.nodes@));
    }

    /// A snapshot with no node in it.
    pub fn new() -> (snapshot: Snapshot)
        ensures
            snapshot@ == Map::<Seq<char>, NodeRecord>::empty(),
    {
        let snapshot = Snapshot { nodes: Vec::new() };
        assert(snapshot@ =~= Map::<Seq<char>, NodeRecord>::empty());
        snapshot
    }

    /// The number of nodes stored.
    pub fn len(&self) -> (count: usize)
        ensures
            self@.dom().finite(),
            count == self@.dom().len(),
    {
        proof {
            use_type_invariant(self);
            lemma_keyed_shape(records(self.nodes@));
        }
        self.nodes.len()
    }

    /// Where the node with this public key is held, if it is stored.
    fn find(&self, key: &str) -> (place: Option<usize>)
        ensures
            match place {
                Some(at) => at < self.nodes.len() && self.nodes[at as int].public_key@ == key@,
                None => !has_key(records(self.nodes@), key@),
            },
    {
        let mut i: usize = 0;
        while i < self.nodes.len()
            invariant
                i <= self.nodes.len(),
                forall|k: int| 0 <= k < i ==> (#[trigger] self.nodes[k]).public_key@ != key@,
            decreases self.nodes.len() - i,
        {
            if text_equal(self.nodes[i].public_key.as_str(), key) {
                return Some(i);
            }
            i += 1;
        }
        assert forall|k: int| 0 <= k < records(self.nodes@).len() implies (#[trigger] records(
            self.nodes@,
        )[k]).public_key != key@ by {
            assert(self.nodes[k].public_key@ != key@);
        }
        None
    }

    /// The node stored under this public key, if there is one.
    pub fn get(&self, key: &str) -> (node: Option<NodeConnectivity>)
        ensures
            match node {
                Some(found) => self@.contains_key(key@) && self@[key@] == found@,
                None => !self@.contains_key(key@),
            },
    {
        proof {
            use_type_invariant(self);
        }
        match self.find(key) {
            Some(at) => {
                proof {
                    lemma_keyed_at(records(self.nodes@), at as int);
                }
                Some(self.nodes[at].clone())
            },
            None => None,
        }
    }

    /// Writes a node: it replaces the node stored under its public key, or
    /// is added if there is none. Every other node stays as it is.
    pub fn upsert(&mut self, node: NodeConnectivity)
        ensures
            final(self)@ == old(self)@.insert(node@.public_key, node@),
    {
        proof {
            use_type_invariant(&*self);
        }
        let ghost before = records(self.nodes@);
        let place: Option<usize> = self.find(node.public_key.as_str());
        let mut nodes: Vec<NodeConnectivity> = Vec::new();
        core::mem::swap(&mut self.nodes, &mut nodes);
        match place {
            Some(at) => {
                proof {
                    lemma_keyed_update(before, at as int, node@);
                    assert(records(nodes@.update(at as int, node)) =~= before.update(
                        at as int,
                        node@,
                    ));
                }
                nodes.set(at, node);
            },
            None => {
                proof {
                    lemma_keyed_push(before, node@);
                    assert(records(nodes@.push(node)) =~= before.push(node@));
                }
                nodes.push(node);
            },
        }
        core::mem::swap(&mut self.nodes, &mut nodes);
    }

    /// The first place among `rows` at which `node` stands before the row
    /// there; the number of rows if it stands before none.
    fn place_among(rows: &Vec<NodeConnectivity>, sort: SortKey, node: &NodeConnectivity) -> (at:
        usize)
        ensures
            at <= rows.len(),
            forall|r: int| 0 <= r < at ==> !sorts_before(sort, node@, (#[trigger] rows[r])@),
            at < rows.len() ==> sorts_before(sort, node@, rows[at as int]@),
    {
        let mut at: usize = 0;
        while at < rows.len() && !stands_before(sort, node, &rows[at])
            invariant
                at <= rows.len(),
                forall|r: int| 0 <= r < at ==> !sorts_before(sort, node@, (#[trigger] rows[r])@),
            decreases rows.len() - at,
        {
            at += 1;
        }
        at
    }

    /// The answer to a query: the stored nodes that the query lists, in the
    /// order it asks for. Nodes that are alike in what the order looks at
    /// come in the dictionary order of their public keys, so that what is
    /// stored and what is asked decide the answer.
    pub fn select(&self, query: &NodeQuery) -> (rows: Vec<NodeConnectivity>)
        ensures
            is_answer(self@, *query, records(rows@)),
            records(rows@) == answer(self@, *query),
    {
        proof {
            use_type_invariant(self);
        }
        let ghost stored = records(self.nodes@);
        let mut rows: Vec<NodeConnectivity> = Vec::new();
        let ghost mut origin: Seq<int> = Seq::empty();
        let mut i: usize = 0;
        while i < self.nodes.len()
            invariant
                i <= self.nodes.len(),
                stored == records(self.nodes@),
                distinct_keys(stored),
                origin.len() == rows.len(),
                forall|r: int|
                    0 <= r < rows.len() ==> 0 <= #[trigger] origin[r] < i && rows[r]@
                        == stored[origin[r]] && query.admits(rows[r]@),
                forall|k: int|
                    0 <= k < i && query.admits(#[trigger] stored[k]) ==> records(rows@).contains(
                        stored[k],
                    ),
                listed_in_order(query.sort, records(rows@)),
            decreases self.nodes.len() - i,
        {
            if query.lists(&self.nodes[i]) {
                let at: usize = Self::place_among(&rows, query.sort, &self.nodes[i]);
                let ghost earlier = records(rows@);
                let ghost node = stored[i as int];
                rows.insert(at, self.nodes[i].clone());
                proof {
                    origin = origin.insert(at as int, i as int);
                    let later = records(rows@);
                    assert(later =~= earlier.insert(at as int, node));
                    assert forall|p: int, q: int| 0 <= p < q < later.len() implies sorts_before(
                        query.sort,
                        later[p],
                        later[q],
                    ) by {
                        if q < at {
                            assert(sorts_before(query.sort, earlier[p], earlier[q]));
                        } else if q == at {
                            let from = origin[p];
                            assert(earlier[p] == stored[from]);
                            assert(stored[from].public_key != stored[i as int].public_key);
                            lemma_sorts_before_total(query.sort, earlier[p], node);
                        } else if p < at {
                            assert(sorts_before(query.sort, earlier[p], earlier[q - 1]));
                        } else if p == at {
                            if q - 1 > at {
                                assert(sorts_before(query.sort, earlier[at as int], earlier[q - 1]));
                                lemma_sorts_before_transitive(
                                    query.sort,
                                    node,
                                    earlier[at as int],
                                    earlier[q - 1],
                                );
                            }
                        } else {
                            assert(sorts_before(query.sort, earlier[p - 1], earlier[q - 1]));
                        }
                    }
                    assert forall|k: int|
                        0 <= k < i + 1 && query.admits(#[trigger] stored[k]) implies later.contains(
                        stored[k],
                    ) by {
                        if k == i {
                            assert(later[at as int] == stored[k]);
                        } else {
                            assert(earlier.contains(stored[k]));
                            let w = choose|w: int| 0 <= w < earlier.len() && earlier[w] == stored[k];
                            if w < at {
                                assert(later[w] == stored[k]);
                            } else {
                                assert(later[w + 1] == stored[k]);
                            }
                        }
                    }
                }
            }
            i += 1;
        }
        proof {
            let listed = records(rows@);
            assert forall|r: int| 0 <= r < listed.len() implies {
                &&& self@.contains_key((#[trigger] listed[r]).public_key)
                &&& self@[listed[r].public_key] == listed[r]
                &&& query.admits(listed[r])
            } by {
                lemma_keyed_at(stored, origin[r]);
            }
            assert forall|key: Seq<char>|
                self@.contains_key(key) && query.admits(#[trigger] self@[key]) implies listed.contains(
                self@[key],
            ) by {
                let k = place_of(stored, key);
                lemma_keyed_at(stored, k);
            }
            lemma_answer_is_the_answer(self@, *query, listed);
        }
        rows
    }
}

} // verus!
