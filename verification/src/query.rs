//! Queries over the snapshot: what a request may ask for, the query it is
//! turned into, the text of that query for the store, and which rows, in
//! which order, answer it.

use vstd::prelude::*;
use vstd::string::*;

use crate::errors::AppError;
use crate::node::{NodeConnectivity, NodeRecord};
use crate::text::{
    lemma_lex_less_asymmetric, lemma_lex_less_irreflexive, lemma_lex_less_total,
    lemma_lex_less_transitive, lex_less, text_equal, text_less,
};
use crate::units::BtcAmount;

verus! {

/// What a request gave as the least capacity.
#[derive(Debug, Clone, Copy, PartialEq, Eq)]
pub enum MinCapacity {
    /// An amount in bitcoin.
    Amount(BtcAmount),
    /// A value that is no number.
    NotANumber,
}

/// The filter of a request: the least capacity, in bitcoin, that a node must
/// have to be listed. Without it every node is listed.
#[derive(Debug, Clone, Copy, PartialEq, Eq)]
pub struct NodeConnectivityFilter {
    pub min_capacity: Option<MinCapacity>,
}

/// The order a request asks for, by name. `capacity` and `first_seen` are
/// the names that are known; any other name, and none, mean the default.
#[derive(Debug, PartialEq, Eq)]
pub struct NodeConnectivitySort {
    pub order: Option<String>,
}

/// An order in which the nodes can be listed.
#[derive(Debug, Clone, Copy, PartialEq, Eq, Structural)]
pub enum SortKey {
    /// Largest capacity first.
    CapacityDesc,
    /// Longest known first.
    FirstSeenAsc,
    /// By alias, in dictionary order. This is the default.
    AliasAsc,
}

/// A query that has passed validation: the least capacity in satoshis, if
/// there is a filter, and the order of the rows.
#[derive(Debug, Clone, Copy, PartialEq, Eq)]
pub struct NodeQuery {
    pub min_capacity: Option<u64>,
    pub sort: SortKey,
}

/// What is to be done for a request that has passed validation.
#[derive(Debug, Clone, Copy, PartialEq, Eq)]
pub enum QueryPlan {
    /// Read the store with this query.
    Read(NodeQuery),
    /// List nothing, and do not read the store: the request asks for more
    /// capacity than any node can have.
    Nothing,
}

/// The order that a name selects.
pub open spec fn sort_key_named(order: Option<Seq<char>>) -> SortKey {
    if order == Some("capacity"@) {
        SortKey::CapacityDesc
    } else if order == Some("first_seen"@) {
        SortKey::FirstSeenAsc
    } else {
        SortKey::AliasAsc
    }
}

impl NodeConnectivitySort {
    /// The name of the order as text, if the request gave one.
    pub open spec fn name(self) -> Option<Seq<char>> {
        match self.order {
            Some(name) => Some(name@),
            None => None,
        }
    }

    /// The order that this request selects.
    pub fn key(&self) -> (key: SortKey)
        ensures
            key == sort_key_named(self.name()),
    {
        match &self.order {
            Some(name) => {
                if text_equal(name.as_str(), "capacity") {
                    SortKey::CapacityDesc
                } else if text_equal(name.as_str(), "first_seen") {
                    SortKey::FirstSeenAsc
                } else {
                    SortKey::AliasAsc
                }
            },
            None => SortKey::AliasAsc,
        }
    }
}

impl NodeConnectivityFilter {
    /// Whether the filter is refused: what it gives as the least capacity
    /// is below zero or no number.
    pub open spec fn refused(self) -> bool {
        match self.min_capacity {
            Some(MinCapacity::Amount(amount)) => amount.is_negative(),
            Some(MinCapacity::NotANumber) => true,
            None => false,
        }
    }
}

/// What is done for a request that passes validation.
///
/// Without a filter the store is read without a condition. With a least
/// capacity that a node can have, the store is read for the nodes of at
/// least that capacity in satoshis. A least capacity of more satoshis than
/// the largest `u64` is beyond every node, and nothing is listed.
pub open spec fn planned(filter: NodeConnectivityFilter, sort: NodeConnectivitySort) -> QueryPlan {
    let sort = sort_key_named(sort.name());
    match filter.min_capacity {
        Some(MinCapacity::Amount(amount)) => if amount.magnitude() > u64::MAX {
            QueryPlan::Nothing
        } else {
            QueryPlan::Read(NodeQuery { min_capacity: Some(amount.magnitude() as u64), sort })
        },
        _ => QueryPlan::Read(NodeQuery { min_capacity: None, sort }),
    }
}

/// Validates a request and says what is to be done for it.
///
/// A filter whose least capacity is below zero or no number is refused with
/// [`AppError::ValueError`]. Every other request gives the plan of
/// [`planned`].
pub fn plan_query(filter: &NodeConnectivityFilter, sort: &NodeConnectivitySort) -> (result: Result<
    QueryPlan,
    AppError,
>)
    ensures
        filter.refused() ==> (result matches Err(AppError::ValueError(reason)) && reason@
            == "min_capacity must be non-negative"@),
        !filter.refused() ==> result == Ok::<QueryPlan, AppError>(planned(*filter, *sort)),
{
    match &filter.min_capacity {
        Some(MinCapacity::Amount(amount)) => {
            if amount.negative() {
                return Err(
                    AppError::ValueError(String::from_str("min_capacity must be non-negative")),
                );
            }
            match amount.to_sats() {
                Some(least) => Ok(
                    QueryPlan::Read(NodeQuery { min_capacity: Some(least), sort: sort.key() }),
                ),
                None => Ok(QueryPlan::Nothing),
            }
        },
        Some(MinCapacity::NotANumber) => Err(
            AppError::ValueError(String::from_str("min_capacity must be non-negative")),
        ),
        None => Ok(QueryPlan::Read(NodeQuery { min_capacity: None, sort: sort.key() })),
    }
}

/// The name of the parameter of the query text that stands for the least
/// capacity.
pub const MIN_CAPACITY_PARAM: &'static str = "min_capacity";

/// The condition of the query text, where there is a filter.
pub open spec fn where_text(min_capacity: Option<u64>) -> Seq<char> {
    match min_capacity {
        Some(_) => "\nWHERE capacity >= $min_capacity"@,
        None => Seq::empty(),
    }
}

/// The ordering clause of the query text.
pub open spec fn order_text(sort: SortKey) -> Seq<char> {
    match sort {
        SortKey::CapacityDesc => "\nORDER BY capacity DESC"@,
        SortKey::FirstSeenAsc => "\nORDER BY first_seen ASC"@,
        SortKey::AliasAsc => "\nORDER BY alias ASC"@,
    }
}

impl NodeQuery {
    /// The text of the query in the store's language. The least capacity is
    /// not part of the text: the text refers to it as the parameter
    /// [`MIN_CAPACITY_PARAM`], which the caller binds to `self.min_capacity`.
    pub open spec fn sql_text(self) -> Seq<char> {
        "SELECT * FROM ln_node_connectivity"@ + where_text(self.min_capacity) + order_text(
            self.sort,
        )
    }

    /// The text of the query in the store's language.
    pub fn to_sql(&self) -> (sql: String)
        ensures
            sql@ == self.sql_text(),
    {
        let mut sql: String = String::from_str("SELECT * FROM ln_node_connectivity");
        if self.min_capacity.is_some() {
            sql.append("\nWHERE capacity >= $min_capacity");
        }
        assert(sql@ =~= "SELECT * FROM ln_node_connectivity"@ + where_text(self.min_capacity));
        match self.sort {
            SortKey::CapacityDesc => sql.append("\nORDER BY capacity DESC"),
            SortKey::FirstSeenAsc => sql.append("\nORDER BY first_seen ASC"),
            SortKey::AliasAsc => sql.append("\nORDER BY alias ASC"),
        }
        sql
    }

    /// Whether the query lists this node: there is no filter, or the node's
    /// capacity is at least the capacity of the filter.
    pub open spec fn admits(self, node: NodeRecord) -> bool {
        match self.min_capacity {
            Some(least) => node.capacity >= least,
            None => true,
        }
    }

    /// Whether the query lists this node.
    pub fn lists(&self, node: &NodeConnectivity) -> (listed: bool)
        ensures
            listed == self.admits(node@),
    {
        match self.min_capacity {
            Some(least) => node.capacity >= least,
            None => true,
        }
    }
}

impl QueryPlan {
    /// Whether the plan lists this node.
    pub open spec fn admits(self, node: NodeRecord) -> bool {
        match self {
            QueryPlan::Read(query) => query.admits(node),
            QueryPlan::Nothing => false,
        }
    }
}

/// Whether `a` may stand before `b` in a listing in this order: `a` has the
/// larger or the same capacity, the earlier or the same first sighting, or
/// the alias that comes first or the same alias.
pub open spec fn in_order(sort: SortKey, a: NodeRecord, b: NodeRecord) -> bool {
    match sort {
        SortKey::CapacityDesc => a.capacity >= b.capacity,
        SortKey::FirstSeenAsc => a.first_seen <= b.first_seen,
        SortKey::AliasAsc => lex_less(a.alias, b.alias) || a.alias == b.alias,
    }
}

/// Whether `a` and `b` are alike in what this order looks at.
pub open spec fn ties(sort: SortKey, a: NodeRecord, b: NodeRecord) -> bool {
    match sort {
        SortKey::CapacityDesc => a.capacity == b.capacity,
        SortKey::FirstSeenAsc => a.first_seen == b.first_seen,
        SortKey::AliasAsc => a.alias == b.alias,
    }
}

/// Whether `a` stands before `b` in the snapshot's listing in this order:
/// `a` may stand before `b` and they are not alike, or they are alike and
/// `a` has the public key that comes first.
pub open spec fn sorts_before(sort: SortKey, a: NodeRecord, b: NodeRecord) -> bool {
    if ties(sort, a, b) {
        lex_less(a.public_key, b.public_key)
    } else {
        in_order(sort, a, b)
    }
}

/// No node stands before itself, and of two nodes not both stand before the
/// other.
pub proof fn lemma_sorts_before_asymmetric(sort: SortKey, a: NodeRecord, b: NodeRecord)
    requires
        sorts_before(sort, a, b),
    ensures
        !sorts_before(sort, b, a),
        a != b,
{
    lemma_lex_less_irreflexive(a.public_key);
    lemma_lex_less_irreflexive(a.alias);
    if ties(sort, a, b) {
        lemma_lex_less_asymmetric(a.public_key, b.public_key);
    } else if sort == SortKey::AliasAsc {
        lemma_lex_less_asymmetric(a.alias, b.alias);
    }
}

/// Standing before is transitive.
pub proof fn lemma_sorts_before_transitive(
    sort: SortKey,
    a: NodeRecord,
    b: NodeRecord,
    c: NodeRecord,
)
    requires
        sorts_before(sort, a, b),
        sorts_before(sort, b, c),
    ensures
        sorts_before(sort, a, c),
{
    if ties(sort, a, b) && ties(sort, b, c) {
        lemma_lex_less_transitive(a.public_key, b.public_key, c.public_key);
    } else if sort == SortKey::AliasAsc {
        if !ties(sort, a, b) && !ties(sort, b, c) {
            lemma_lex_less_transitive(a.alias, b.alias, c.alias);
            lemma_lex_less_irreflexive(a.alias);
        }
    }
}

/// Of two nodes with different public keys one stands before the other.
pub proof fn lemma_sorts_before_total(sort: SortKey, a: NodeRecord, b: NodeRecord)
    requires
        a.public_key != b.public_key,
    ensures
        sorts_before(sort, a, b) || sorts_before(sort, b, a),
{
    lemma_lex_less_total(a.public_key, b.public_key);
    lemma_lex_less_total(a.alias, b.alias);
}

/// Whether `a` stands before `b` in the snapshot's listing in this order.
pub fn stands_before(sort: SortKey, a: &NodeConnectivity, b: &NodeConnectivity) -> (before: bool)
    ensures
        before == sorts_before(sort, a@, b@),
{
    match sort {
        SortKey::CapacityDesc => {
            if a.capacity == b.capacity {
                text_less(a.public_key.as_str(), b.public_key.as_str())
            } else {
                a.capacity > b.capacity
            }
        },
        SortKey::FirstSeenAsc => {
            if a.first_seen == b.first_seen {
                text_less(a.public_key.as_str(), b.public_key.as_str())
            } else {
                a.first_seen < b.first_seen
            }
        },
        SortKey::AliasAsc => {
            if text_equal(a.alias.as_str(), b.alias.as_str()) {
                text_less(a.public_key.as_str(), b.public_key.as_str())
            } else {
                text_less(a.alias.as_str(), b.alias.as_str())
            }
        },
    }
}

/// Whether every row stands before all the rows after it.
pub open spec fn listed_in_order(sort: SortKey, rows: Seq<NodeRecord>) -> bool {
    forall|i: int, j: int| 0 <= i < j < rows.len() ==> sorts_before(sort, rows[i], rows[j])
}

/// Whether `rows` is the snapshot's answer to the query: the stored nodes
/// that the query lists, each once, every one standing before those after it.
pub open spec fn is_answer(
    snapshot: Map<Seq<char>, NodeRecord>,
    query: NodeQuery,
    rows: Seq<NodeRecord>,
) -> bool {
    &&& forall|i: int|
        0 <= i < rows.len() ==> {
            &&& snapshot.contains_key((#[trigger] rows[i]).public_key)
            &&& snapshot[rows[i].public_key] == rows[i]
            &&& query.admits(rows[i])
        }
    &&& forall|key: Seq<char>|
        snapshot.contains_key(key) && query.admits(#[trigger] snapshot[key]) ==> rows.contains(
            snapshot[key],
        )
    &&& listed_in_order(query.sort, rows)
}

/// Two listings in the same order that hold the same nodes are the same
/// listing.
pub proof fn lemma_listing_unique(sort: SortKey, a: Seq<NodeRecord>, b: Seq<NodeRecord>)
    requires
        listed_in_order(sort, a),
        listed_in_order(sort, b),
        forall|node: NodeRecord| a.contains(node) <==> b.contains(node),
    ensures
        a == b,
    decreases a.len(),
{
    if a.len() == 0 {
        if b.len() > 0 {
            assert(b.contains(b[0]));
        }
        assert(a =~= b);
    } else {
        assert(a.contains(a[0]));
        let j = choose|j: int| 0 <= j < b.len() && b[j] == a[0];
        assert(b.contains(b[0]));
        let k = choose|k: int| 0 <= k < a.len() && a[k] == b[0];
        if j > 0 && k > 0 {
            lemma_sorts_before_asymmetric(sort, a[0], a[k]);
        }
        assert(a[0] == b[0]);
        let a_rest = a.drop_first();
        let b_rest = b.drop_first();
        assert forall|node: NodeRecord| a_rest.contains(node) <==> b_rest.contains(node) by {
            if a_rest.contains(node) {
                let i = choose|i: int| 0 <= i < a_rest.len() && a_rest[i] == node;
                assert(a[i + 1] == node);
                lemma_sorts_before_asymmetric(sort, a[0], a[i + 1]);
                assert(a.contains(node));
                let m = choose|m: int| 0 <= m < b.len() && b[m] == node;
                assert(b_rest[m - 1] == node);
            }
            if b_rest.contains(node) {
                let i = choose|i: int| 0 <= i < b_rest.len() && b_rest[i] == node;
                assert(b[i + 1] == node);
                lemma_sorts_before_asymmetric(sort, b[0], b[i + 1]);
                assert(b.contains(node));
                let m = choose|m: int| 0 <= m < a.len() && a[m] == node;
                assert(a_rest[m - 1] == node);
            }
        }
        assert forall|i: int, j: int| 0 <= i < j < a_rest.len() implies sorts_before(
            sort,
            a_rest[i],
            a_rest[j],
        ) by {
            assert(sorts_before(sort, a[i + 1], a[j + 1]));
        }
        assert forall|i: int, j: int| 0 <= i < j < b_rest.len() implies sorts_before(
            sort,
            b_rest[i],
            b_rest[j],
        ) by {
            assert(sorts_before(sort, b[i + 1], b[j + 1]));
        }
        lemma_listing_unique(sort, a_rest, b_rest);
        assert(a =~= seq![a[0]] + a_rest);
        assert(b =~= seq![b[0]] + b_rest);
    }
}

/// A snapshot has one answer to a query: what is stored and what is asked
/// decide every row and its place.
pub proof fn lemma_answer_unique(
    snapshot: Map<Seq<char>, NodeRecord>,
    query: NodeQuery,
    a: Seq<NodeRecord>,
    b: Seq<NodeRecord>,
)
    requires
        is_answer(snapshot, query, a),
        is_answer(snapshot, query, b),
    ensures
        a == b,
{
    assert forall|node: NodeRecord| a.contains(node) <==> b.contains(node) by {
        if a.contains(node) {
            let i = choose|i: int| 0 <= i < a.len() && a[i] == node;
            assert(snapshot[a[i].public_key] == node);
        }
        if b.contains(node) {
            let i = choose|i: int| 0 <= i < b.len() && b[i] == node;
            assert(snapshot[b[i].public_key] == node);
        }
    }
    lemma_listing_unique(query.sort, a, b);
}

/// The snapshot's answer to the query: by [`lemma_answer_unique`] the one
/// list of rows that [`is_answer`] accepts, where there is one.
pub open spec fn answer(snapshot: Map<Seq<char>, NodeRecord>, query: NodeQuery) -> Seq<NodeRecord> {
    choose|rows: Seq<NodeRecord>| is_answer(snapshot, query, rows)
}

/// A list of rows that is an answer is the answer.
pub proof fn lemma_answer_is_the_answer(
    snapshot: Map<Seq<char>, NodeRecord>,
    query: NodeQuery,
    rows: Seq<NodeRecord>,
)
    requires
        is_answer(snapshot, query, rows),
    ensures
        rows == answer(snapshot, query),
{
    lemma_answer_unique(snapshot, query, rows, answer(snapshot, query));
}

/// A filter of zero, like no filter, leaves no stored node out.
pub proof fn lemma_zero_filter_lists_all(
    snapshot: Map<Seq<char>, NodeRecord>,
    query: NodeQuery,
    rows: Seq<NodeRecord>,
)
    requires
        is_answer(snapshot, query, rows),
        query.min_capacity == Some(0u64) || query.min_capacity == None::<u64>,
    ensures
        forall|key: Seq<char>| #[trigger]
            snapshot.contains_key(key) ==> rows.contains(snapshot[key]),
{
    assert forall|key: Seq<char>| #[trigger] snapshot.contains_key(key) implies rows.contains(
        snapshot[key],
    ) by {
        assert(query.admits(snapshot[key]));
    }
}

/// The rows that a plan lists from the snapshot: the answer to its query, or
/// none.
pub open spec fn plan_answer(snapshot: Map<Seq<char>, NodeRecord>, plan: QueryPlan) -> Seq<
    NodeRecord,
> {
    match plan {
        QueryPlan::Read(query) => answer(snapshot, query),
        QueryPlan::Nothing => Seq::empty(),
    }
}

/// Whether the rows that the plan lists from the snapshot are the snapshot's
/// answer to the plan's query. A plan that lists nothing has no query to
/// answer.
pub open spec fn plan_answered(snapshot: Map<Seq<char>, NodeRecord>, plan: QueryPlan) -> bool {
    plan matches QueryPlan::Read(query) ==> is_answer(snapshot, query, answer(snapshot, query))
}

/// The rows that a plan lists are the stored nodes that it admits, and no
/// others.
pub proof fn lemma_plan_answer_selects(
    snapshot: Map<Seq<char>, NodeRecord>,
    plan: QueryPlan,
    node: NodeRecord,
)
    requires
        plan_answered(snapshot, plan),
    ensures
        plan_answer(snapshot, plan).contains(node) <==> {
            &&& snapshot.contains_key(node.public_key)
            &&& snapshot[node.public_key] == node
            &&& plan.admits(node)
        },
{
    let rows = plan_answer(snapshot, plan);
    if rows.contains(node) {
        let i = choose|i: int| 0 <= i < rows.len() && rows[i] == node;
        assert(snapshot[rows[i].public_key] == node);
    }
    if snapshot.contains_key(node.public_key) && snapshot[node.public_key] == node && plan.admits(
        node,
    ) {
        assert(rows.contains(snapshot[node.public_key]));
    }
}

/// A least capacity given in bitcoin selects the nodes that the same
/// capacity in satoshis selects: those whose capacity is at least the amount
/// times the satoshis in a bitcoin. This holds of every amount that is not
/// below zero, however large.
pub proof fn lemma_filter_unit_round_trip(
    filter: NodeConnectivityFilter,
    sort: NodeConnectivitySort,
    amount: BtcAmount,
    node: NodeRecord,
)
    requires
        filter.min_capacity == Some(MinCapacity::Amount(amount)),
        !amount.is_negative(),
    ensures
        !filter.refused(),
        planned(filter, sort).admits(node) <==> node.capacity >= amount.magnitude(),
{
}

/// The rows of an answer follow the order that was asked for: capacities do
/// not grow, first sightings do not fall, aliases do not go back in the
/// dictionary.
pub proof fn lemma_answer_follows_order(
    snapshot: Map<Seq<char>, NodeRecord>,
    query: NodeQuery,
    rows: Seq<NodeRecord>,
)
    requires
        is_answer(snapshot, query, rows),
    ensures
        forall|i: int, j: int|
            0 <= i < j < rows.len() ==> in_order(query.sort, #[trigger] rows[i], #[trigger] rows[j]),
        query.sort == SortKey::CapacityDesc ==> forall|i: int, j: int|
            0 <= i < j < rows.len() ==> (#[trigger] rows[i]).capacity >= (#[trigger] rows[j]).capacity,
        query.sort == SortKey::FirstSeenAsc ==> forall|i: int, j: int|
            0 <= i < j < rows.len() ==> (#[trigger] rows[i]).first_seen <= (
            #[trigger] rows[j]).first_seen,
        query.sort == SortKey::AliasAsc ==> forall|i: int, j: int|
            0 <= i < j < rows.len() ==> !lex_less((#[trigger] rows[j]).alias, (#[trigger] rows[i]).alias),
{
    assert forall|i: int, j: int| 0 <= i < j < rows.len() implies in_order(
        query.sort,
        #[trigger] rows[i],
        #[trigger] rows[j],
    ) by {
        assert(sorts_before(query.sort, rows[i], rows[j]));
    }
    if query.sort == SortKey::AliasAsc {
        assert forall|i: int, j: int| 0 <= i < j < rows.len() implies !lex_less(
            (#[trigger] rows[j]).alias,
            (#[trigger] rows[i]).alias,
        ) by {
            assert(in_order(query.sort, rows[i], rows[j]));
            lemma_lex_less_irreflexive(rows[i].alias);
            if lex_less(rows[i].alias, rows[j].alias) {
                lemma_lex_less_asymmetric(rows[i].alias, rows[j].alias);
            }
        }
    }
}

} // verus!
