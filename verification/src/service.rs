//! The two operations of the service on a snapshot held in memory: the
//! refresh of the snapshot from a fetched ranking, and the answer to a
//! request of the read endpoint.

use vstd::prelude::*;

use crate::errors::{AppError, CycleError, FetchError, ReconcileError};
use crate::node::{records, NodeConnectivity, NodeRecord};
use crate::query::{
    plan_answer, plan_answered, plan_query, planned, NodeConnectivityFilter, NodeConnectivitySort,
    QueryPlan,
};
use crate::reconcile::{is_newest_update, upsert_all, Reconciliation, WriteOutcome};
use crate::response::{
    friendly_record, friendly_records, respond, FriendlyNodeConnectivity, FriendlyRecord,
};
use crate::snapshot::Snapshot;

verus! {

/// The rows of the reply to a request that passed validation: a row for each
/// node that the plan lists from the snapshot, in the same order.
pub open spec fn reply(snapshot: Map<Seq<char>, NodeRecord>, plan: QueryPlan) -> Seq<
    FriendlyRecord,
> {
    plan_answer(snapshot, plan).map_values(|node: NodeRecord| friendly_record(node))
}

/// Answers a request of the read endpoint from the snapshot.
///
/// A filter whose least capacity is below zero or no number is refused with
/// [`AppError::ValueError`]. Every other request is answered with the rows
/// of [`reply`] for the plan of [`planned`]: a row for each stored node that
/// the plan admits, in the order that was asked for. The snapshot is only
/// read.
pub fn get_nodes_connectivity_handler(
    db: &Snapshot,
    filter: &NodeConnectivityFilter,
    sort: &NodeConnectivitySort,
) -> (result: Result<Vec<FriendlyNodeConnectivity>, AppError>)
    ensures
        filter.refused() ==> (result matches Err(AppError::ValueError(reason)) && reason@
            == "min_capacity must be non-negative"@),
        !filter.refused() ==> (result matches Ok(rows) && friendly_records(rows@) == reply(
            db@,
            planned(*filter, *sort),
        )),
        !filter.refused() ==> plan_answered(db@, planned(*filter, *sort)),
{
    match plan_query(filter, sort) {
        Ok(QueryPlan::Read(query)) => finish_query(Ok(db.select(&query))),
        Ok(QueryPlan::Nothing) => {
            let rows = finish_query(Ok(Vec::new()));
            assert(reply(db@, QueryPlan::Nothing) =~= Seq::<FriendlyRecord>::empty());
            rows
        },
        Err(refusal) => Err(refusal),
    }
}

/// Turns what a read of the store gave into the result of the request: the
/// rows that list the nodes read, in the order in which the store gave them,
/// or [`AppError::Database`] with the store's account where the read failed.
pub fn finish_query(read: Result<Vec<NodeConnectivity>, String>) -> (result: Result<
    Vec<FriendlyNodeConnectivity>,
    AppError,
>)
    ensures
        match read {
            Ok(nodes) => result matches Ok(rows) && friendly_records(rows@) == records(
                nodes@,
            ).map_values(|node: NodeRecord| friendly_record(node)),
            Err(account) => result == Err::<Vec<FriendlyNodeConnectivity>, AppError>(
                AppError::Database(account),
            ),
        },
{
    match read {
        Ok(nodes) => Ok(respond(&nodes)),
        Err(account) => Err(AppError::Database(account)),
    }
}

/// Refreshes the snapshot from what the fetch of the ranking gave.
///
/// A fetch that failed fails the refresh with its error, and a fetched list
/// with no node in it fails it with [`ReconcileError::EmptyResult`]; either
/// way the snapshot stays as it was. Otherwise every fetched node is written
/// in the order of the list, the snapshot is then [`upsert_all`] of what it
/// was, and the result is the latest update among the fetched nodes.
pub fn update_nodes_connectivity_task(
    db: &mut Snapshot,
    fetched: Result<Vec<NodeConnectivity>, FetchError>,
) -> (result: Result<i64, CycleError>)
    ensures
        match fetched {
            Err(failure) => {
                &&& result == Err::<i64, CycleError>(CycleError::Fetch(failure))
                &&& final(db)@ == old(db)@
            },
            Ok(nodes) => if nodes.len() == 0 {
                &&& result == Err::<i64, CycleError>(
                    CycleError::Reconcile(ReconcileError::EmptyResult),
                )
                &&& final(db)@ == old(db)@
            } else {
                &&& result matches Ok(newest) && is_newest_update(records(nodes@), newest)
                &&& final(db)@ == upsert_all(old(db)@, records(nodes@))
            },
        },
{
    let nodes: Vec<NodeConnectivity> = match fetched {
        Ok(nodes) => nodes,
        Err(failure) => {
            return Err(CycleError::Fetch(failure));
        },
    };
    let ghost wanted = records(nodes@);
    let mut refresh: Reconciliation = match Reconciliation::begin(nodes) {
        Ok(refresh) => refresh,
        Err(refusal) => {
            return Err(CycleError::Reconcile(refusal));
        },
    };
    let newest: i64 = refresh.newest_update();
    let mut count: usize = refresh.written_count();
    loop
        invariant
            refresh.fetched() == wanted,
            !refresh.failed(),
            count == refresh.written(),
            count <= wanted.len(),
            db@ == upsert_all(old(db)@, wanted.take(count as int)),
        ensures
            refresh.complete(),
            refresh.fetched() == wanted,
            db@ == upsert_all(old(db)@, wanted.take(wanted.len() as int)),
        decreases wanted.len() - count,
    {
        let node: NodeConnectivity = match refresh.next_write() {
            Some(node) => node.clone(),
            None => {
                break ;
            },
        };
        proof {
            let grown = wanted.take(count + 1);
            assert(grown.drop_last() =~= wanted.take(count as int));
            assert(grown.last() == node@);
        }
        db.upsert(node);
        let _ = refresh.settle(WriteOutcome::Written);
        count = refresh.written_count();
    }
    assert(wanted.take(wanted.len() as int) =~= wanted);
    Ok(newest)
}

} // verus!
