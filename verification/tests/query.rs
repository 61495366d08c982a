use node_connectivity::errors::AppError;
use node_connectivity::node::NodeConnectivity;
use node_connectivity::query::{
    plan_query, stands_before, MinCapacity, NodeConnectivityFilter, NodeConnectivitySort,
    NodeQuery, QueryPlan, SortKey, MIN_CAPACITY_PARAM,
};
use node_connectivity::units::BtcAmount;

fn no_filter() -> NodeConnectivityFilter {
    NodeConnectivityFilter { min_capacity: None }
}

fn at_least(whole: u64, frac: u32) -> NodeConnectivityFilter {
    let amount = BtcAmount::new(false, whole, frac).unwrap();
    NodeConnectivityFilter { min_capacity: Some(MinCapacity::Amount(amount)) }
}

fn below_zero(whole: u64, frac: u32) -> NodeConnectivityFilter {
    let amount = BtcAmount::new(true, whole, frac).unwrap();
    NodeConnectivityFilter { min_capacity: Some(MinCapacity::Amount(amount)) }
}

fn read(min_capacity: Option<u64>, sort: SortKey) -> Result<QueryPlan, AppError> {
    Ok(QueryPlan::Read(NodeQuery { min_capacity, sort }))
}

fn ordered_by(name: &str) -> NodeConnectivitySort {
    NodeConnectivitySort { order: Some(name.to_owned()) }
}

fn default_order() -> NodeConnectivitySort {
    NodeConnectivitySort { order: None }
}

fn node(key: &str, alias: &str, capacity: u64, first_seen: i64) -> NodeConnectivity {
    NodeConnectivity::new(key.to_owned(), alias.to_owned(), capacity, first_seen, 0)
}

#[test]
fn known_order_names() {
    assert_eq!(ordered_by("capacity").key(), SortKey::CapacityDesc);
    assert_eq!(ordered_by("first_seen").key(), SortKey::FirstSeenAsc);
}

#[test]
fn other_order_names_mean_the_default() {
    assert_eq!(default_order().key(), SortKey::AliasAsc);
    for name in ["", "alias", "Capacity", "capacity ", "first-seen", "firstSeen", "by_weight", "cap"] {
        assert_eq!(ordered_by(name).key(), SortKey::AliasAsc, "{name:?}");
    }
}

#[test]
fn filter_below_zero_is_refused() {
    let expected = Err(AppError::ValueError("min_capacity must be non-negative".to_owned()));
    for sort in [default_order(), ordered_by("capacity"), ordered_by("first_seen"), ordered_by("x")] {
        assert_eq!(plan_query(&below_zero(1, 0), &sort), expected);
    }
    assert_eq!(plan_query(&below_zero(0, 1), &default_order()), expected);
    assert_eq!(plan_query(&below_zero(u64::MAX, 99_999_999), &default_order()), expected);
}

#[test]
fn filter_below_zero_by_less_than_a_satoshi_is_refused() {
    let planned = plan_query(&below_zero(0, 0), &default_order());
    assert_eq!(planned, Err(AppError::ValueError("min_capacity must be non-negative".to_owned())));
}

#[test]
fn filter_that_is_no_number_is_refused() {
    let filter = NodeConnectivityFilter { min_capacity: Some(MinCapacity::NotANumber) };
    let expected = Err(AppError::ValueError("min_capacity must be non-negative".to_owned()));
    for sort in [default_order(), ordered_by("capacity"), ordered_by("first_seen")] {
        assert_eq!(plan_query(&filter, &sort), expected);
    }
}

#[test]
fn filter_of_zero_passes_validation() {
    assert_eq!(plan_query(&at_least(0, 0), &default_order()), read(Some(0), SortKey::AliasAsc));
    assert_eq!(
        plan_query(&at_least(0, 0), &ordered_by("capacity")),
        read(Some(0), SortKey::CapacityDesc)
    );
    assert_eq!(
        plan_query(&at_least(0, 0), &ordered_by("first_seen")),
        read(Some(0), SortKey::FirstSeenAsc)
    );
}

#[test]
fn filter_is_planned_in_satoshis() {
    let planned = plan_query(&at_least(2, 0), &ordered_by("capacity"));
    assert_eq!(planned, read(Some(200_000_000), SortKey::CapacityDesc));
    let planned = plan_query(&at_least(0, 1), &default_order());
    assert_eq!(planned, read(Some(1), SortKey::AliasAsc));
    let planned = plan_query(&at_least(21_000_000, 12_345_678), &ordered_by("first_seen"));
    assert_eq!(planned, read(Some(2_100_000_012_345_678), SortKey::FirstSeenAsc));
}

#[test]
fn filter_of_the_largest_capacity_is_planned_as_it_is() {
    let planned = plan_query(&at_least(184_467_440_737, 9_551_615), &default_order());
    assert_eq!(planned, read(Some(u64::MAX), SortKey::AliasAsc));
}

#[test]
fn filter_beyond_every_capacity_lists_nothing() {
    for sort in [default_order(), ordered_by("capacity"), ordered_by("first_seen")] {
        assert_eq!(plan_query(&at_least(184_467_440_737, 9_551_616), &sort), Ok(QueryPlan::Nothing));
        assert_eq!(plan_query(&at_least(184_467_440_738, 0), &sort), Ok(QueryPlan::Nothing));
        assert_eq!(plan_query(&at_least(u64::MAX, 0), &sort), Ok(QueryPlan::Nothing));
        assert_eq!(plan_query(&at_least(u64::MAX, 99_999_999), &sort), Ok(QueryPlan::Nothing));
    }
}

#[test]
fn no_filter_plans_no_condition() {
    let planned = plan_query(&no_filter(), &default_order());
    assert_eq!(planned, read(None, SortKey::AliasAsc));
}

#[test]
fn query_text_without_filter() {
    let text = |sort| NodeQuery { min_capacity: None, sort }.to_sql();
    assert_eq!(text(SortKey::AliasAsc), "SELECT * FROM ln_node_connectivity\nORDER BY alias ASC");
    assert_eq!(
        text(SortKey::CapacityDesc),
        "SELECT * FROM ln_node_connectivity\nORDER BY capacity DESC"
    );
    assert_eq!(
        text(SortKey::FirstSeenAsc),
        "SELECT * FROM ln_node_connectivity\nORDER BY first_seen ASC"
    );
}

#[test]
fn query_text_with_filter() {
    let text = |sort| NodeQuery { min_capacity: Some(200_000_000), sort }.to_sql();
    assert_eq!(
        text(SortKey::AliasAsc),
        "SELECT * FROM ln_node_connectivity\nWHERE capacity >= $min_capacity\nORDER BY alias ASC"
    );
    assert_eq!(
        text(SortKey::CapacityDesc),
        "SELECT * FROM ln_node_connectivity\nWHERE capacity >= $min_capacity\nORDER BY capacity DESC"
    );
    assert_eq!(
        text(SortKey::FirstSeenAsc),
        "SELECT * FROM ln_node_connectivity\nWHERE capacity >= $min_capacity\nORDER BY first_seen ASC"
    );
}

#[test]
fn query_text_never_holds_the_value_of_the_filter() {
    let small = NodeQuery { min_capacity: Some(0), sort: SortKey::AliasAsc }.to_sql();
    let large = NodeQuery { min_capacity: Some(u64::MAX), sort: SortKey::AliasAsc }.to_sql();
    assert_eq!(small, large);
}

#[test]
fn query_lists_nodes_at_or_above_the_filter() {
    let query = NodeQuery { min_capacity: Some(200_000_000), sort: SortKey::AliasAsc };
    assert!(query.lists(&node("a", "a", 200_000_000, 0)));
    assert!(query.lists(&node("a", "a", 200_000_001, 0)));
    assert!(query.lists(&node("a", "a", u64::MAX, 0)));
    assert!(!query.lists(&node("a", "a", 199_999_999, 0)));
    assert!(!query.lists(&node("a", "a", 0, 0)));
}

#[test]
fn query_without_filter_lists_every_node() {
    let query = NodeQuery { min_capacity: None, sort: SortKey::AliasAsc };
    assert!(query.lists(&node("a", "a", 0, 0)));
    assert!(query.lists(&node("a", "a", u64::MAX, 0)));
}

#[test]
fn larger_capacity_stands_first() {
    let big = node("a", "zeta", 500, 9);
    let small = node("b", "alpha", 100, 1);
    assert!(stands_before(SortKey::CapacityDesc, &big, &small));
    assert!(!stands_before(SortKey::CapacityDesc, &small, &big));
}

#[test]
fn earlier_sighting_stands_first() {
    let old = node("z", "zeta", 1, -5);
    let new = node("a", "alpha", 900, 7);
    assert!(stands_before(SortKey::FirstSeenAsc, &old, &new));
    assert!(!stands_before(SortKey::FirstSeenAsc, &new, &old));
}

#[test]
fn alias_first_in_the_dictionary_stands_first() {
    let alpha = node("z", "alpha", 1, 9);
    let zeta = node("a", "zeta", 900, 1);
    assert!(stands_before(SortKey::AliasAsc, &alpha, &zeta));
    assert!(!stands_before(SortKey::AliasAsc, &zeta, &alpha));
}

#[test]
fn public_key_decides_between_nodes_that_are_alike() {
    let first = node("02aa", "same", 100, 5);
    let second = node("02ab", "same", 100, 5);
    for sort in [SortKey::CapacityDesc, SortKey::FirstSeenAsc, SortKey::AliasAsc] {
        assert!(stands_before(sort, &first, &second));
        assert!(!stands_before(sort, &second, &first));
        assert!(!stands_before(sort, &first, &first));
    }
}

#[test]
fn query_text_names_its_parameter() {
    assert_eq!(MIN_CAPACITY_PARAM, "min_capacity");
    let sql = NodeQuery { min_capacity: Some(1), sort: SortKey::AliasAsc }.to_sql();
    assert!(sql.contains(&format!("${MIN_CAPACITY_PARAM}")));
}
