use indexer::state::BondingStateStore;
use indexer::text::push_decimal;
use indexer::token::{create_token, token_from_event, update_bonding_curve_and_market_cap, update_sql};
use indexer::types::{BondStatus, BondingCurveAndMcInfo, CreateEvent};

const HEAD: &str = "UPDATE token AS t SET market_cap = u.market_cap, bonding_curve_percentage = u.bonding_curve_percentage FROM (VALUES";
const TAIL: &str = ") AS u(contract_address, market_cap, bonding_curve_percentage) WHERE u.contract_address = t.contract_address";

fn entry(address: &str, percentage: i32, cap: Option<i64>) -> BondingCurveAndMcInfo {
    BondingCurveAndMcInfo {
        contract_address: address.to_string(),
        bonding_curve_address: format!("{}-curve", address),
        bonding_curve_percentage: percentage,
        market_cap: cap,
    }
}

fn event() -> CreateEvent {
    CreateEvent {
        name: "Alpha".to_string(),
        symbol: "ALP".to_string(),
        uri: "https://example.org/alpha.json".to_string(),
        mint: "AAA".to_string(),
        bonding_curve: "AAA-curve".to_string(),
        creator: "C1".to_string(),
    }
}

#[test]
fn numbers_are_written_in_decimal() {
    let numbers: [(u128, &str); 9] = [
        (0, "0"),
        (7, "7"),
        (9, "9"),
        (10, "10"),
        (99, "99"),
        (100, "100"),
        (1_234_567_890, "1234567890"),
        (18_446_744_073_709_551_615, "18446744073709551615"),
        (u128::MAX, "340282366920938463463374607431768211455"),
    ];
    for (number, text) in numbers {
        let mut out = String::from("n=");
        push_decimal(&mut out, number);
        assert_eq!(out, format!("n={}", text));
    }
}

#[test]
fn the_statement_for_one_row() {
    assert_eq!(update_sql(1), format!("{}($1, $2, $3){}", HEAD, TAIL));
}

#[test]
fn the_statement_for_two_rows() {
    assert_eq!(update_sql(2), format!("{}($1, $2, $3), ($4, $5, $6){}", HEAD, TAIL));
    assert_eq!(
        update_sql(2),
        "UPDATE token AS t SET market_cap = u.market_cap, bonding_curve_percentage = u.bonding_curve_percentage FROM (VALUES($1, $2, $3), ($4, $5, $6)) AS u(contract_address, market_cap, bonding_curve_percentage) WHERE u.contract_address = t.contract_address"
    );
}

#[test]
fn the_parameters_are_numbered_on_past_nine() {
    assert_eq!(
        update_sql(4),
        format!("{}($1, $2, $3), ($4, $5, $6), ($7, $8, $9), ($10, $11, $12){}", HEAD, TAIL)
    );
    let long = update_sql(34);
    assert!(long.ends_with(&format!(", ($97, $98, $99), ($100, $101, $102){}", TAIL)));
    assert_eq!(long.matches('(').count(), 36);
}

#[test]
fn the_statement_for_no_row_has_no_value_group() {
    assert_eq!(update_sql(0), format!("{}{}", HEAD, TAIL));
}

#[test]
fn an_empty_store_has_nothing_to_write_back() {
    assert!(update_bonding_curve_and_market_cap(&BondingStateStore::new()).is_none());
}

#[test]
fn the_update_carries_the_rows_of_the_store_in_their_order() {
    let mut store = BondingStateStore::new();
    store.upsert(entry("BBB", 10, Some(1_000)));
    store.upsert(entry("AAA", 20, None));
    store.upsert(entry("CCC", 30, Some(3_000)));
    store.update("BBB", 11, Some(1_100));
    let update = update_bonding_curve_and_market_cap(&store).unwrap();
    assert_eq!(update.sql, format!("{}($1, $2, $3), ($4, $5, $6), ($7, $8, $9){}", HEAD, TAIL));
    assert_eq!(update.rows.len(), 3);
    assert_eq!(update.rows[0].contract_address, "BBB");
    assert_eq!(update.rows[0].market_cap, Some(1_100));
    assert_eq!(update.rows[0].bonding_curve_percentage, 11);
    assert_eq!(update.rows[1].contract_address, "AAA");
    assert_eq!(update.rows[1].market_cap, None);
    assert_eq!(update.rows[1].bonding_curve_percentage, 20);
    assert_eq!(update.rows[2].contract_address, "CCC");
    // The store is left as it was.
    assert_eq!(store.len(), 3);
    assert_eq!(store.get("BBB").unwrap().market_cap, Some(1_100));
}

#[test]
fn the_row_of_a_new_asset_is_built_from_its_event() {
    let token = token_from_event(0x67e5504410b1426f9247bb680e5fe0c8, 1_751_536_646_000_000, &event());
    assert_eq!(token.id, 0x67e5504410b1426f9247bb680e5fe0c8);
    assert_eq!(token.created_at, 1_751_536_646_000_000);
    assert_eq!(token.updated_at, 1_751_536_646_000_000);
    assert_eq!(token.name, "Alpha");
    assert_eq!(token.ticker, "ALP");
    assert_eq!(token.contract_address, "AAA");
    assert_eq!(token.bonding_curve_percentage, 0);
    assert_eq!(token.bond_status, BondStatus::NewlyLaunched);
    assert_eq!(token.market_cap, Some(0));
    assert_eq!(token.uri, "https://example.org/alpha.json");
    assert_eq!(token.bonding_curve_address, "AAA-curve");
    assert_eq!(token.creator_address, "C1");
}

#[test]
fn a_created_row_gets_a_fresh_identifier_and_the_current_time() {
    let first = create_token(&event());
    let second = create_token(&event());
    assert_ne!(first.id, second.id);
    assert_eq!((first.id >> 76) & 0xf, 4);
    assert_eq!((first.id >> 62) & 0x3, 2);
    assert_eq!((second.id >> 76) & 0xf, 4);
    assert_eq!((second.id >> 62) & 0x3, 2);
    assert!(first.created_at > 1_600_000_000_000_000);
    assert_eq!(first.created_at, first.updated_at);
    assert!(second.created_at >= first.created_at);
    assert_eq!(first.bond_status, BondStatus::NewlyLaunched);
    assert_eq!(first.bonding_curve_percentage, 0);
    assert_eq!(first.market_cap, Some(0));
    assert_eq!(first.contract_address, "AAA");
    assert_eq!(first.creator_address, "C1");
}

#[test]
fn the_bonding_state_is_written_back_every_ten_seconds() {
    assert_eq!(indexer::token::STATE_FLUSH_INTERVAL_SECS, 10);
}
