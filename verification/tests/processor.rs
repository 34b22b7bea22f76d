use indexer::price::PriceOracleCache;
use indexer::processor::{Action, PumpfunInstructionProcessor};
use indexer::state::BondingStateStore;
use indexer::types::{
    BondStatus, BondingCurveAndMcInfo, CompleteEvent, CreateEvent, EventEnvelope, TradeEvent,
    TradeInfo,
};

fn processor_at(price: u64) -> PumpfunInstructionProcessor {
    let mut cache = PriceOracleCache::new();
    cache.refresh(Some(price));
    PumpfunInstructionProcessor::new(BondingStateStore::new(), cache)
}

fn creation(mint: &str, creator: &str) -> EventEnvelope {
    EventEnvelope::Create(CreateEvent {
        name: format!("{} coin", mint),
        symbol: mint.to_lowercase(),
        uri: format!("https://example.org/{}.json", mint),
        mint: mint.to_string(),
        bonding_curve: format!("{}-curve", mint),
        creator: creator.to_string(),
    })
}

fn trade(mint: &str, user: &str, is_buy: bool, sol: u64, tokens: u64, virtual_sol: u64, virtual_tokens: u64) -> EventEnvelope {
    EventEnvelope::Trade(TradeEvent {
        mint: mint.to_string(),
        sol_amount: sol,
        token_amount: tokens,
        is_buy,
        user: user.to_string(),
        virtual_sol_reserves: virtual_sol,
        virtual_token_reserves: virtual_tokens,
    })
}

#[test]
fn a_creation_puts_the_asset_into_the_store_at_zero() {
    let mut processor = processor_at(20_000_000);
    let action = processor.process(creation("AAA", "C1"));
    let entry = processor.bonding_state_map.get("AAA").unwrap();
    assert_eq!(entry.contract_address, "AAA");
    assert_eq!(entry.bonding_curve_address, "AAA-curve");
    assert_eq!(entry.bonding_curve_percentage, 0);
    assert_eq!(entry.market_cap, Some(0));
    assert_eq!(processor.bonding_state_map.len(), 1);
    match action {
        Action::InsertToken(token) => {
            assert_eq!(token.bond_status, BondStatus::NewlyLaunched);
            assert_eq!(token.bonding_curve_percentage, 0);
            assert_eq!(token.market_cap, Some(0));
            assert_eq!(token.name, "AAA coin");
            assert_eq!(token.ticker, "aaa");
            assert_eq!(token.uri, "https://example.org/AAA.json");
            assert_eq!(token.contract_address, "AAA");
            assert_eq!(token.bonding_curve_address, "AAA-curve");
            assert_eq!(token.creator_address, "C1");
            assert_eq!(token.created_at, token.updated_at);
            assert!(token.created_at > 1_600_000_000_000_000);
            assert_eq!((token.id >> 76) & 0xf, 4);
            assert_eq!((token.id >> 62) & 0x3, 2);
        }
        other => panic!("unexpected action {:?}", other),
    }
    assert_eq!(processor.sol_price.read(), 20_000_000);
}

#[test]
fn every_creation_is_retrievable_at_once() {
    let mut processor = processor_at(1);
    let mints = ["a", "B", "", "mint with spaces", "7xKXtg2CW87d97TXJSDpbD5jBkheTqA83TZRuJosgAsU"];
    for (count, mint) in mints.iter().enumerate() {
        match processor.process(creation(mint, "someone")) {
            Action::InsertToken(token) => {
                assert_eq!(token.contract_address, *mint);
                assert_eq!(token.bond_status, BondStatus::NewlyLaunched);
            }
            other => panic!("unexpected action {:?}", other),
        }
        let entry = processor.bonding_state_map.get(mint).unwrap();
        assert_eq!(entry.bonding_curve_percentage, 0);
        assert_eq!(entry.market_cap, Some(0));
        assert_eq!(processor.bonding_state_map.len(), count + 1);
    }
}

#[test]
fn two_creations_draw_different_identifiers() {
    let mut processor = processor_at(1);
    let first = match processor.process(creation("AAA", "C1")) {
        Action::InsertToken(token) => token.id,
        other => panic!("unexpected action {:?}", other),
    };
    let second = match processor.process(creation("BBB", "C1")) {
        Action::InsertToken(token) => token.id,
        other => panic!("unexpected action {:?}", other),
    };
    assert_ne!(first, second);
}

#[test]
fn a_creation_of_a_known_asset_sets_it_back_to_zero() {
    let mut processor = processor_at(20_000_000);
    processor.process(creation("AAA", "C1"));
    processor.process(trade("AAA", "T1", true, 1, 1, 85_000_000_000, 676_450_000_000_000));
    assert_eq!(processor.bonding_state_map.get("AAA").unwrap().bonding_curve_percentage, 50);
    processor.process(creation("AAA", "C1"));
    let entry = processor.bonding_state_map.get("AAA").unwrap();
    assert_eq!(entry.bonding_curve_percentage, 0);
    assert_eq!(entry.market_cap, Some(0));
    assert_eq!(processor.bonding_state_map.len(), 1);
}

#[test]
fn a_trade_of_an_unknown_asset_is_dropped() {
    let mut processor = processor_at(20_000_000);
    processor.process(creation("AAA", "C1"));
    let action = processor.process(trade("ZZZ", "T1", true, 5, 6, 85_000_000_000, 676_450_000_000_000));
    assert!(matches!(action, Action::Ignore));
    assert_eq!(processor.bonding_state_map.len(), 1);
    assert!(!processor.bonding_state_map.contains_key("ZZZ"));
    let entry = processor.bonding_state_map.get("AAA").unwrap();
    assert_eq!(entry.bonding_curve_percentage, 0);
    assert_eq!(entry.market_cap, Some(0));
}

#[test]
fn a_trade_on_an_empty_store_is_dropped() {
    let mut processor = processor_at(20_000_000);
    let action = processor.process(trade("AAA", "T1", false, 5, 6, 1, 1));
    assert!(matches!(action, Action::Ignore));
    assert_eq!(processor.bonding_state_map.len(), 0);
}

#[test]
fn a_trade_of_a_known_asset_recomputes_its_figures_and_hands_the_trade_on() {
    let mut processor = processor_at(20_000_000);
    processor.process(creation("AAA", "C1"));
    processor.process(creation("BBB", "C2"));
    let action = processor.process(trade(
        "AAA",
        "T1",
        true,
        55_000_000_000,
        396_550_000_000_000,
        85_000_000_000,
        676_450_000_000_000,
    ));
    match action {
        Action::PublishTrade(TradeInfo { sol_amount, token_amount, is_buy, user, mint }) => {
            assert_eq!(sol_amount, 55_000_000_000);
            assert_eq!(token_amount, 396_550_000_000_000);
            assert!(is_buy);
            assert_eq!(user, "T1");
            assert_eq!(mint, "AAA");
        }
        other => panic!("unexpected action {:?}", other),
    }
    let entry = processor.bonding_state_map.get("AAA").unwrap();
    assert_eq!(entry.bonding_curve_percentage, 50);
    // 85 SOL against 676_450_000 tokens at $20: 85 / 676_450_000 * 20 * 10^9 = 2513.1199...
    assert_eq!(entry.market_cap, Some(2_513));
    assert_eq!(entry.bonding_curve_address, "AAA-curve");
    let other = processor.bonding_state_map.get("BBB").unwrap();
    assert_eq!(other.bonding_curve_percentage, 0);
    assert_eq!(other.market_cap, Some(0));
}

#[test]
fn a_sale_is_handed_on_as_a_sale() {
    let mut processor = processor_at(20_000_000);
    processor.process(creation("AAA", "C1"));
    match processor.process(trade("AAA", "T1", false, 7, 9, 30_000_000_000, 1_073_000_000_000_000)) {
        Action::PublishTrade(info) => {
            assert!(!info.is_buy);
            assert_eq!(info.sol_amount, 7);
            assert_eq!(info.token_amount, 9);
        }
        other => panic!("unexpected action {:?}", other),
    }
}

#[test]
fn a_trade_uses_the_price_that_is_cached_when_it_arrives() {
    let mut processor = processor_at(20_000_000);
    processor.process(creation("AAA", "C1"));
    processor.process(trade("AAA", "T1", true, 1, 1, 85_000_000_000, 206_900_000_000_000));
    assert_eq!(processor.bonding_state_map.get("AAA").unwrap().market_cap, Some(8_216));
    processor.sol_price.refresh(Some(40_000_000));
    processor.process(trade("AAA", "T1", true, 1, 1, 85_000_000_000, 206_900_000_000_000));
    assert_eq!(processor.bonding_state_map.get("AAA").unwrap().market_cap, Some(16_433));
    processor.sol_price.refresh(None);
    processor.process(trade("AAA", "T1", true, 1, 1, 85_000_000_000, 206_900_000_000_000));
    assert_eq!(processor.bonding_state_map.get("AAA").unwrap().market_cap, Some(16_433));
}

#[test]
fn the_percentage_of_a_trade_stays_within_zero_and_a_hundred() {
    let mut processor = processor_at(20_000_000);
    processor.process(creation("AAA", "C1"));
    processor.process(trade("AAA", "T1", true, 1, 1, 1, u64::MAX));
    assert_eq!(processor.bonding_state_map.get("AAA").unwrap().bonding_curve_percentage, 0);
    processor.process(trade("AAA", "T1", true, 1, 1, 0, 0));
    assert_eq!(processor.bonding_state_map.get("AAA").unwrap().bonding_curve_percentage, 100);
    assert_eq!(processor.bonding_state_map.get("AAA").unwrap().market_cap, Some(0));
    processor.process(trade("AAA", "T1", true, 1, 1, 30_000_000_000, 0));
    assert_eq!(processor.bonding_state_map.get("AAA").unwrap().market_cap, Some(i64::MAX));
}

#[test]
fn a_completion_asks_for_graduation_and_leaves_the_store_alone() {
    let mut processor = processor_at(20_000_000);
    processor.process(creation("AAA", "C1"));
    processor.process(trade("AAA", "T1", true, 1, 1, 85_000_000_000, 676_450_000_000_000));
    let action = processor.process(EventEnvelope::Complete(CompleteEvent { mint: "AAA".to_string() }));
    match action {
        Action::SetStatus { contract_address, bond_status } => {
            assert_eq!(contract_address, "AAA");
            assert_eq!(bond_status, BondStatus::Graduated);
        }
        other => panic!("unexpected action {:?}", other),
    }
    let entry = processor.bonding_state_map.get("AAA").unwrap();
    assert_eq!(entry.bonding_curve_percentage, 50);
    assert_eq!(entry.market_cap, Some(2_513));
}

#[test]
fn a_completion_of_an_unknown_asset_still_asks_for_graduation() {
    let mut processor = processor_at(20_000_000);
    let action = processor.process(EventEnvelope::Complete(CompleteEvent { mint: "QQQ".to_string() }));
    match action {
        Action::SetStatus { contract_address, bond_status } => {
            assert_eq!(contract_address, "QQQ");
            assert_eq!(bond_status, BondStatus::Graduated);
        }
        other => panic!("unexpected action {:?}", other),
    }
    assert_eq!(processor.bonding_state_map.len(), 0);
}

#[test]
fn a_processor_starts_from_the_persisted_state() {
    let store = BondingStateStore::from_rows(vec![BondingCurveAndMcInfo {
        contract_address: "OLD".to_string(),
        bonding_curve_address: "OLD-curve".to_string(),
        bonding_curve_percentage: 33,
        market_cap: None,
    }]);
    let mut processor = PumpfunInstructionProcessor::new(store, PriceOracleCache::new());
    assert_eq!(processor.sol_price.read(), 0);
    let action = processor.process(trade("OLD", "T1", true, 2, 3, 85_000_000_000, 676_450_000_000_000));
    assert!(matches!(action, Action::PublishTrade(_)));
    let entry = processor.bonding_state_map.get("OLD").unwrap();
    assert_eq!(entry.bonding_curve_percentage, 50);
    // No quote was seen yet: the price is zero, and so is the market capitalisation.
    assert_eq!(entry.market_cap, Some(0));
}

#[test]
fn track_puts_the_entry_of_a_creation_in() {
    let mut processor = processor_at(5);
    let event = CreateEvent {
        name: "n".to_string(),
        symbol: "s".to_string(),
        uri: "u".to_string(),
        mint: "MMM".to_string(),
        bonding_curve: "MMM-curve".to_string(),
        creator: "C".to_string(),
    };
    processor.track(&event);
    let entry = processor.bonding_state_map.get("MMM").unwrap();
    assert_eq!(entry.bonding_curve_address, "MMM-curve");
    assert_eq!(entry.bonding_curve_percentage, 0);
    assert_eq!(entry.market_cap, Some(0));
}

#[test]
fn a_trade_record_is_derived_from_its_event() {
    let event = TradeEvent {
        mint: "AAA".to_string(),
        sol_amount: u64::MAX,
        token_amount: 0,
        is_buy: false,
        user: "T9".to_string(),
        virtual_sol_reserves: 1,
        virtual_token_reserves: 2,
    };
    let info = TradeInfo::from_event(&event);
    assert_eq!(info.sol_amount, u64::MAX);
    assert_eq!(info.token_amount, 0);
    assert!(!info.is_buy);
    assert_eq!(info.user, "T9");
    assert_eq!(info.mint, "AAA");
}

#[test]
fn a_copy_of_an_event_is_processed_like_the_event() {
    let mut first = processor_at(20_000_000);
    let mut second = processor_at(20_000_000);
    let events = vec![
        creation("AAA", "C1"),
        trade("AAA", "T1", true, 1, 2, 85_000_000_000, 676_450_000_000_000),
        EventEnvelope::Complete(CompleteEvent { mint: "AAA".to_string() }),
    ];
    for event in events {
        let copy = event.clone();
        first.process(event);
        second.process(copy);
    }
    let left = first.bonding_state_map.get("AAA").unwrap();
    let right = second.bonding_state_map.get("AAA").unwrap();
    assert_eq!(left.bonding_curve_percentage, right.bonding_curve_percentage);
    assert_eq!(left.market_cap, right.market_cap);
    assert_eq!(left.bonding_curve_address, right.bonding_curve_address);
}

#[test]
fn a_trade_stores_the_market_capitalisation_of_the_reserves_as_they_are() {
    let mut processor = processor_at(20_000_000);
    processor.process(creation("AAA", "C1"));
    // 30.5 SOL against 1_073_000_000 tokens at $20: 568.49...
    processor.process(trade("AAA", "T1", true, 1, 1, 30_500_000_000, 1_073_000_000_000_000));
    let entry = processor.bonding_state_map.get("AAA").unwrap();
    assert_eq!(entry.market_cap, Some(568));
    assert_eq!(entry.bonding_curve_percentage, 0);
    // 85.005359056 SOL against 676_449_999.5 tokens: 2513.278...
    processor.process(trade("AAA", "T1", true, 1, 1, 85_005_359_056, 676_449_999_500_000));
    let entry = processor.bonding_state_map.get("AAA").unwrap();
    assert_eq!(entry.market_cap, Some(2_513));
    assert_eq!(entry.bonding_curve_percentage, 50);
    // Less than one SOL in the reserve: 0.999999999 / 1_073_000_000 * 20 * 10^9 = 18.63...
    processor.process(trade("AAA", "T1", true, 1, 1, 999_999_999, 1_073_000_000_000_000));
    assert_eq!(processor.bonding_state_map.get("AAA").unwrap().market_cap, Some(18));
}
