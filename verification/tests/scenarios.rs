use indexer::price::PriceOracleCache;
use indexer::processor::{Action, PumpfunInstructionProcessor};
use indexer::query::fetch_token_data;
use indexer::state::BondingStateStore;
use indexer::token::update_bonding_curve_and_market_cap;
use indexer::trade::{flush_trades, join_batch, TradeBuffer};
use indexer::types::{BondStatus, CompleteEvent, CreateEvent, EventEnvelope, Token, Trade, TradeEvent};

fn creation(mint: &str, creator: &str) -> EventEnvelope {
    EventEnvelope::Create(CreateEvent {
        name: format!("{} coin", mint),
        symbol: mint.to_lowercase(),
        uri: format!("https://example.org/{}.json", mint),
        mint: mint.to_string(),
        bonding_curve: format!("{}-curve", mint),
        creator: creator.to_string(),
    })
}

fn purchase(mint: &str, user: &str, sol: u64, tokens: u64, virtual_sol: u64, virtual_tokens: u64) -> EventEnvelope {
    EventEnvelope::Trade(TradeEvent {
        mint: mint.to_string(),
        sol_amount: sol,
        token_amount: tokens,
        is_buy: true,
        user: user.to_string(),
        virtual_sol_reserves: virtual_sol,
        virtual_token_reserves: virtual_tokens,
    })
}

/// Carries out what the processor leaves to do, against a table and a buffer held in memory.
fn carry_out(action: Action, tokens: &mut Vec<Token>, buffer: &mut TradeBuffer) {
    match action {
        Action::InsertToken(token) => tokens.push(token),
        Action::PublishTrade(trade) => {
            buffer.enqueue(trade);
        }
        Action::SetStatus { contract_address, bond_status } => {
            for token in tokens.iter_mut() {
                if token.contract_address == contract_address {
                    token.bond_status = bond_status;
                }
            }
        }
        Action::Ignore => {}
    }
}

/// Writes the bonding state of the store back to the table held in memory.
fn write_back(store: &BondingStateStore, tokens: &mut Vec<Token>) {
    if let Some(update) = update_bonding_curve_and_market_cap(store) {
        for row in &update.rows {
            for token in tokens.iter_mut() {
                if token.contract_address == row.contract_address {
                    token.market_cap = row.market_cap;
                    token.bonding_curve_percentage = row.bonding_curve_percentage;
                }
            }
        }
    }
}

#[test]
fn one_asset_from_creation_to_read_model() {
    let mut cache = PriceOracleCache::new();
    cache.refresh(Some(20_000_000));
    let mut processor = PumpfunInstructionProcessor::new(BondingStateStore::new(), cache);
    let mut tokens: Vec<Token> = Vec::new();
    let mut ledger: Vec<Trade> = Vec::new();
    let mut buffer = TradeBuffer::new();

    let action = processor.process(creation("AAA", "C1"));
    carry_out(action, &mut tokens, &mut buffer);
    let entry = processor.bonding_state_map.get("AAA").unwrap();
    assert_eq!(entry.bonding_curve_percentage, 0);
    assert_eq!(entry.market_cap, Some(0));
    assert_eq!(tokens.len(), 1);
    assert_eq!(buffer.len(), 0);

    // C1 buys 500_000_000 base units for one SOL; the curve then holds 31 SOL against
    // 1_072_999_500 tokens.
    let action = processor.process(purchase(
        "AAA",
        "C1",
        1_000_000_000,
        500_000_000,
        31_000_000_000,
        1_072_999_500_000_000,
    ));
    carry_out(action, &mut tokens, &mut buffer);
    let entry = processor.bonding_state_map.get("AAA").unwrap();
    // 500_000_000 of 793_100_000_000_000 base units sold: less than one percent.
    assert_eq!(entry.bonding_curve_percentage, 0);
    // 31 / 1_072_999_500 * 20 * 10^9 = 577.819...
    assert_eq!(entry.market_cap, Some(577));
    assert_eq!(buffer.len(), 1);

    let batch = flush_trades(&mut buffer).unwrap();
    assert_eq!(buffer.len(), 0);
    assert_eq!(batch.len(), 1);
    ledger.extend(join_batch(&batch, &tokens));
    assert_eq!(ledger.len(), 1);
    assert_eq!(ledger[0].token_id, tokens[0].id);
    assert_eq!(ledger[0].id, batch.ids[0]);
    assert_eq!(ledger[0].sol_amount, 1_000_000_000);
    assert_eq!(ledger[0].token_amount, 500_000_000);
    assert!(ledger[0].is_buy);
    assert_eq!(ledger[0].user_address, "C1");
    write_back(&processor.bonding_state_map, &mut tokens);

    let details = fetch_token_data(&tokens, &ledger);
    assert_eq!(details.len(), 1);
    assert_eq!(details[0].contract_address, "AAA");
    assert_eq!(details[0].holder_count, 1);
    assert_eq!(details[0].creator_percent, 500_000_000);
    assert_eq!(details[0].funds_percent_by_top_10, 500_000_000);
    assert_eq!(details[0].volume, Some(1_000_000_000));
    assert_eq!(details[0].market_cap, Some(577));
    assert_eq!(details[0].bonding_curve_percentage, 0);
    assert_eq!(details[0].bond_status, BondStatus::NewlyLaunched);
    assert_eq!(details[0].creator_address, "C1");

    // A second flush finds nothing to write.
    assert!(flush_trades(&mut buffer).is_none());
}

#[test]
fn a_trader_who_is_not_the_creator_leaves_the_creator_with_nothing() {
    let mut cache = PriceOracleCache::new();
    cache.refresh(Some(20_000_000));
    let mut processor = PumpfunInstructionProcessor::new(BondingStateStore::new(), cache);
    let mut tokens: Vec<Token> = Vec::new();
    let mut buffer = TradeBuffer::new();
    carry_out(processor.process(creation("AAA", "C1")), &mut tokens, &mut buffer);
    carry_out(
        processor.process(purchase("AAA", "T1", 1_000_000_000, 500_000_000, 31_000_000_000, 1_072_999_500_000_000)),
        &mut tokens,
        &mut buffer,
    );
    let batch = flush_trades(&mut buffer).unwrap();
    let ledger = join_batch(&batch, &tokens);
    let details = fetch_token_data(&tokens, &ledger);
    assert_eq!(details[0].holder_count, 1);
    assert_eq!(details[0].creator_percent, 0);
    assert_eq!(details[0].funds_percent_by_top_10, 500_000_000);
}

#[test]
fn of_eleven_holders_the_smallest_is_left_out_of_the_top_ten() {
    let mut cache = PriceOracleCache::new();
    cache.refresh(Some(20_000_000));
    let mut processor = PumpfunInstructionProcessor::new(BondingStateStore::new(), cache);
    let mut tokens: Vec<Token> = Vec::new();
    let mut buffer = TradeBuffer::new();
    carry_out(processor.process(creation("BBB", "C1")), &mut tokens, &mut buffer);
    // Eleven traders buy 5, 11, 2, 8, 1, 9, 4, 10, 3, 7 and 6 million base units.
    let amounts: [u64; 11] = [5, 11, 2, 8, 1, 9, 4, 10, 3, 7, 6];
    for (n, amount) in amounts.iter().enumerate() {
        let action = processor.process(purchase(
            "BBB",
            &format!("trader-{}", n),
            1_000,
            amount * 1_000_000,
            30_000_000_000,
            1_073_000_000_000_000,
        ));
        carry_out(action, &mut tokens, &mut buffer);
    }
    assert_eq!(buffer.len(), 11);
    let batch = flush_trades(&mut buffer).unwrap();
    let ledger = join_batch(&batch, &tokens);
    assert_eq!(ledger.len(), 11);
    let details = fetch_token_data(&tokens, &ledger);
    assert_eq!(details[0].holder_count, 11);
    // All eleven hold 66 million; without the smallest, who holds one million, 65.
    assert_eq!(details[0].funds_percent_by_top_10, 65_000_000);
    assert_eq!(details[0].volume, Some(11_000));
}

#[test]
fn the_top_ten_are_the_ten_largest_whatever_their_order() {
    let token = Token {
        id: 7,
        created_at: 0,
        updated_at: 0,
        name: "n".to_string(),
        ticker: "t".to_string(),
        contract_address: "BBB".to_string(),
        bonding_curve_percentage: 0,
        bond_status: BondStatus::NewlyLaunched,
        market_cap: None,
        uri: "u".to_string(),
        bonding_curve_address: "b".to_string(),
        creator_address: "trader-3".to_string(),
    };
    let balances: [i64; 14] = [300, -50, 700, 100, 100, 900, 0, 250, 800, 100, 600, 50, 400, 500];
    for rotation in 0..balances.len() {
        let mut ledger = Vec::new();
        for n in 0..balances.len() {
            let at = (n + rotation) % balances.len();
            let balance = balances[at];
            ledger.push(Trade {
                id: at as u128,
                sol_amount: 1,
                token_amount: balance.abs(),
                is_buy: balance >= 0,
                user_address: format!("trader-{}", at),
                token_id: 7,
            });
        }
        let details = fetch_token_data(&vec![token.clone()], &ledger);
        // The ten largest: 900, 800, 700, 600, 500, 400, 300, 250, 100 and 100.
        assert_eq!(details[0].funds_percent_by_top_10, 4_650);
        assert_eq!(details[0].holder_count, 12);
        assert_eq!(details[0].creator_percent, 100);
        assert_eq!(details[0].volume, Some(14));
    }
}

#[test]
fn ten_or_fewer_holders_all_count() {
    let token = Token {
        id: 7,
        created_at: 0,
        updated_at: 0,
        name: "n".to_string(),
        ticker: "t".to_string(),
        contract_address: "BBB".to_string(),
        bonding_curve_percentage: 0,
        bond_status: BondStatus::NewlyLaunched,
        market_cap: None,
        uri: "u".to_string(),
        bonding_curve_address: "b".to_string(),
        creator_address: "nobody".to_string(),
    };
    let mut ledger = Vec::new();
    let mut total: i128 = 0;
    for n in 0..10i64 {
        ledger.push(Trade {
            id: n as u128,
            sol_amount: 1,
            token_amount: (n + 1) * 10,
            is_buy: true,
            user_address: format!("trader-{}", n),
            token_id: 7,
        });
        total += ((n + 1) * 10) as i128;
        let details = fetch_token_data(&vec![token.clone()], &ledger);
        assert_eq!(details[0].funds_percent_by_top_10, total);
        assert_eq!(details[0].holder_count, (n + 1) as usize);
    }
}

#[test]
fn a_completed_asset_stays_graduated_through_later_trades() {
    let mut cache = PriceOracleCache::new();
    cache.refresh(Some(20_000_000));
    let mut processor = PumpfunInstructionProcessor::new(BondingStateStore::new(), cache);
    let mut tokens: Vec<Token> = Vec::new();
    let mut ledger: Vec<Trade> = Vec::new();
    let mut buffer = TradeBuffer::new();
    carry_out(processor.process(creation("AAA", "C1")), &mut tokens, &mut buffer);
    carry_out(
        processor.process(purchase("AAA", "T1", 1_000, 2_000, 115_000_000_000, 279_900_000_000_000)),
        &mut tokens,
        &mut buffer,
    );
    carry_out(
        processor.process(EventEnvelope::Complete(CompleteEvent { mint: "AAA".to_string() })),
        &mut tokens,
        &mut buffer,
    );
    assert_eq!(tokens[0].bond_status, BondStatus::Graduated);
    // A later trade brings the market capitalisation down to that of a new launch.
    carry_out(
        processor.process(purchase("AAA", "T2", 1_000, 2_000, 30_000_000_000, 1_073_000_000_000_000)),
        &mut tokens,
        &mut buffer,
    );
    assert_eq!(processor.bonding_state_map.get("AAA").unwrap().market_cap, Some(559));
    ledger.extend(join_batch(&flush_trades(&mut buffer).unwrap(), &tokens));
    write_back(&processor.bonding_state_map, &mut tokens);
    assert_eq!(tokens[0].market_cap, Some(559));
    let details = fetch_token_data(&tokens, &ledger);
    assert_eq!(details[0].bond_status, BondStatus::Graduated);
    assert_eq!(details[0].market_cap, Some(559));
    assert_eq!(details[0].holder_count, 2);
}

#[test]
fn every_buffered_trade_is_of_an_asset_that_the_store_knows() {
    let mut cache = PriceOracleCache::new();
    cache.refresh(Some(20_000_000));
    let mut processor = PumpfunInstructionProcessor::new(BondingStateStore::new(), cache);
    let mut tokens: Vec<Token> = Vec::new();
    let mut buffer = TradeBuffer::new();
    let mints = ["AAA", "BBB", "CCC", "DDD"];
    for round in 0..40usize {
        let mint = mints[(round * 7) % 4];
        let event = if round % 5 == 0 {
            creation(mints[(round / 5) % 3], "C1")
        } else if round % 11 == 0 {
            EventEnvelope::Complete(CompleteEvent { mint: mint.to_string() })
        } else {
            purchase(mint, "T1", 1, 1, 30_000_000_000, 1_000_000_000_000_000)
        };
        carry_out(processor.process(event), &mut tokens, &mut buffer);
    }
    let waiting = buffer.drain();
    assert!(!waiting.is_empty());
    for trade in &waiting {
        assert!(processor.bonding_state_map.contains_key(&trade.mint));
        assert_ne!(trade.mint, "DDD");
    }
}
