//! The event processor: the state machine that turns creation, trade and
//! completion events into changes of the bonding state store and into the
//! one thing that is left to do outside for each event.

use vstd::prelude::*;
use crate::helpers::{
    bonding_curve_progress, get_bonding_curve_progress, get_market_cap, market_cap, TOKEN_DECIMALS,
    TOTAL_SUPPLY,
};
use crate::ids::is_random_id;
use crate::price::PriceOracleCache;
use crate::state::{adjusted, distinct_keys, has_key, upserted, with_figures, BondingStateStore};
use crate::token::{create_token, new_token};
use crate::types::{
    BondStatus, BondingCurveAndMcInfo, BondingCurveAndMcInfoView, CreateEvent, CreateEventView,
    EventEnvelope, EventEnvelopeView, Token, TokenView, TradeEvent, TradeEventView, TradeInfo,
    TradeInfoView,
};

verus! {

/// What is left to do outside after an event was processed.
#[derive(Debug)]
pub enum Action {
    /// Persist the row of a newly created asset, at once.
    InsertToken(Token),
    /// Hand a trade to the trade buffer, without waiting for it.
    PublishTrade(TradeInfo),
    /// Persist the new status of an asset, at once.
    SetStatus { contract_address: String, bond_status: BondStatus },
    /// Nothing: the event was dropped.
    Ignore,
}

/// Mathematical value of an [`Action`].
pub enum ActionView {
    InsertToken(TokenView),
    PublishTrade(TradeInfoView),
    SetStatus { contract_address: Seq<char>, bond_status: BondStatus },
    Ignore,
}

impl View for Action {
    type V = ActionView;

    open spec fn view(&self) -> ActionView {
        match self {
            Action::InsertToken(token) => ActionView::InsertToken(token@),
            Action::PublishTrade(trade) => ActionView::PublishTrade(trade@),
            Action::SetStatus { contract_address, bond_status } => ActionView::SetStatus {
                contract_address: contract_address@,
                bond_status: *bond_status,
            },
            Action::Ignore => ActionView::Ignore,
        }
    }
}

/// The entry with which a newly created asset enters the store: no progress
/// on its curve, a market capitalisation of zero.
pub open spec fn entry_for(event: CreateEventView) -> BondingCurveAndMcInfoView {
    BondingCurveAndMcInfoView {
        contract_address: event.mint,
        bonding_curve_address: event.bonding_curve,
        bonding_curve_percentage: 0,
        market_cap: Some(0i64),
    }
}

/// The trade record that a trade event gives.
pub open spec fn trade_info_of(event: TradeEventView) -> TradeInfoView {
    TradeInfoView {
        sol_amount: event.sol_amount,
        token_amount: event.token_amount,
        is_buy: event.is_buy,
        user: event.user,
        mint: event.mint,
    }
}

/// The percentage of an asset after a trade.
pub open spec fn percentage_after(event: TradeEventView) -> i32 {
    bonding_curve_progress(event.virtual_token_reserves as int) as i32
}

/// The market capitalisation of an asset after a trade, at the price
/// `price` of one SOL in millionths of a dollar.
pub open spec fn market_cap_after(event: TradeEventView, price: u64) -> i64 {
    market_cap(
        event.virtual_sol_reserves as int,
        event.virtual_token_reserves as int,
        TOKEN_DECIMALS as nat,
        TOTAL_SUPPLY as int,
        price as int,
    ) as i64
}

/// The entries of the store after an event, from those before it and the
/// cached price: a creation puts the entry of the new asset in, a trade of
/// a known asset replaces its figures, anything else changes nothing.
pub open spec fn rows_after(
    rows: Seq<BondingCurveAndMcInfoView>,
    event: EventEnvelopeView,
    price: u64,
) -> Seq<BondingCurveAndMcInfoView> {
    match event {
        EventEnvelopeView::Create(created) => upserted(rows, entry_for(created)),
        EventEnvelopeView::Trade(trade) => adjusted(
            rows,
            trade.mint,
            percentage_after(trade),
            Some(market_cap_after(trade, price)),
        ),
        EventEnvelopeView::Complete(_) => rows,
    }
}

/// Whether `action` is what an event leaves to do, given the entries of the
/// store before it. The row of a created asset carries an identifier and a
/// time of its own; everything else about the action is fixed.
pub open spec fn answers(
    action: ActionView,
    rows: Seq<BondingCurveAndMcInfoView>,
    event: EventEnvelopeView,
) -> bool {
    match event {
        EventEnvelopeView::Create(created) => {
            &&& action matches ActionView::InsertToken(token)
            &&& token == new_token(token.id, token.created_at, created)
            &&& is_random_id(token.id)
            &&& token.created_at >= 0
        },
        EventEnvelopeView::Trade(trade) => if has_key(rows, trade.mint) {
            action == ActionView::PublishTrade(trade_info_of(trade))
        } else {
            action == ActionView::Ignore
        },
        EventEnvelopeView::Complete(completed) => action == ActionView::SetStatus {
            contract_address: completed.mint,
            bond_status: BondStatus::Graduated,
        },
    }
}

impl TradeInfo {
    /// Derives the trade record from a trade event.
    pub fn from_event(event: &TradeEvent) -> (trade: TradeInfo)
        ensures
            trade@ == trade_info_of(event@),
    {
        TradeInfo {
            sol_amount: event.sol_amount,
            token_amount: event.token_amount,
            is_buy: event.is_buy,
            user: event.user.clone(),
            mint: event.mint.clone(),
        }
    }
}

/// The event processor with the state that it works on.
pub struct PumpfunInstructionProcessor {
    pub bonding_state_map: BondingStateStore,
    pub sol_price: PriceOracleCache,
}

impl PumpfunInstructionProcessor {
    /// Makes a processor over a store and a price cache.
    pub fn new(bonding_state_map: BondingStateStore, sol_price: PriceOracleCache) -> (processor:
        Self)
        ensures
            processor.bonding_state_map == bonding_state_map,
            processor.sol_price == sol_price,
    {
        PumpfunInstructionProcessor { bonding_state_map, sol_price }
    }

    /// Puts the entry of a newly created asset into the store.
    pub fn track(&mut self, event: &CreateEvent)
        ensures
            final(self).bonding_state_map.rows() == upserted(
                old(self).bonding_state_map.rows(),
                entry_for(event@),
            ),
            final(self).bonding_state_map@ == old(self).bonding_state_map@.insert(
                event@.mint,
                entry_for(event@),
            ),
            distinct_keys(final(self).bonding_state_map.rows()),
            final(self).sol_price == old(self).sol_price,
    {
        let entry = BondingCurveAndMcInfo {
            contract_address: event.mint.clone(),
            bonding_curve_address: event.bonding_curve.clone(),
            bonding_curve_percentage: 0,
            market_cap: Some(0),
        };
        self.bonding_state_map.upsert(entry);
    }

    /// Processes one event. Never fails: an event that cannot be applied is
    /// dropped.
    ///
    /// A creation puts the new asset into the store with no progress and a
    /// market capitalisation of zero, and asks for its row to be persisted.
    /// A trade of a known asset replaces the percentage and the market
    /// capitalisation of the asset by those that its reserves and the cached
    /// price give, and hands the trade on; a trade of an unknown asset is
    /// dropped and changes nothing. A completion asks for the asset to be
    /// marked graduated, whatever its state.
    pub fn process(&mut self, data: EventEnvelope) -> (action: Action)
        ensures
            answers(action@, old(self).bonding_state_map.rows(), data@),
            final(self).bonding_state_map.rows() == rows_after(
                old(self).bonding_state_map.rows(),
                data@,
                old(self).sol_price@,
            ),
            final(self).sol_price == old(self).sol_price,
            forall|key: Seq<char>|
                old(self).bonding_state_map@.contains_key(key) ==> #[trigger] final(self)
                    .bonding_state_map@.contains_key(key),
            action@ matches ActionView::PublishTrade(trade) ==> final(self)
                .bonding_state_map@.contains_key(trade.mint),
            data@ matches EventEnvelopeView::Create(created) ==> {
                &&& final(self).bonding_state_map@.contains_key(created.mint)
                &&& final(self).bonding_state_map@[created.mint] == entry_for(created)
            },
            data@ matches EventEnvelopeView::Trade(trade) ==> {
                if old(self).bonding_state_map@.contains_key(trade.mint) {
                    final(self).bonding_state_map@ == old(self).bonding_state_map@.insert(
                        trade.mint,
                        with_figures(
                            old(self).bonding_state_map@[trade.mint],
                            percentage_after(trade),
                            Some(market_cap_after(trade, old(self).sol_price@)),
                        ),
                    )
                } else {
                    final(self).bonding_state_map@ == old(self).bonding_state_map@
                }
            },
            data@ is Complete ==> final(self).bonding_state_map@ == old(self).bonding_state_map@,
    {
        match data {
            EventEnvelope::Create(created) => {
                let token = create_token(&created);
                self.track(&created);
                Action::InsertToken(token)
            },
            EventEnvelope::Trade(trade) => {
                if !self.bonding_state_map.contains_key(trade.mint.as_str()) {
                    return Action::Ignore;
                }
                let progress: i128 = get_bonding_curve_progress(
                    trade.virtual_token_reserves as i128,
                );
                let market_cap: i64 = get_market_cap(
                    trade.virtual_sol_reserves,
                    trade.virtual_token_reserves,
                    TOKEN_DECIMALS,
                    TOTAL_SUPPLY,
                    self.sol_price.read(),
                );
                self.bonding_state_map.update(
                    trade.mint.as_str(),
                    progress as i32,
                    Some(market_cap),
                );
                Action::PublishTrade(TradeInfo::from_event(&trade))
            },
            EventEnvelope::Complete(completed) => Action::SetStatus {
                contract_address: completed.mint,
                bond_status: BondStatus::Graduated,
            },
        }
    }
}

} // verus!
