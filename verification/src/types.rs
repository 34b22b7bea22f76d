//! Records shared by the event processor, the persistence pipeline and the
//! analytics reconstruction, each with the mathematical value (its view) that
//! the contracts of this crate speak of.
//!
//! Identifiers are 128-bit numbers and timestamps are microseconds since the
//! Unix epoch, so that every record is made of plain values.

use vstd::prelude::*;

verus! {

/// Lifecycle of an asset. `Graduated` is terminal.
#[derive(Debug, Clone, Copy, PartialEq, Eq, Structural)]
pub enum BondStatus {
    NewlyLaunched,
    Graduating,
    Graduated,
}

/// In-memory bonding state of one asset, keyed by its contract address.
#[derive(Debug)]
pub struct BondingCurveAndMcInfo {
    pub contract_address: String,
    pub bonding_curve_address: String,
    pub bonding_curve_percentage: i32,
    pub market_cap: Option<i64>,
}

/// Mathematical value of a [`BondingCurveAndMcInfo`].
pub struct BondingCurveAndMcInfoView {
    pub contract_address: Seq<char>,
    pub bonding_curve_address: Seq<char>,
    pub bonding_curve_percentage: i32,
    pub market_cap: Option<i64>,
}

impl View for BondingCurveAndMcInfo {
    type V = BondingCurveAndMcInfoView;

    open spec fn view(&self) -> BondingCurveAndMcInfoView {
        BondingCurveAndMcInfoView {
            contract_address: self.contract_address@,
            bonding_curve_address: self.bonding_curve_address@,
            bonding_curve_percentage: self.bonding_curve_percentage,
            market_cap: self.market_cap,
        }
    }
}

impl DeepView for BondingCurveAndMcInfo {
    type V = BondingCurveAndMcInfoView;

    open spec fn deep_view(&self) -> BondingCurveAndMcInfoView {
        self@
    }
}

impl Clone for BondingCurveAndMcInfo {
    fn clone(&self) -> (copy: Self)
        ensures
            copy == *self,
    {
        BondingCurveAndMcInfo {
            contract_address: self.contract_address.clone(),
            bonding_curve_address: self.bonding_curve_address.clone(),
            bonding_curve_percentage: self.bonding_curve_percentage,
            market_cap: self.market_cap,
        }
    }
}

/// A trade as it travels from the event processor to the trade buffer.
#[derive(Debug)]
pub struct TradeInfo {
    pub sol_amount: u64,
    pub token_amount: u64,
    pub is_buy: bool,
    pub user: String,
    pub mint: String,
}

/// Mathematical value of a [`TradeInfo`].
pub struct TradeInfoView {
    pub sol_amount: u64,
    pub token_amount: u64,
    pub is_buy: bool,
    pub user: Seq<char>,
    pub mint: Seq<char>,
}

impl View for TradeInfo {
    type V = TradeInfoView;

    open spec fn view(&self) -> TradeInfoView {
        TradeInfoView {
            sol_amount: self.sol_amount,
            token_amount: self.token_amount,
            is_buy: self.is_buy,
            user: self.user@,
            mint: self.mint@,
        }
    }
}

impl DeepView for TradeInfo {
    type V = TradeInfoView;

    open spec fn deep_view(&self) -> TradeInfoView {
        self@
    }
}

impl Clone for TradeInfo {
    fn clone(&self) -> (copy: Self)
        ensures
            copy == *self,
    {
        TradeInfo {
            sol_amount: self.sol_amount,
            token_amount: self.token_amount,
            is_buy: self.is_buy,
            user: self.user.clone(),
            mint: self.mint.clone(),
        }
    }
}

/// A persisted trade: one row of the trade ledger.
#[derive(Debug)]
pub struct Trade {
    pub id: u128,
    pub sol_amount: i64,
    pub token_amount: i64,
    pub is_buy: bool,
    pub user_address: String,
    pub token_id: u128,
}

/// Mathematical value of a [`Trade`].
pub struct TradeView {
    pub id: u128,
    pub sol_amount: i64,
    pub token_amount: i64,
    pub is_buy: bool,
    pub user_address: Seq<char>,
    pub token_id: u128,
}

impl View for Trade {
    type V = TradeView;

    open spec fn view(&self) -> TradeView {
        TradeView {
            id: self.id,
            sol_amount: self.sol_amount,
            token_amount: self.token_amount,
            is_buy: self.is_buy,
            user_address: self.user_address@,
            token_id: self.token_id,
        }
    }
}

impl DeepView for Trade {
    type V = TradeView;

    open spec fn deep_view(&self) -> TradeView {
        self@
    }
}

impl Clone for Trade {
    fn clone(&self) -> (copy: Self)
        ensures
            copy == *self,
    {
        Trade {
            id: self.id,
            sol_amount: self.sol_amount,
            token_amount: self.token_amount,
            is_buy: self.is_buy,
            user_address: self.user_address.clone(),
            token_id: self.token_id,
        }
    }
}

/// A persisted asset: one row of the asset table.
#[derive(Debug)]
pub struct Token {
    pub id: u128,
    pub created_at: i64,
    pub updated_at: i64,
    pub name: String,
    pub ticker: String,
    pub contract_address: String,
    pub bonding_curve_percentage: i32,
    pub bond_status: BondStatus,
    pub market_cap: Option<i64>,
    pub uri: String,
    pub bonding_curve_address: String,
    pub creator_address: String,
}

/// Mathematical value of a [`Token`].
pub struct TokenView {
    pub id: u128,
    pub created_at: i64,
    pub updated_at: i64,
    pub name: Seq<char>,
    pub ticker: Seq<char>,
    pub contract_address: Seq<char>,
    pub bonding_curve_percentage: i32,
    pub bond_status: BondStatus,
    pub market_cap: Option<i64>,
    pub uri: Seq<char>,
    pub bonding_curve_address: Seq<char>,
    pub creator_address: Seq<char>,
}

impl View for Token {
    type V = TokenView;

    open spec fn view(&self) -> TokenView {
        TokenView {
            id: self.id,
            created_at: self.created_at,
            updated_at: self.updated_at,
            name: self.name@,
            ticker: self.ticker@,
            contract_address: self.contract_address@,
            bonding_curve_percentage: self.bonding_curve_percentage,
            bond_status: self.bond_status,
            market_cap: self.market_cap,
            uri: self.uri@,
            bonding_curve_address: self.bonding_curve_address@,
            creator_address: self.creator_address@,
        }
    }
}

impl DeepView for Token {
    type V = TokenView;

    open spec fn deep_view(&self) -> TokenView {
        self@
    }
}

impl Clone for Token {
    fn clone(&self) -> (copy: Self)
        ensures
            copy == *self,
    {
        Token {
            id: self.id,
            created_at: self.created_at,
            updated_at: self.updated_at,
            name: self.name.clone(),
            ticker: self.ticker.clone(),
            contract_address: self.contract_address.clone(),
            bonding_curve_percentage: self.bonding_curve_percentage,
            bond_status: self.bond_status,
            market_cap: self.market_cap,
            uri: self.uri.clone(),
            bonding_curve_address: self.bonding_curve_address.clone(),
            creator_address: self.creator_address.clone(),
        }
    }
}

/// Net position of one trader in one asset, in base units of the token.
#[derive(Debug)]
pub struct Holding {
    pub token_id: u128,
    pub user: String,
    pub net_tokens: i128,
}

/// Mathematical value of a [`Holding`].
pub struct HoldingView {
    pub token_id: u128,
    pub user: Seq<char>,
    pub net_tokens: int,
}

impl View for Holding {
    type V = HoldingView;

    open spec fn view(&self) -> HoldingView {
        HoldingView {
            token_id: self.token_id,
            user: self.user@,
            net_tokens: self.net_tokens as int,
        }
    }
}

impl DeepView for Holding {
    type V = HoldingView;

    open spec fn deep_view(&self) -> HoldingView {
        self@
    }
}

impl Clone for Holding {
    fn clone(&self) -> (copy: Self)
        ensures
            copy == *self,
    {
        Holding { token_id: self.token_id, user: self.user.clone(), net_tokens: self.net_tokens }
    }
}

/// The read model of one asset.
///
/// `volume` is in lamports. `funds_percent_by_top_10` and `creator_percent`
/// are shares of the total supply in base units of the token: divided by
/// [`crate::helpers::BASE_UNITS_PER_PERCENT`] they are percentages.
#[derive(Debug)]
pub struct TokenDetails {
    pub id: String,
    pub created_at: i64,
    pub updated_at: i64,
    pub name: String,
    pub ticker: String,
    pub contract_address: String,
    pub bonding_curve_percentage: i32,
    pub bond_status: BondStatus,
    pub volume: Option<i128>,
    pub market_cap: Option<i64>,
    pub uri: String,
    pub bonding_curve_address: String,
    pub creator_address: String,
    pub funds_percent_by_top_10: i128,
    pub holder_count: usize,
    pub creator_percent: i128,
}

/// Mathematical value of a [`TokenDetails`].
pub struct TokenDetailsView {
    pub id: Seq<char>,
    pub created_at: i64,
    pub updated_at: i64,
    pub name: Seq<char>,
    pub ticker: Seq<char>,
    pub contract_address: Seq<char>,
    pub bonding_curve_percentage: i32,
    pub bond_status: BondStatus,
    pub volume: Option<int>,
    pub market_cap: Option<i64>,
    pub uri: Seq<char>,
    pub bonding_curve_address: Seq<char>,
    pub creator_address: Seq<char>,
    pub funds_percent_by_top_10: int,
    pub holder_count: nat,
    pub creator_percent: int,
}

impl View for TokenDetails {
    type V = TokenDetailsView;

    open spec fn view(&self) -> TokenDetailsView {
        TokenDetailsView {
            id: self.id@,
            created_at: self.created_at,
            updated_at: self.updated_at,
            name: self.name@,
            ticker: self.ticker@,
            contract_address: self.contract_address@,
            bonding_curve_percentage: self.bonding_curve_percentage,
            bond_status: self.bond_status,
            volume: match self.volume {
                Some(v) => Some(v as int),
                None => None,
            },
            market_cap: self.market_cap,
            uri: self.uri@,
            bonding_curve_address: self.bonding_curve_address@,
            creator_address: self.creator_address@,
            funds_percent_by_top_10: self.funds_percent_by_top_10 as int,
            holder_count: self.holder_count as nat,
            creator_percent: self.creator_percent as int,
        }
    }
}

impl DeepView for TokenDetails {
    type V = TokenDetailsView;

    open spec fn deep_view(&self) -> TokenDetailsView {
        self@
    }
}

impl Clone for TokenDetails {
    fn clone(&self) -> (copy: Self)
        ensures
            copy == *self,
    {
        TokenDetails {
            id: self.id.clone(),
            created_at: self.created_at,
            updated_at: self.updated_at,
            name: self.name.clone(),
            ticker: self.ticker.clone(),
            contract_address: self.contract_address.clone(),
            bonding_curve_percentage: self.bonding_curve_percentage,
            bond_status: self.bond_status,
            volume: self.volume,
            market_cap: self.market_cap,
            uri: self.uri.clone(),
            bonding_curve_address: self.bonding_curve_address.clone(),
            creator_address: self.creator_address.clone(),
            funds_percent_by_top_10: self.funds_percent_by_top_10,
            holder_count: self.holder_count,
            creator_percent: self.creator_percent,
        }
    }
}

/// Creation of an asset.
#[derive(Debug)]
pub struct CreateEvent {
    pub name: String,
    pub symbol: String,
    pub uri: String,
    pub mint: String,
    pub bonding_curve: String,
    pub creator: String,
}

/// Mathematical value of a [`CreateEvent`].
pub struct CreateEventView {
    pub name: Seq<char>,
    pub symbol: Seq<char>,
    pub uri: Seq<char>,
    pub mint: Seq<char>,
    pub bonding_curve: Seq<char>,
    pub creator: Seq<char>,
}

impl View for CreateEvent {
    type V = CreateEventView;

    open spec fn view(&self) -> CreateEventView {
        CreateEventView {
            name: self.name@,
            symbol: self.symbol@,
            uri: self.uri@,
            mint: self.mint@,
            bonding_curve: self.bonding_curve@,
            creator: self.creator@,
        }
    }
}

impl Clone for CreateEvent {
    fn clone(&self) -> (copy: Self)
        ensures
            copy == *self,
    {
        CreateEvent {
            name: self.name.clone(),
            symbol: self.symbol.clone(),
            uri: self.uri.clone(),
            mint: self.mint.clone(),
            bonding_curve: self.bonding_curve.clone(),
            creator: self.creator.clone(),
        }
    }
}

/// A purchase or sale on the curve of an asset, with the reserves that the
/// curve holds after it.
#[derive(Debug)]
pub struct TradeEvent {
    pub mint: String,
    pub sol_amount: u64,
    pub token_amount: u64,
    pub is_buy: bool,
    pub user: String,
    pub virtual_sol_reserves: u64,
    pub virtual_token_reserves: u64,
}

/// Mathematical value of a [`TradeEvent`].
pub struct TradeEventView {
    pub mint: Seq<char>,
    pub sol_amount: u64,
    pub token_amount: u64,
    pub is_buy: bool,
    pub user: Seq<char>,
    pub virtual_sol_reserves: u64,
    pub virtual_token_reserves: u64,
}

impl View for TradeEvent {
    type V = TradeEventView;

    open spec fn view(&self) -> TradeEventView {
        TradeEventView {
            mint: self.mint@,
            sol_amount: self.sol_amount,
            token_amount: self.token_amount,
            is_buy: self.is_buy,
            user: self.user@,
            virtual_sol_reserves: self.virtual_sol_reserves,
            virtual_token_reserves: self.virtual_token_reserves,
        }
    }
}

impl Clone for TradeEvent {
    fn clone(&self) -> (copy: Self)
        ensures
            copy == *self,
    {
        TradeEvent {
            mint: self.mint.clone(),
            sol_amount: self.sol_amount,
            token_amount: self.token_amount,
            is_buy: self.is_buy,
            user: self.user.clone(),
            virtual_sol_reserves: self.virtual_sol_reserves,
            virtual_token_reserves: self.virtual_token_reserves,
        }
    }
}

/// Completion of the curve of an asset: its graduation.
#[derive(Debug)]
pub struct CompleteEvent {
    pub mint: String,
}

/// Mathematical value of a [`CompleteEvent`].
pub struct CompleteEventView {
    pub mint: Seq<char>,
}

impl View for CompleteEvent {
    type V = CompleteEventView;

    open spec fn view(&self) -> CompleteEventView {
        CompleteEventView { mint: self.mint@ }
    }
}

impl Clone for CompleteEvent {
    fn clone(&self) -> (copy: Self)
        ensures
            copy == *self,
    {
        CompleteEvent { mint: self.mint.clone() }
    }
}

/// A decoded on-chain event, the unit that the event processor consumes.
#[derive(Debug)]
pub enum EventEnvelope {
    Create(CreateEvent),
    Trade(TradeEvent),
    Complete(CompleteEvent),
}

/// Mathematical value of an [`EventEnvelope`].
pub enum EventEnvelopeView {
    Create(CreateEventView),
    Trade(TradeEventView),
    Complete(CompleteEventView),
}

impl View for EventEnvelope {
    type V = EventEnvelopeView;

    open spec fn view(&self) -> EventEnvelopeView {
        match self {
            EventEnvelope::Create(e) => EventEnvelopeView::Create(e@),
            EventEnvelope::Trade(e) => EventEnvelopeView::Trade(e@),
            EventEnvelope::Complete(e) => EventEnvelopeView::Complete(e@),
        }
    }
}

impl Clone for EventEnvelope {
    fn clone(&self) -> (copy: Self)
        ensures
            copy == *self,
    {
        match self {
            EventEnvelope::Create(e) => EventEnvelope::Create(e.clone()),
            EventEnvelope::Trade(e) => EventEnvelope::Trade(e.clone()),
            EventEnvelope::Complete(e) => EventEnvelope::Complete(e.clone()),
        }
    }
}

} // verus!
