//! Reconstruction of the read model from the asset table and the trade
//! ledger: per-asset volume, holder concentration and lifecycle status.

use vstd::prelude::*;
use crate::ids::{id_text, uuid_text};
use crate::ledger::{
    abs_sum, amount_bound, balances_of, figures_match, find_holder, fold_ledger, has_trades,
    holdings_match, holdings_of, lemma_stranger_holds_nothing, lemma_traded_assets_have_trades,
    lemma_untraded_asset_is_empty, net_balance, net_values, traded_assets, traders_of,
    volume_of, volume_of_token,
};
use crate::ranking::{
    balances, count_holders, leading_total, positive_count, sort_descending, top_total,
    TOP_HOLDERS,
};
use crate::types::{
    BondStatus, Holding, HoldingView, Token, TokenDetails, TokenDetailsView, TokenView, Trade,
    TradeView,
};

verus! {

/// An asset below this market capitalisation is newly launched.
pub const GRADUATING_MARKET_CAP: i64 = 25_000;

/// An asset above this market capitalisation has graduated.
pub const GRADUATED_MARKET_CAP: i64 = 62_500;

/// Status of an asset as its persisted status and market capitalisation
/// give it: a graduated asset stays graduated, any other is placed by its
/// market capitalisation, an unknown one counting as zero.
pub open spec fn status_for(persisted: BondStatus, market_cap: Option<i64>) -> BondStatus {
    let cap: i64 = match market_cap {
        Some(cap) => cap,
        None => 0,
    };
    if persisted == BondStatus::Graduated {
        BondStatus::Graduated
    } else if cap < GRADUATING_MARKET_CAP {
        BondStatus::NewlyLaunched
    } else if cap <= GRADUATED_MARKET_CAP {
        BondStatus::Graduating
    } else {
        BondStatus::Graduated
    }
}

/// The read model of `token` as the ledger `trades` gives it.
///
/// The status of an asset that was never traded is its persisted status.
/// Its other derived figures are zero, as the definitions give them on a
/// ledger without a trade of the asset.
pub open spec fn analytics_of(token: TokenView, trades: Seq<TradeView>) -> TokenDetailsView {
    let balances = balances_of(trades, token.id);
    let top = top_total(balances, TOP_HOLDERS as nat);
    TokenDetailsView {
        id: uuid_text(token.id),
        created_at: token.created_at,
        updated_at: token.updated_at,
        name: token.name,
        ticker: token.ticker,
        contract_address: token.contract_address,
        bonding_curve_percentage: token.bonding_curve_percentage,
        bond_status: if has_trades(trades, token.id) {
            status_for(token.bond_status, token.market_cap)
        } else {
            token.bond_status
        },
        volume: Some(volume_of(trades, token.id)),
        market_cap: token.market_cap,
        uri: token.uri,
        bonding_curve_address: token.bonding_curve_address,
        creator_address: token.creator_address,
        funds_percent_by_top_10: if top < 0 {
            0
        } else {
            top
        },
        holder_count: positive_count(balances),
        creator_percent: net_balance(trades, token.id, token.creator_address),
    }
}

/// The read model of every asset of `tokens`, in their order.
pub open spec fn token_data(tokens: Seq<TokenView>, trades: Seq<TradeView>) -> Seq<
    TokenDetailsView,
> {
    Seq::new(tokens.len(), |i: int| analytics_of(tokens[i], trades))
}

/// Derives the status of an asset from its persisted status and its market
/// capitalisation.
pub fn derive_status(persisted: BondStatus, market_cap: Option<i64>) -> (status: BondStatus)
    ensures
        status == status_for(persisted, market_cap),
        persisted == BondStatus::Graduated ==> status == BondStatus::Graduated,
{
    let cap: i64 = match market_cap {
        Some(cap) => cap,
        None => 0,
    };
    match persisted {
        BondStatus::Graduated => BondStatus::Graduated,
        _ => {
            if cap < GRADUATING_MARKET_CAP {
                BondStatus::NewlyLaunched
            } else if cap <= GRADUATED_MARKET_CAP {
                BondStatus::Graduating
            } else {
                BondStatus::Graduated
            }
        },
    }
}

/// Puts the read model of one asset together from what the ledger says of
/// it.
fn details_from(
    token: &Token,
    volume: i128,
    traded: bool,
    holders: &Vec<Holding>,
    Ghost(ledger): Ghost<Seq<TradeView>>,
) -> (details: TokenDetails)
    requires
        volume == volume_of(ledger, token.id),
        traded == has_trades(ledger, token.id),
        holdings_match(holders.deep_view(), ledger, token.id),
        abs_sum(net_values(holders.deep_view())) <= i128::MAX,
    ensures
        details@ == analytics_of(token@, ledger),
{
    proof {
        assert(net_values(holders.deep_view()) =~= balances_of(ledger, token.id));
    }
    let values = balances(holders);
    let ranked = sort_descending(&values);
    let top: i128 = leading_total(&ranked, TOP_HOLDERS);
    let holder_count = count_holders(holders);
    let creator_balance: i128 = match find_holder(holders, &token.creator_address) {
        Some(k) => {
            proof {
                let held = holders.deep_view();
                assert(held[k as int].user == traders_of(ledger, token.id)[k as int]);
                assert(held[k as int].net_tokens == net_balance(
                    ledger,
                    token.id,
                    token.creator_address@,
                ));
            }
            holders[k].net_tokens
        },
        None => {
            proof {
                let traders = traders_of(ledger, token.id);
                if traders.contains(token.creator_address@) {
                    let j = choose|j: int|
                        0 <= j < traders.len() && traders[j] == token.creator_address@;
                    assert(holders.deep_view()[j].user == traders[j]);
                }
                lemma_stranger_holds_nothing(ledger, token.id, token.creator_address@);
            }
            0
        },
    };
    TokenDetails {
        id: id_text(token.id),
        created_at: token.created_at,
        updated_at: token.updated_at,
        name: token.name.clone(),
        ticker: token.ticker.clone(),
        contract_address: token.contract_address.clone(),
        bonding_curve_percentage: token.bonding_curve_percentage,
        bond_status: if traded {
            derive_status(token.bond_status, token.market_cap)
        } else {
            token.bond_status
        },
        volume: Some(volume),
        market_cap: token.market_cap,
        uri: token.uri.clone(),
        bonding_curve_address: token.bonding_curve_address.clone(),
        creator_address: token.creator_address.clone(),
        funds_percent_by_top_10: if top < 0 {
            0
        } else {
            top
        },
        holder_count,
        creator_percent: creator_balance,
    }
}

/// Rebuilds the read model of one asset from the trade ledger: its volume,
/// the share of its ten largest holders, the number of its holders, the
/// balance of its creator and its status.
pub fn token_details(token: &Token, trades: &Vec<Trade>) -> (details: TokenDetails)
    ensures
        details@ == analytics_of(token@, trades.deep_view()),
{
    let (volume, traded) = volume_of_token(trades, token.id);
    let holders = holdings_of(trades, token.id);
    proof {
        assert(trades.len() * amount_bound() <= i128::MAX) by (nonlinear_arith)
            requires
                trades.len() <= 0xffff_ffff_ffff_ffff,
                amount_bound() == 0x8000_0000_0000_0000,
        ;
    }
    details_from(token, volume, traded, &holders, Ghost(trades.deep_view()))
}

/// Rebuilds the read model of every asset from the asset table and the
/// trade ledger: the ledger is folded once, and every asset reads its
/// figures off the fold. The result has one entry per asset, in the order
/// of `all_tokens`. A trade of an asset that is not among `all_tokens`
/// counts for nothing.
pub fn fetch_token_data(all_tokens: &Vec<Token>, all_trades: &Vec<Trade>) -> (details: Vec<
    TokenDetails,
>)
    ensures
        details.deep_view() == token_data(all_tokens.deep_view(), all_trades.deep_view()),
{
    let ghost ledger = all_trades.deep_view();
    let fold = fold_ledger(all_trades);
    let untraded: Vec<Holding> = Vec::new();
    let mut details: Vec<TokenDetails> = Vec::new();
    let mut i: usize = 0;
    proof {
        assert(untraded.deep_view() =~= Seq::<HoldingView>::empty());
        assert(net_values(untraded.deep_view()) =~= Seq::<int>::empty());
        assert(all_trades.len() * amount_bound() <= i128::MAX) by (nonlinear_arith)
            requires
                all_trades.len() <= 0xffff_ffff_ffff_ffff,
                amount_bound() == 0x8000_0000_0000_0000,
        ;
    }
    while i < all_tokens.len()
        invariant
            i <= all_tokens.len(),
            details.len() == i,
            ledger == all_trades.deep_view(),
            figures_match(fold@, ledger),
            untraded.deep_view() == Seq::<HoldingView>::empty(),
            abs_sum(net_values(untraded.deep_view())) == 0,
            all_trades.len() * amount_bound() <= i128::MAX,
            forall|k: int|
                0 <= k < i ==> (#[trigger] details[k])@ == analytics_of(all_tokens[k]@, ledger),
        decreases all_tokens.len() - i,
    {
        let token = &all_tokens[i];
        proof {
            lemma_traded_assets_have_trades(ledger, token.id);
        }
        let entry = match fold.get(token.id) {
            Some(figures) => {
                proof {
                    let g = choose|g: int| 0 <= g < fold@.len() && fold@[g] == *figures;
                    assert(traded_assets(ledger)[g] == token.id);
                    assert(fold@[g].describes(ledger));
                    assert(fold@[g].within(ledger.len()));
                }
                details_from(token, figures.volume, true, &figures.holders, Ghost(ledger))
            },
            None => {
                proof {
                    let assets = traded_assets(ledger);
                    if assets.contains(token.id) {
                        let h = choose|h: int| 0 <= h < assets.len() && assets[h] == token.id;
                        assert(fold@[h].token_id == assets[h]);
                    }
                    lemma_untraded_asset_is_empty(ledger, token.id, token.creator_address@);
                }
                details_from(token, 0, false, &untraded, Ghost(ledger))
            },
        };
        details.push(entry);
        i = i + 1;
    }
    assert(details.deep_view() =~= token_data(all_tokens.deep_view(), all_trades.deep_view()));
    details
}

} // verus!
