//! Laws that hold of the library as a whole, each proved from the
//! definitions that the contracts of its functions use.

use vstd::prelude::*;
use vstd::relations::{sorted_by, total_ordering};
use vstd::seq_lib::{lemma_sorted_unique, to_multiset_build};
use crate::helpers::bonding_curve_progress;
use crate::ledger::{balances_of, has_trades, lemma_untraded_asset_is_empty, sum};
use crate::processor::{
    answers, entry_for, market_cap_after, percentage_after, rows_after, ActionView,
};
use crate::query::{analytics_of, status_for};
use crate::ranking::{descending, positive_count, top_total};
use crate::state::{distinct_keys, has_key, lemma_adjusted, lemma_upserted, rows_map};
use crate::types::{
    BondStatus, BondingCurveAndMcInfoView, CreateEventView, EventEnvelopeView, TokenView,
    TradeEventView, TradeInfoView, TradeView,
};

verus! {

/// The progress of a curve lies between 0 and 100, whatever its reserve.
pub proof fn lemma_progress_is_a_percentage(reserve: int)
    ensures
        0 <= bonding_curve_progress(reserve) <= 100,
{
}

/// A created asset is in the store as soon as its creation was processed,
/// with no progress and a market capitalisation of zero, and its row is
/// newly launched with the same figures.
pub proof fn lemma_created_asset_is_known(
    rows: Seq<BondingCurveAndMcInfoView>,
    created: CreateEventView,
    price: u64,
    action: ActionView,
)
    requires
        distinct_keys(rows),
        answers(action, rows, EventEnvelopeView::Create(created)),
    ensures
        ({
            let after = rows_map(rows_after(rows, EventEnvelopeView::Create(created), price));
            &&& after.contains_key(created.mint)
            &&& after[created.mint] == entry_for(created)
            &&& after[created.mint].bonding_curve_percentage == 0
            &&& after[created.mint].market_cap == Some(0i64)
        }),
        action matches ActionView::InsertToken(token) && token.bond_status
            == BondStatus::NewlyLaunched && token.bonding_curve_percentage == 0 && token.market_cap
            == Some(0i64) && token.contract_address == created.mint,
{
    lemma_upserted(rows, entry_for(created));
}

/// A trade of an asset that the store does not know leaves the store as it
/// is and hands no trade on.
pub proof fn lemma_unknown_trade_is_dropped(
    rows: Seq<BondingCurveAndMcInfoView>,
    trade: TradeEventView,
    price: u64,
    action: ActionView,
)
    requires
        !has_key(rows, trade.mint),
        answers(action, rows, EventEnvelopeView::Trade(trade)),
    ensures
        rows_after(rows, EventEnvelopeView::Trade(trade), price) == rows,
        action == ActionView::Ignore,
{
}

/// Whether the store knows the asset of every trade of `buffer`.
pub open spec fn covered(rows: Seq<BondingCurveAndMcInfoView>, buffer: Seq<TradeInfoView>) -> bool {
    forall|i: int| 0 <= i < buffer.len() ==> has_key(rows, (#[trigger] buffer[i]).mint)
}

/// The buffer after the action of an event was carried out: a trade that
/// was handed on waits behind the others.
pub open spec fn buffer_after(buffer: Seq<TradeInfoView>, action: ActionView) -> Seq<
    TradeInfoView,
> {
    match action {
        ActionView::PublishTrade(trade) => buffer.push(trade),
        _ => buffer,
    }
}

/// No event takes an asset out of the store.
pub proof fn lemma_store_only_grows(
    rows: Seq<BondingCurveAndMcInfoView>,
    event: EventEnvelopeView,
    price: u64,
    key: Seq<char>,
)
    requires
        distinct_keys(rows),
        has_key(rows, key),
    ensures
        has_key(rows_after(rows, event, price), key),
        distinct_keys(rows_after(rows, event, price)),
{
    let after = rows_after(rows, event, price);
    match event {
        EventEnvelopeView::Create(created) => {
            lemma_upserted(rows, entry_for(created));
            assert(rows_map(after).contains_key(key));
        },
        EventEnvelopeView::Trade(trade) => {
            lemma_adjusted(
                rows,
                trade.mint,
                percentage_after(trade),
                Some(market_cap_after(trade, price)),
            );
            if has_key(rows, trade.mint) {
                assert(rows_map(rows).contains_key(key));
                assert(rows_map(after).contains_key(key));
            }
        },
        EventEnvelopeView::Complete(_) => {},
    }
}

/// The store knows the asset of every buffered trade, before and after
/// every event: a trade is handed on only for an asset that the store
/// knows, and the store never loses one.
pub proof fn lemma_buffer_stays_covered(
    rows: Seq<BondingCurveAndMcInfoView>,
    buffer: Seq<TradeInfoView>,
    event: EventEnvelopeView,
    price: u64,
    action: ActionView,
)
    requires
        distinct_keys(rows),
        covered(rows, buffer),
        answers(action, rows, event),
    ensures
        covered(rows_after(rows, event, price), buffer_after(buffer, action)),
{
    let after = rows_after(rows, event, price);
    let waiting = buffer_after(buffer, action);
    assert forall|i: int| 0 <= i < waiting.len() implies has_key(
        after,
        (#[trigger] waiting[i]).mint,
    ) by {
        if i < buffer.len() {
            assert(has_key(rows, buffer[i].mint));
            lemma_store_only_grows(rows, event, price, buffer[i].mint);
        } else {
            match event {
                EventEnvelopeView::Trade(trade) => {
                    lemma_store_only_grows(rows, event, price, trade.mint);
                },
                _ => {},
            }
        }
    }
}

/// A graduated asset stays graduated, whatever its market capitalisation.
pub proof fn lemma_graduated_is_final(market_cap: Option<i64>)
    ensures
        status_for(BondStatus::Graduated, market_cap) == BondStatus::Graduated,
{
}

/// The read model of a graduated asset shows it graduated, whatever was
/// traded and whatever its market capitalisation became.
pub proof fn lemma_graduated_stays_in_read_model(token: TokenView, trades: Seq<TradeView>)
    requires
        token.bond_status == BondStatus::Graduated,
    ensures
        analytics_of(token, trades).bond_status == BondStatus::Graduated,
{
}

/// The read model of an asset that was never traded: no volume, no funds
/// with the top holders, no holder, nothing with the creator, and the
/// persisted status.
pub proof fn lemma_untraded_asset_reads_zero(token: TokenView, trades: Seq<TradeView>)
    requires
        !has_trades(trades, token.id),
    ensures
        analytics_of(token, trades).funds_percent_by_top_10 == 0,
        analytics_of(token, trades).holder_count == 0,
        analytics_of(token, trades).creator_percent == 0,
        analytics_of(token, trades).volume == Some(0int),
        analytics_of(token, trades).bond_status == token.bond_status,
{
    lemma_untraded_asset_is_empty(trades, token.id, token.creator_address);
    let balances = balances_of(trades, token.id);
    assert(balances =~= Seq::<int>::empty());
    lemma_ranking(balances);
    assert(balances.sort_by(descending()) =~= Seq::<int>::empty());
}

/// Ranking keeps the balances and puts them in descending order.
pub proof fn lemma_ranking(balances: Seq<int>)
    ensures
        balances.sort_by(descending()).len() == balances.len(),
        balances.sort_by(descending()).to_multiset() == balances.to_multiset(),
        sorted_by(balances.sort_by(descending()), descending()),
{
    assert(total_ordering(descending()));
    balances.lemma_sort_by_ensures(descending());
    balances.to_multiset_ensures();
    balances.sort_by(descending()).to_multiset_ensures();
}

/// A balance that is no larger than any of ten or more others adds nothing
/// to the total of the ten largest.
pub proof fn lemma_eleventh_balance_is_left_out(balances: Seq<int>, small: int)
    requires
        balances.len() >= 10,
        forall|i: int| 0 <= i < balances.len() ==> balances[i] >= small,
    ensures
        top_total(balances.push(small), 10) == top_total(balances, 10),
{
    let ranked = balances.sort_by(descending());
    let grown = balances.push(small);
    lemma_ranking(balances);
    lemma_ranking(grown);
    to_multiset_build(balances, small);
    to_multiset_build(ranked, small);
    assert forall|i: int| 0 <= i < ranked.len() implies ranked[i] >= small by {
        ranked.to_multiset_ensures();
        balances.to_multiset_ensures();
        assert(ranked.contains(ranked[i]));
        assert(balances.to_multiset().count(ranked[i]) > 0);
        assert(balances.contains(ranked[i]));
        let j = choose|j: int| 0 <= j < balances.len() && balances[j] == ranked[i];
        assert(balances[j] >= small);
    }
    assert(sorted_by(ranked.push(small), descending())) by {
        assert forall|a: int, b: int| 0 <= a < b < ranked.push(small).len() implies descending()(
            #[trigger] ranked.push(small)[a],
            #[trigger] ranked.push(small)[b],
        ) by {
            if b < ranked.len() {
                assert(descending()(ranked[a], ranked[b]));
            }
        }
    }
    assert(total_ordering(descending()));
    lemma_sorted_unique(ranked.push(small), grown.sort_by(descending()), descending());
    assert(grown.sort_by(descending()).take(10) =~= ranked.take(10));
    if ranked.len() == 10 {
        assert(ranked.take(10) =~= ranked);
    }
}

/// The total of the ten largest balances of ten or fewer holders is the sum
/// of all their balances.
pub proof fn lemma_few_holders_count_in_full(balances: Seq<int>)
    requires
        balances.len() <= 10,
    ensures
        top_total(balances, 10) == sum(balances),
{
    lemma_ranking(balances);
    lemma_sum_of_equal_multisets(balances.sort_by(descending()), balances);
    if balances.len() == 10 {
        assert(balances.sort_by(descending()).take(10) =~= balances.sort_by(descending()));
    }
}

/// Sequences that hold the same numbers, each as often, have the same sum.
pub proof fn lemma_sum_of_equal_multisets(left: Seq<int>, right: Seq<int>)
    requires
        left.to_multiset() == right.to_multiset(),
    ensures
        sum(left) == sum(right),
    decreases left.len(),
{
    left.to_multiset_ensures();
    right.to_multiset_ensures();
    if left.len() == 0 {
        assert(right.len() == 0);
    } else {
        let last = left.last();
        assert(left.contains(last));
        assert(right.to_multiset().count(last) > 0);
        assert(right.contains(last));
        let at = choose|at: int| 0 <= at < right.len() && right[at] == last;
        assert(left.drop_last() =~= left.remove(left.len() - 1));
        assert(left.drop_last().to_multiset() =~= left.to_multiset().remove(last));
        assert(right.remove(at).to_multiset() =~= right.to_multiset().remove(last));
        lemma_sum_of_equal_multisets(left.drop_last(), right.remove(at));
        lemma_sum_remove(right, at);
    }
}

/// Taking one number out of a sequence takes it off the sum.
pub proof fn lemma_sum_remove(values: Seq<int>, at: int)
    requires
        0 <= at < values.len(),
    ensures
        sum(values) == sum(values.remove(at)) + values[at],
    decreases values.len(),
{
    if at == values.len() - 1 {
        assert(values.remove(at) =~= values.drop_last());
    } else {
        assert(values.remove(at).drop_last() =~= values.drop_last().remove(at));
        assert(values.remove(at).last() == values.last());
        lemma_sum_remove(values.drop_last(), at);
    }
}

/// The number of holders never exceeds the number of traders.
pub proof fn lemma_holders_are_traders(balances: Seq<int>)
    ensures
        positive_count(balances) <= balances.len(),
    decreases balances.len(),
{
    if balances.len() > 0 {
        lemma_holders_are_traders(balances.drop_last());
    }
}

} // verus!
