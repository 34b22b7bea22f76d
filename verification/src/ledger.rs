//! The trade ledger and what it says of every asset: the volume of its
//! trades and the net balances of its traders.

use std::collections::HashMap;
use vstd::prelude::*;
use crate::types::{Holding, HoldingView, Trade, TradeView};

verus! {

/// Tokens that a trade adds to the balance of its trader: the amount for a
/// purchase, its negation for a sale.
pub open spec fn signed_amount(trade: TradeView) -> int {
    if trade.is_buy {
        trade.token_amount as int
    } else {
        -(trade.token_amount as int)
    }
}

/// Whether the ledger holds a trade of the asset `token_id`.
pub open spec fn has_trades(trades: Seq<TradeView>, token_id: u128) -> bool {
    exists|i: int| 0 <= i < trades.len() && (#[trigger] trades[i]).token_id == token_id
}

/// Sum of the quote amounts of the trades of `token_id`.
pub open spec fn volume_of(trades: Seq<TradeView>, token_id: u128) -> int
    decreases trades.len(),
{
    if trades.len() == 0 {
        0
    } else {
        volume_of(trades.drop_last(), token_id) + if trades.last().token_id == token_id {
            trades.last().sol_amount as int
        } else {
            0
        }
    }
}

/// Net balance of `user` in `token_id`: purchases minus sales.
pub open spec fn net_balance(trades: Seq<TradeView>, token_id: u128, user: Seq<char>) -> int
    decreases trades.len(),
{
    if trades.len() == 0 {
        0
    } else {
        net_balance(trades.drop_last(), token_id, user) + if trades.last().token_id == token_id
            && trades.last().user_address == user {
            signed_amount(trades.last())
        } else {
            0
        }
    }
}

/// The traders of `token_id`, each once, in the order of their first trade.
pub open spec fn traders_of(trades: Seq<TradeView>, token_id: u128) -> Seq<Seq<char>>
    decreases trades.len(),
{
    if trades.len() == 0 {
        Seq::empty()
    } else {
        let earlier = traders_of(trades.drop_last(), token_id);
        if trades.last().token_id == token_id && !earlier.contains(trades.last().user_address) {
            earlier.push(trades.last().user_address)
        } else {
            earlier
        }
    }
}

/// The assets of the ledger, each once, in the order of their first trade.
pub open spec fn traded_assets(trades: Seq<TradeView>) -> Seq<u128>
    decreases trades.len(),
{
    if trades.len() == 0 {
        Seq::empty()
    } else {
        let earlier = traded_assets(trades.drop_last());
        if earlier.contains(trades.last().token_id) {
            earlier
        } else {
            earlier.push(trades.last().token_id)
        }
    }
}

/// The net balances of the traders of `token_id`, in the order of
/// [`traders_of`].
pub open spec fn balances_of(trades: Seq<TradeView>, token_id: u128) -> Seq<int> {
    let traders = traders_of(trades, token_id);
    Seq::new(traders.len(), |k: int| net_balance(trades, token_id, traders[k]))
}

/// Whether the holdings `holders` are those that `trades` give for
/// `token_id`: one per trader, in the order of first trade, each with the
/// net balance of its trader.
pub open spec fn holdings_match(
    holders: Seq<HoldingView>,
    trades: Seq<TradeView>,
    token_id: u128,
) -> bool {
    let traders = traders_of(trades, token_id);
    &&& holders.len() == traders.len()
    &&& forall|k: int|
        0 <= k < holders.len() ==> {
            &&& (#[trigger] holders[k]).token_id == token_id
            &&& holders[k].user == traders[k]
            &&& holders[k].net_tokens == net_balance(trades, token_id, traders[k])
        }
}

/// Sum of the absolute values of `balances`.
pub open spec fn abs_sum(balances: Seq<int>) -> int
    decreases balances.len(),
{
    if balances.len() == 0 {
        0
    } else {
        abs_sum(balances.drop_last()) + if balances.last() < 0 {
            -balances.last()
        } else {
            balances.last()
        }
    }
}

/// Sum of `balances`.
pub open spec fn sum(balances: Seq<int>) -> int
    decreases balances.len(),
{
    if balances.len() == 0 {
        0
    } else {
        sum(balances.drop_last()) + balances.last()
    }
}

/// No trader occurs twice among the traders of an asset.
pub proof fn lemma_traders_distinct(trades: Seq<TradeView>, token_id: u128)
    ensures
        traders_of(trades, token_id).no_duplicates(),
    decreases trades.len(),
{
    if trades.len() > 0 {
        lemma_traders_distinct(trades.drop_last(), token_id);
    }
}

/// Who has not traded an asset holds nothing of it.
pub proof fn lemma_stranger_holds_nothing(
    trades: Seq<TradeView>,
    token_id: u128,
    user: Seq<char>,
)
    requires
        !traders_of(trades, token_id).contains(user),
    ensures
        net_balance(trades, token_id, user) == 0,
    decreases trades.len(),
{
    if trades.len() > 0 {
        let earlier = traders_of(trades.drop_last(), token_id);
        if earlier.contains(user) {
            let k = choose|k: int| 0 <= k < earlier.len() && earlier[k] == user;
            assert(traders_of(trades, token_id)[k] == user);
        }
        if trades.last().token_id == token_id && trades.last().user_address == user {
            if !earlier.contains(user) {
                assert(traders_of(trades, token_id).last() == user);
            }
        }
        lemma_stranger_holds_nothing(trades.drop_last(), token_id, user);
    }
}

/// No asset occurs twice among the traded assets.
pub proof fn lemma_traded_assets_distinct(trades: Seq<TradeView>)
    ensures
        traded_assets(trades).no_duplicates(),
    decreases trades.len(),
{
    if trades.len() > 0 {
        lemma_traded_assets_distinct(trades.drop_last());
    }
}

/// The traded assets are those of which the ledger holds a trade.
pub proof fn lemma_traded_assets_have_trades(trades: Seq<TradeView>, token_id: u128)
    ensures
        traded_assets(trades).contains(token_id) == has_trades(trades, token_id),
    decreases trades.len(),
{
    if trades.len() > 0 {
        let earlier = traded_assets(trades.drop_last());
        lemma_traded_assets_have_trades(trades.drop_last(), token_id);
        if has_trades(trades.drop_last(), token_id) {
            let i = choose|i: int|
                0 <= i < trades.drop_last().len() && trades.drop_last()[i].token_id == token_id;
            assert(trades[i].token_id == token_id);
        }
        if has_trades(trades, token_id) && trades.last().token_id != token_id {
            let i = choose|i: int| 0 <= i < trades.len() && trades[i].token_id == token_id;
            assert(trades.drop_last()[i].token_id == token_id);
        }
        if trades.last().token_id == token_id {
            assert(trades[trades.len() - 1].token_id == token_id);
        }
        if earlier.contains(token_id) {
            let k = choose|k: int| 0 <= k < earlier.len() && earlier[k] == token_id;
            assert(traded_assets(trades)[k] == token_id);
        }
        if !earlier.contains(trades.last().token_id) {
            assert(traded_assets(trades).last() == trades.last().token_id);
        }
    }
}

/// On a ledger without a trade of an asset, the asset has no volume, no
/// trader, and nobody holds anything of it.
pub proof fn lemma_untraded_asset_is_empty(trades: Seq<TradeView>, token_id: u128, user: Seq<char>)
    requires
        !has_trades(trades, token_id),
    ensures
        volume_of(trades, token_id) == 0,
        traders_of(trades, token_id) == Seq::<Seq<char>>::empty(),
        net_balance(trades, token_id, user) == 0,
    decreases trades.len(),
{
    if trades.len() > 0 {
        assert(trades[trades.len() - 1].token_id != token_id);
        assert forall|i: int| 0 <= i < trades.drop_last().len() implies (
        #[trigger] trades.drop_last()[i]).token_id != token_id by {
            assert(trades[i].token_id != token_id);
        }
        lemma_untraded_asset_is_empty(trades.drop_last(), token_id, user);
    }
}

/// The net balances that `holders` record, in their order.
pub open spec fn net_values(holders: Seq<HoldingView>) -> Seq<int> {
    Seq::new(holders.len(), |k: int| holders[k].net_tokens)
}

/// Largest magnitude of a single trade amount.
pub open spec fn amount_bound() -> int {
    0x8000_0000_0000_0000
}

/// No balance is larger in magnitude than the sum of all magnitudes.
proof fn lemma_abs_sum_bounds_each(balances: Seq<int>, k: int)
    requires
        0 <= k < balances.len(),
    ensures
        -abs_sum(balances) <= balances[k] <= abs_sum(balances),
        0 <= abs_sum(balances),
    decreases balances.len(),
{
    lemma_abs_sum_nonnegative(balances.drop_last());
    if k < balances.len() - 1 {
        lemma_abs_sum_bounds_each(balances.drop_last(), k);
    }
}

/// A sum of magnitudes is not negative.
pub proof fn lemma_abs_sum_nonnegative(balances: Seq<int>)
    ensures
        0 <= abs_sum(balances),
    decreases balances.len(),
{
    if balances.len() > 0 {
        lemma_abs_sum_nonnegative(balances.drop_last());
    }
}

/// Replacing one balance changes the sum of magnitudes by the difference
/// of the two magnitudes.
proof fn lemma_abs_sum_update(balances: Seq<int>, k: int, value: int)
    requires
        0 <= k < balances.len(),
    ensures
        abs_sum(balances.update(k, value)) == abs_sum(balances) - (if balances[k] < 0 {
            -balances[k]
        } else {
            balances[k]
        }) + (if value < 0 {
            -value
        } else {
            value
        }),
    decreases balances.len(),
{
    let updated = balances.update(k, value);
    if k < balances.len() - 1 {
        assert(updated.drop_last() =~= balances.drop_last().update(k, value));
        lemma_abs_sum_update(balances.drop_last(), k, value);
    } else {
        assert(updated.drop_last() =~= balances.drop_last());
    }
}

/// Index of the first holding of `user` among `holders`, if there is one.
pub fn find_holder(holders: &Vec<Holding>, user: &String) -> (found: Option<usize>)
    ensures
        match found {
            Some(k) => {
                &&& k < holders.len()
                &&& holders[k as int].user@ == user@
                &&& forall|j: int| 0 <= j < k ==> holders[j].user@ != user@
            },
            None => forall|j: int| 0 <= j < holders.len() ==> holders[j].user@ != user@,
        },
{
    let mut k: usize = 0;
    while k < holders.len()
        invariant
            k <= holders.len(),
            forall|j: int| 0 <= j < k ==> holders[j].user@ != user@,
        decreases holders.len() - k,
    {
        if holders[k].user == *user {
            return Some(k);
        }
        k = k + 1;
    }
    None
}

/// The trade `trade` of the asset `token_id` leaves the figures of every
/// other asset as they were.
pub proof fn lemma_foreign_trade(
    holders: Seq<HoldingView>,
    before: Seq<TradeView>,
    trade: TradeView,
    token_id: u128,
)
    requires
        trade.token_id != token_id,
        holdings_match(holders, before, token_id),
    ensures
        holdings_match(holders, before.push(trade), token_id),
        volume_of(before.push(trade), token_id) == volume_of(before, token_id),
        traders_of(before.push(trade), token_id) == traders_of(before, token_id),
{
    let after = before.push(trade);
    let traders = traders_of(before, token_id);
    assert(after.drop_last() =~= before);
    assert(traders_of(after, token_id) == traders);
    assert forall|j: int| 0 <= j < holders.len() implies {
        &&& (#[trigger] holders[j]).token_id == token_id
        &&& holders[j].user == traders[j]
        &&& holders[j].net_tokens == net_balance(after, token_id, traders[j])
    } by {}
}

/// Books one trade of an asset into the holdings of its traders: onto the
/// holding of its trader where there is one, as a new holding behind the
/// others where there is none.
fn record_holding(holders: &mut Vec<Holding>, trade: &Trade, Ghost(before): Ghost<Seq<TradeView>>)
    requires
        holdings_match(old(holders).deep_view(), before, trade.token_id),
        abs_sum(net_values(old(holders).deep_view())) <= before.len() * amount_bound(),
        before.len() < usize::MAX,
    ensures
        holdings_match(final(holders).deep_view(), before.push(trade@), trade.token_id),
        abs_sum(net_values(final(holders).deep_view())) <= (before.len() + 1) * amount_bound(),
{
    let token_id: u128 = trade.token_id;
    let ghost after = before.push(trade@);
    let ghost held = holders.deep_view();
    let ghost traders = traders_of(before, token_id);
    proof {
        assert(after.drop_last() =~= before);
        lemma_traders_distinct(before, token_id);
        assert((before.len() + 1) * amount_bound() <= i128::MAX) by (nonlinear_arith)
            requires
                before.len() + 1 <= 0xffff_ffff_ffff_ffff,
                amount_bound() == 0x8000_0000_0000_0000,
        ;
        assert(before.len() * amount_bound() + amount_bound() == (before.len() + 1)
            * amount_bound()) by (nonlinear_arith);
    }
    let delta: i128 = if trade.is_buy {
        trade.token_amount as i128
    } else {
        -(trade.token_amount as i128)
    };
    assert(delta == signed_amount(trade@));
    match find_holder(holders, &trade.user_address) {
        Some(k) => {
            proof {
                lemma_abs_sum_bounds_each(net_values(held), k as int);
                lemma_abs_sum_update(net_values(held), k as int, held[k as int].net_tokens + delta);
                assert(traders[k as int] == trade.user_address@);
                assert(traders.contains(trade.user_address@));
            }
            let updated: i128 = holders[k].net_tokens + delta;
            holders[k].net_tokens = updated;
            proof {
                let now = holders.deep_view();
                assert(net_values(now) =~= net_values(held).update(
                    k as int,
                    held[k as int].net_tokens + delta,
                ));
                assert(traders_of(after, token_id) == traders);
                assert forall|j: int| 0 <= j < now.len() implies {
                    &&& (#[trigger] now[j]).token_id == token_id
                    &&& now[j].user == traders[j]
                    &&& now[j].net_tokens == net_balance(after, token_id, traders[j])
                } by {
                    assert(held[j].user == traders[j]);
                    if j != k {
                        assert(traders[j] != traders[k as int]);
                    }
                }
            }
        },
        None => {
            proof {
                assert(!traders.contains(trade.user_address@)) by {
                    if traders.contains(trade.user_address@) {
                        let j = choose|j: int|
                            0 <= j < traders.len() && traders[j] == trade.user_address@;
                        assert(held[j].user == traders[j]);
                    }
                }
                lemma_stranger_holds_nothing(before, token_id, trade.user_address@);
            }
            holders.push(Holding { token_id, user: trade.user_address.clone(), net_tokens: delta });
            proof {
                let now = holders.deep_view();
                assert(net_values(now).drop_last() =~= net_values(held));
                assert(traders_of(after, token_id) == traders.push(trade.user_address@));
                assert forall|j: int| 0 <= j < now.len() implies {
                    &&& (#[trigger] now[j]).token_id == token_id
                    &&& now[j].user == traders_of(after, token_id)[j]
                    &&& now[j].net_tokens == net_balance(
                        after,
                        token_id,
                        traders_of(after, token_id)[j],
                    )
                } by {
                    if j < held.len() {
                        assert(now[j] == held[j]);
                        assert(held[j].user == traders[j]);
                        assert(traders.contains(traders[j]));
                    }
                }
            }
        },
    }
}

/// Folds the trades of one asset into the holdings of its traders: one
/// holding per trader, in the order of first trade, purchases added and sales
/// subtracted.
pub fn holdings_of(trades: &Vec<Trade>, token_id: u128) -> (holders: Vec<Holding>)
    ensures
        holdings_match(holders.deep_view(), trades.deep_view(), token_id),
        abs_sum(net_values(holders.deep_view())) <= trades.len() * amount_bound(),
{
    let mut holders: Vec<Holding> = Vec::new();
    let mut i: usize = 0;
    let ghost ledger = trades.deep_view();
    while i < trades.len()
        invariant
            i <= trades.len(),
            ledger == trades.deep_view(),
            holdings_match(holders.deep_view(), ledger.take(i as int), token_id),
            abs_sum(net_values(holders.deep_view())) <= i * amount_bound(),
        decreases trades.len() - i,
    {
        let ghost before = ledger.take(i as int);
        proof {
            assert(ledger.take(i + 1) =~= before.push(trades[i as int]@));
        }
        if trades[i].token_id == token_id {
            record_holding(&mut holders, &trades[i], Ghost(before));
        } else {
            proof {
                lemma_foreign_trade(holders.deep_view(), before, trades[i as int]@, token_id);
                assert(i * amount_bound() <= (i + 1) * amount_bound()) by (nonlinear_arith)
                    requires
                        amount_bound() >= 0,
                ;
            }
        }
        i = i + 1;
    }
    proof {
        assert(ledger.take(trades.len() as int) =~= ledger);
    }
    holders
}

/// Sums the quote amounts of the trades of one asset, and tells whether
/// there is any such trade.
pub fn volume_of_token(trades: &Vec<Trade>, token_id: u128) -> (result: (i128, bool))
    ensures
        result.0 == volume_of(trades.deep_view(), token_id),
        result.1 == has_trades(trades.deep_view(), token_id),
{
    let mut volume: i128 = 0;
    let mut traded: bool = false;
    let mut i: usize = 0;
    let ghost ledger = trades.deep_view();
    while i < trades.len()
        invariant
            i <= trades.len(),
            ledger == trades.deep_view(),
            volume == volume_of(ledger.take(i as int), token_id),
            traded == has_trades(ledger.take(i as int), token_id),
            -(i * amount_bound()) <= volume <= i * amount_bound(),
        decreases trades.len() - i,
    {
        let ghost before = ledger.take(i as int);
        let ghost after = ledger.take(i + 1);
        proof {
            assert(after.drop_last() =~= before);
            assert(after.last() == trades[i as int]@);
            if has_trades(before, token_id) {
                let j = choose|j: int| 0 <= j < before.len() && before[j].token_id == token_id;
                assert(after[j].token_id == token_id);
            }
            if has_trades(after, token_id) && trades[i as int].token_id != token_id {
                let j = choose|j: int| 0 <= j < after.len() && after[j].token_id == token_id;
                assert(before[j].token_id == token_id);
            }
        }
        if trades[i].token_id == token_id {
            volume = volume + trades[i].sol_amount as i128;
            traded = true;
            assert(after[i as int].token_id == token_id);
        }
        i = i + 1;
    }
    proof {
        assert(ledger.take(trades.len() as int) =~= ledger);
    }
    (volume, traded)
}

/// What the ledger says of one asset: the sum of the quote amounts of its
/// trades, and the holdings of its traders.
#[derive(Debug)]
pub struct AssetFigures {
    pub token_id: u128,
    pub volume: i128,
    pub holders: Vec<Holding>,
}

impl AssetFigures {
    /// Whether these are the figures that `trades` give for the asset.
    pub open spec fn describes(&self, trades: Seq<TradeView>) -> bool {
        &&& self.volume == volume_of(trades, self.token_id)
        &&& holdings_match(self.holders.deep_view(), trades, self.token_id)
    }

    /// Whether the figures are within what `count` trades can add up to.
    pub open spec fn within(&self, count: nat) -> bool {
        &&& abs_sum(net_values(self.holders.deep_view())) <= count * amount_bound()
        &&& -(count * amount_bound()) <= self.volume <= count * amount_bound()
    }
}

/// Whether `figures` are what `trades` say of the traded assets: one entry
/// for each of them, in the order of their first trade.
pub open spec fn figures_match(figures: Seq<AssetFigures>, trades: Seq<TradeView>) -> bool {
    &&& figures.len() == traded_assets(trades).len()
    &&& forall|g: int|
        0 <= g < figures.len() ==> {
            &&& (#[trigger] figures[g]).token_id == traded_assets(trades)[g]
            &&& figures[g].describes(trades)
            &&& figures[g].within(trades.len())
        }
}

/// Whether `places` tells, for every asset of `figures` and for no other,
/// where its figures stand.
pub open spec fn places_match(places: Map<u128, usize>, figures: Seq<AssetFigures>) -> bool {
    &&& forall|g: int|
        0 <= g < figures.len() ==> {
            &&& places.contains_key((#[trigger] figures[g]).token_id)
            &&& places[figures[g].token_id] == g
        }
    &&& forall|token_id: u128| #[trigger]
        places.contains_key(token_id) ==> {
            &&& places[token_id] < figures.len()
            &&& figures[places[token_id] as int].token_id == token_id
        }
}

/// The ledger folded into the figures of every traded asset, each to be
/// found by the identifier of its asset.
pub struct LedgerFold {
    figures: Vec<AssetFigures>,
    places: HashMap<u128, usize>,
}

impl View for LedgerFold {
    type V = Seq<AssetFigures>;

    /// The figures, in the order of the first trade of their assets.
    closed spec fn view(&self) -> Seq<AssetFigures> {
        self.figures@
    }
}

impl LedgerFold {
    #[verifier::type_invariant]
    spec fn indexed(self) -> bool {
        places_match(self.places@, self.figures@)
    }

    /// The figures, in the order of the first trade of their assets.
    pub fn figures(&self) -> (figures: &Vec<AssetFigures>)
        ensures
            figures@ == self@,
    {
        &self.figures
    }

    /// The figures of the asset `token_id`, if it was traded.
    pub fn get(&self, token_id: u128) -> (found: Option<&AssetFigures>)
        ensures
            match found {
                Some(figures) => {
                    &&& figures.token_id == token_id
                    &&& exists|g: int| 0 <= g < self@.len() && self@[g] == *figures
                },
                None => forall|g: int| 0 <= g < self@.len() ==> self@[g].token_id != token_id,
            },
    {
        broadcast use vstd::std_specs::hash::group_hash_axioms;

        proof {
            use_type_invariant(self);
        }
        match self.places.get(&token_id) {
            Some(place) => {
                assert(self.places@.contains_key(token_id));
                assert(self@[*place as int] == self.figures[*place as int]);
                Some(&self.figures[*place])
            },
            None => {
                assert forall|g: int| 0 <= g < self@.len() implies self@[g].token_id
                    != token_id by {
                    assert(self.places@.contains_key(self.figures[g].token_id));
                }
                None
            },
        }
    }
}

/// Folds the ledger, in one pass, into the figures of every traded asset:
/// its volume and the holdings of its traders.
pub fn fold_ledger(trades: &Vec<Trade>) -> (fold: LedgerFold)
    ensures
        figures_match(fold@, trades.deep_view()),
{
    broadcast use vstd::std_specs::hash::group_hash_axioms;

    let mut figures: Vec<AssetFigures> = Vec::new();
    let mut places: HashMap<u128, usize> = HashMap::new();
    let mut i: usize = 0;
    let ghost ledger = trades.deep_view();
    while i < trades.len()
        invariant
            i <= trades.len(),
            ledger == trades.deep_view(),
            figures_match(figures@, ledger.take(i as int)),
            places_match(places@, figures@),
        decreases trades.len() - i,
    {
        let trade = &trades[i];
        let ghost before = ledger.take(i as int);
        let ghost after = ledger.take(i + 1);
        let ghost assets = traded_assets(before);
        proof {
            assert(after =~= before.push(trade@));
            assert(after.drop_last() =~= before);
            lemma_traded_assets_distinct(before);
            lemma_traded_assets_distinct(after);
            lemma_traded_assets_have_trades(before, trade.token_id);
            assert(i * amount_bound() + amount_bound() == (i + 1) * amount_bound())
                by (nonlinear_arith);
            assert((i + 1) * amount_bound() <= i128::MAX) by (nonlinear_arith)
                requires
                    i + 1 <= 0xffff_ffff_ffff_ffff,
                    amount_bound() == 0x8000_0000_0000_0000,
            ;
        }
        let found: Option<usize> = match places.get(&trade.token_id) {
            Some(place) => Some(*place),
            None => None,
        };
        let g: usize = match found {
            Some(g) => {
                proof {
                    assert(places@.contains_key(trade.token_id));
                    assert(assets[g as int] == trade.token_id);
                    assert(assets.contains(trade.token_id));
                }
                g
            },
            None => {
                proof {
                    if assets.contains(trade.token_id) {
                        let h = choose|h: int| 0 <= h < assets.len() && assets[h] == trade.token_id;
                        assert(figures[h].token_id == assets[h]);
                    }
                    lemma_untraded_asset_is_empty(before, trade.token_id, trade.user_address@);
                }
                let fresh = AssetFigures {
                    token_id: trade.token_id,
                    volume: 0,
                    holders: Vec::new(),
                };
                assert(fresh.holders.deep_view() =~= Seq::<HoldingView>::empty());
                assert(net_values(fresh.holders.deep_view()) =~= Seq::<int>::empty());
                let ghost known = figures@;
                let place: usize = figures.len();
                figures.push(fresh);
                places.insert(trade.token_id, place);
                proof {
                    assert forall|h: int| 0 <= h < figures.len() implies {
                        &&& places@.contains_key((#[trigger] figures[h]).token_id)
                        &&& places@[figures[h].token_id] == h
                    } by {
                        if h < place {
                            assert(figures[h] == known[h]);
                        }
                    }
                }
                place
            },
        };
        let ghost ready = figures@;
        proof {
            assert(ready.len() == traded_assets(after).len());
            assert forall|h: int| 0 <= h < ready.len() implies {
                &&& (#[trigger] ready[h]).token_id == traded_assets(after)[h]
                &&& ready[h].describes(before)
                &&& ready[h].within(i as nat)
            } by {}
        }
        figures[g].volume = figures[g].volume + trade.sol_amount as i128;
        record_holding(&mut figures[g].holders, trade, Ghost(before));
        proof {
            let done = figures@;
            assert forall|h: int| 0 <= h < done.len() implies (#[trigger] done[h]).token_id
                == ready[h].token_id by {
                if h != g {
                    assert(done[h] == ready[h]);
                }
            }
            assert forall|h: int| 0 <= h < done.len() implies {
                &&& (#[trigger] done[h]).token_id == traded_assets(after)[h]
                &&& done[h].describes(after)
                &&& done[h].within(after.len())
            } by {
                if h != g {
                    assert(done[h] == ready[h]);
                    assert(traded_assets(after)[h] != traded_assets(after)[g as int]);
                    lemma_foreign_trade(
                        ready[h].holders.deep_view(),
                        before,
                        trade@,
                        ready[h].token_id,
                    );
                    assert(ready[h].within((i + 1) as nat)) by (nonlinear_arith)
                        requires
                            ready[h].within(i as nat),
                            amount_bound() >= 0,
                    ;
                }
            }
        }
        i = i + 1;
    }
    proof {
        assert(ledger.take(trades.len() as int) =~= ledger);
    }
    LedgerFold { figures, places }
}

} // verus!
