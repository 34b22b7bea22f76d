//! Asset rows: the row of a newly created asset, and the statement that
//! writes the bonding state of every asset back in one batch.

use vstd::prelude::*;
use vstd::string::StringExecFns;
use crate::clock::now_micros;
use crate::ids::{is_random_id, new_id};
use crate::state::BondingStateStore;
use crate::text::{decimal, push_decimal};
use crate::types::{
    BondStatus, BondingCurveAndMcInfo, CreateEvent, CreateEventView, Token, TokenView,
};

verus! {

/// The row of the asset that `event` creates, with the identifier `id` and
/// stamped with the time `now`: newly launched, with no progress on its
/// curve and a market capitalisation of zero.
pub open spec fn new_token(id: u128, now: i64, event: CreateEventView) -> TokenView {
    TokenView {
        id,
        created_at: now,
        updated_at: now,
        name: event.name,
        ticker: event.symbol,
        contract_address: event.mint,
        bonding_curve_percentage: 0,
        bond_status: BondStatus::NewlyLaunched,
        market_cap: Some(0i64),
        uri: event.uri,
        bonding_curve_address: event.bonding_curve,
        creator_address: event.creator,
    }
}

/// Builds the row of a newly created asset from its creation event, an
/// identifier and a time.
pub fn token_from_event(id: u128, now: i64, event: &CreateEvent) -> (token: Token)
    ensures
        token@ == new_token(id, now, event@),
{
    Token {
        id,
        created_at: now,
        updated_at: now,
        name: event.name.clone(),
        ticker: event.symbol.clone(),
        contract_address: event.mint.clone(),
        bonding_curve_percentage: 0,
        bond_status: BondStatus::NewlyLaunched,
        market_cap: Some(0),
        uri: event.uri.clone(),
        bonding_curve_address: event.bonding_curve.clone(),
        creator_address: event.creator.clone(),
    }
}

/// Builds the row of a newly created asset under a freshly drawn identifier,
/// stamped with the current time.
pub fn create_token(create_event: &CreateEvent) -> (token: Token)
    ensures
        token@ == new_token(token.id, token.created_at, create_event@),
        is_random_id(token.id),
        token.created_at >= 0,
{
    let id: u128 = new_id();
    let now: i64 = now_micros();
    token_from_event(id, now, create_event)
}

/// Seconds between two write-backs of the bonding state of every asset.
pub const STATE_FLUSH_INTERVAL_SECS: u64 = 10;

/// The text before the value groups of the update statement.
pub open spec fn update_head() -> Seq<char> {
    "UPDATE token AS t SET market_cap = u.market_cap, bonding_curve_percentage = u.bonding_curve_percentage FROM (VALUES"@
}

/// The text after the value groups of the update statement.
pub open spec fn update_tail() -> Seq<char> {
    ") AS u(contract_address, market_cap, bonding_curve_percentage) WHERE u.contract_address = t.contract_address"@
}

/// The `number`-th positional parameter: a dollar sign and the number.
pub open spec fn placeholder(number: nat) -> Seq<char> {
    "$"@ + decimal(number)
}

/// The value group of the `row`-th row, rows counted from zero: its three
/// positional parameters, numbered on from those of the rows before it.
pub open spec fn value_group(row: nat) -> Seq<char> {
    "("@ + placeholder(3 * row + 1) + ", "@ + placeholder(3 * row + 2) + ", "@ + placeholder(
        3 * row + 3,
    ) + ")"@
}

/// The value groups of the first `rows` rows, separated by commas.
pub open spec fn value_groups(rows: nat) -> Seq<char>
    decreases rows,
{
    if rows == 0 {
        Seq::empty()
    } else if rows == 1 {
        value_group(0)
    } else {
        value_groups((rows - 1) as nat) + ", "@ + value_group((rows - 1) as nat)
    }
}

/// The statement that updates the market capitalisation and the percentage
/// of `rows` assets, found by their contract addresses.
pub open spec fn update_statement(rows: nat) -> Seq<char> {
    update_head() + value_groups(rows) + update_tail()
}

/// One batched update of the bonding state of every asset: the statement,
/// and the rows whose contract address, market capitalisation and
/// percentage are its parameters, three for each row, in this order.
#[derive(Debug)]
pub struct StateUpdate {
    pub sql: String,
    pub rows: Vec<BondingCurveAndMcInfo>,
}

/// Appends the value group of the `row`-th row to `sql`.
fn push_value_group(sql: &mut String, row: usize)
    ensures
        final(sql)@ == old(sql)@ + value_group(row as nat),
{
    let base: u128 = (row as u128) * 3;
    sql.append("($");
    push_decimal(sql, base + 1);
    sql.append(", $");
    push_decimal(sql, base + 2);
    sql.append(", $");
    push_decimal(sql, base + 3);
    sql.append(")");
    proof {
        reveal_strlit("($");
        reveal_strlit(", $");
        reveal_strlit("(");
        reveal_strlit(", ");
        reveal_strlit("$");
        assert("($"@ =~= "("@ + "$"@);
        assert(", $"@ =~= ", "@ + "$"@);
        assert(sql@ =~= old(sql)@ + value_group(row as nat));
    }
}

/// Builds the statement that updates `rows` assets.
pub fn update_sql(rows: usize) -> (sql: String)
    ensures
        sql@ == update_statement(rows as nat),
{
    let mut sql: String = String::from_str(
        "UPDATE token AS t SET market_cap = u.market_cap, bonding_curve_percentage = u.bonding_curve_percentage FROM (VALUES",
    );
    let mut row: usize = 0;
    while row < rows
        invariant
            row <= rows,
            sql@ == update_head() + value_groups(row as nat),
        decreases rows - row,
    {
        let ghost before = sql@;
        if row > 0 {
            sql.append(", ");
        }
        push_value_group(&mut sql, row);
        proof {
            assert(sql@ =~= update_head() + value_groups((row + 1) as nat));
        }
        row = row + 1;
    }
    sql.append(
        ") AS u(contract_address, market_cap, bonding_curve_percentage) WHERE u.contract_address = t.contract_address",
    );
    sql
}

/// Prepares the batched update that writes the bonding state of every asset
/// of the store back. There is nothing to write for an empty store.
pub fn update_bonding_curve_and_market_cap(updates: &BondingStateStore) -> (update: Option<
    StateUpdate,
>)
    ensures
        match update {
            Some(update) => {
                &&& updates.rows().len() > 0
                &&& update.rows.deep_view() == updates.rows()
                &&& update.sql@ == update_statement(updates.rows().len())
            },
            None => updates.rows().len() == 0,
        },
{
    let rows: Vec<BondingCurveAndMcInfo> = updates.snapshot_all();
    if rows.len() == 0 {
        return None;
    }
    let sql: String = update_sql(rows.len());
    Some(StateUpdate { sql, rows })
}

} // verus!
