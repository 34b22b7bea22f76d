//! The trade buffer and the batches in which buffered trades are persisted.
//!
//! Trades wait in a first-in first-out buffer that never refuses one. A
//! flush takes everything that waits in one step and turns it into one
//! batch, column by column; the rows of a batch find their asset by its
//! contract address when they are written.

use vstd::prelude::*;
use vstd::utf8::{decode_utf8, valid_utf8};
use crate::clock::now_micros;
use crate::ids::{is_random_id, new_id};
use crate::text::text_of;
use crate::types::{Token, TokenView, Trade, TradeInfo, TradeInfoView, TradeView};

verus! {

/// Number of waiting trades above which the buffer reports that it runs
/// high.
pub const HIGH_WATER_MARK: usize = 10_000;

/// Seconds between two flushes of the trade buffer.
pub const FLUSH_INTERVAL_SECS: u64 = 10;

/// Number of values that a pushed message must hold to carry a payload.
pub const MESSAGE_PARTS: usize = 3;

/// One value of a message pushed by the queue's backing store.
#[derive(Debug)]
pub enum PushValue {
    /// A string of bytes.
    BulkString(Vec<u8>),
    /// Any other value.
    Other,
}

/// Why a pushed message carries no trade.
#[derive(Debug, Clone, Copy, PartialEq, Eq, Structural)]
pub enum MessageError {
    /// The message holds fewer than three values.
    InsufficientData,
    /// The third value of the message is no string of bytes.
    UnexpectedFormat,
    /// The payload of the message is no text in UTF-8.
    InvalidUtf8,
}

/// Takes the payload out of a pushed message: the bytes of its third value.
pub fn trade_payload(message: &Vec<PushValue>) -> (payload: Result<Vec<u8>, MessageError>)
    ensures
        match payload {
            Ok(bytes) => message.len() >= MESSAGE_PARTS && (message[2] matches PushValue::BulkString(
                data,
            ) && bytes@ == data@),
            Err(MessageError::InsufficientData) => message.len() < MESSAGE_PARTS,
            Err(MessageError::UnexpectedFormat) => message.len() >= MESSAGE_PARTS
                && message[2] is Other,
            Err(MessageError::InvalidUtf8) => false,
        },
{
    if message.len() < MESSAGE_PARTS {
        return Err(MessageError::InsufficientData);
    }
    match &message[2] {
        PushValue::BulkString(data) => {
            let mut bytes: Vec<u8> = Vec::new();
            let mut at: usize = 0;
            while at < data.len()
                invariant
                    at <= data.len(),
                    bytes@ == data@.take(at as int),
                decreases data.len() - at,
            {
                bytes.push(data[at]);
                assert(data@.take(at + 1) =~= data@.take(at as int).push(data[at as int]));
                at = at + 1;
            }
            assert(data@.take(data.len() as int) =~= data@);
            Ok(bytes)
        },
        PushValue::Other => Err(MessageError::UnexpectedFormat),
    }
}

/// Takes the payload out of a pushed message and reads it as text: the
/// text that the bytes of its third value encode in UTF-8.
pub fn trade_text(message: &Vec<PushValue>) -> (text: Result<String, MessageError>)
    ensures
        match text {
            Ok(text) => message.len() >= MESSAGE_PARTS && (message[2] matches PushValue::BulkString(
                data,
            ) && valid_utf8(data@) && text@ == decode_utf8(data@)),
            Err(MessageError::InsufficientData) => message.len() < MESSAGE_PARTS,
            Err(MessageError::UnexpectedFormat) => message.len() >= MESSAGE_PARTS
                && message[2] is Other,
            Err(MessageError::InvalidUtf8) => message.len() >= MESSAGE_PARTS && (
            message[2] matches PushValue::BulkString(data) && !valid_utf8(data@)),
        },
{
    match trade_payload(message) {
        Ok(bytes) => match text_of(&bytes) {
            Some(text) => Ok(text),
            None => Err(MessageError::InvalidUtf8),
        },
        Err(error) => Err(error),
    }
}

/// The trades that wait to be persisted, oldest first.
pub struct TradeBuffer {
    pending: Vec<TradeInfo>,
}

impl View for TradeBuffer {
    type V = Seq<TradeInfoView>;

    /// The waiting trades, oldest first.
    closed spec fn view(&self) -> Seq<TradeInfoView> {
        self.pending.deep_view()
    }
}

impl TradeBuffer {
    /// Makes an empty buffer.
    pub fn new() -> (buffer: Self)
        ensures
            buffer@ == Seq::<TradeInfoView>::empty(),
    {
        let buffer = TradeBuffer { pending: Vec::new() };
        assert(buffer.pending.deep_view() =~= Seq::<TradeInfoView>::empty());
        buffer
    }

    /// Number of waiting trades.
    pub fn len(&self) -> (count: usize)
        ensures
            count == self@.len(),
    {
        self.pending.len()
    }

    /// Tells whether no trade waits.
    pub fn is_empty(&self) -> (empty: bool)
        ensures
            empty == (self@.len() == 0),
    {
        self.pending.len() == 0
    }

    /// Puts a trade behind those that wait. The buffer never refuses a
    /// trade; it tells whether more than [`HIGH_WATER_MARK`] trades wait
    /// now.
    pub fn enqueue(&mut self, trade: TradeInfo) -> (high: bool)
        ensures
            final(self)@ == old(self)@.push(trade@),
            high == (final(self)@.len() > HIGH_WATER_MARK),
    {
        let ghost before = self.pending.deep_view();
        self.pending.push(trade);
        assert(self.pending.deep_view() =~= before.push(trade@));
        self.pending.len() > HIGH_WATER_MARK
    }

    /// Takes every waiting trade out in one step, oldest first, and leaves
    /// the buffer empty.
    pub fn drain(&mut self) -> (drained: Vec<TradeInfo>)
        ensures
            drained.deep_view() == old(self)@,
            final(self)@ == Seq::<TradeInfoView>::empty(),
    {
        let mut drained: Vec<TradeInfo> = Vec::new();
        assert(drained.deep_view() =~= Seq::<TradeInfoView>::empty());
        core::mem::swap(&mut self.pending, &mut drained);
        drained
    }
}

/// An amount as the ledger holds it: the 64 bits of `amount` read as a
/// signed number.
pub open spec fn signed(amount: u64) -> i64 {
    if amount <= i64::MAX {
        amount as i64
    } else {
        (amount - 0x1_0000_0000_0000_0000) as i64
    }
}

/// Reads the 64 bits of an amount as a signed number.
pub fn as_signed(amount: u64) -> (value: i64)
    ensures
        value == signed(amount),
{
    if amount <= 0x7fff_ffff_ffff_ffff {
        amount as i64
    } else {
        ((amount - 0x8000_0000_0000_0000) as i64) + i64::MIN
    }
}

/// One row of a batch.
pub struct BatchRow {
    pub id: u128,
    pub sol_amount: i64,
    pub token_amount: i64,
    pub is_buy: bool,
    pub user: Seq<char>,
    pub created_at: i64,
    pub updated_at: i64,
    pub contract_address: Seq<char>,
}

/// The row that persists `trade` under the identifier `id`, stamped with
/// the time `now`.
pub open spec fn row_for(id: u128, now: i64, trade: TradeInfoView) -> BatchRow {
    BatchRow {
        id,
        sol_amount: signed(trade.sol_amount),
        token_amount: signed(trade.token_amount),
        is_buy: trade.is_buy,
        user: trade.user,
        created_at: now,
        updated_at: now,
        contract_address: trade.mint,
    }
}

/// The trades of one flush, ready for one multi-row insert: one column per
/// field, the `i`-th values of all columns making up the `i`-th row.
#[derive(Debug)]
pub struct TradeBatch {
    pub ids: Vec<u128>,
    pub sol_amounts: Vec<i64>,
    pub token_amounts: Vec<i64>,
    pub is_buys: Vec<bool>,
    pub users: Vec<String>,
    pub created_ats: Vec<i64>,
    pub updated_ats: Vec<i64>,
    pub contract_addresses: Vec<String>,
}

impl TradeBatch {
    /// Whether all columns have the same length.
    pub open spec fn well_formed(&self) -> bool {
        &&& self.sol_amounts.len() == self.ids.len()
        &&& self.token_amounts.len() == self.ids.len()
        &&& self.is_buys.len() == self.ids.len()
        &&& self.users.len() == self.ids.len()
        &&& self.created_ats.len() == self.ids.len()
        &&& self.updated_ats.len() == self.ids.len()
        &&& self.contract_addresses.len() == self.ids.len()
    }

    /// The `i`-th row.
    pub open spec fn row(&self, i: int) -> BatchRow {
        BatchRow {
            id: self.ids[i],
            sol_amount: self.sol_amounts[i],
            token_amount: self.token_amounts[i],
            is_buy: self.is_buys[i],
            user: self.users[i]@,
            created_at: self.created_ats[i],
            updated_at: self.updated_ats[i],
            contract_address: self.contract_addresses[i]@,
        }
    }

    /// The rows of the batch, in their order.
    pub open spec fn rows(&self) -> Seq<BatchRow> {
        Seq::new(self.ids.len() as nat, |i: int| self.row(i))
    }

    /// Makes a batch without rows.
    pub fn new() -> (batch: Self)
        ensures
            batch.well_formed(),
            batch.rows() == Seq::<BatchRow>::empty(),
    {
        let batch = TradeBatch {
            ids: Vec::new(),
            sol_amounts: Vec::new(),
            token_amounts: Vec::new(),
            is_buys: Vec::new(),
            users: Vec::new(),
            created_ats: Vec::new(),
            updated_ats: Vec::new(),
            contract_addresses: Vec::new(),
        };
        assert(batch.rows() =~= Seq::<BatchRow>::empty());
        batch
    }

    /// Number of rows.
    pub fn len(&self) -> (count: usize)
        ensures
            count == self.rows().len(),
    {
        self.ids.len()
    }

    /// Tells whether all columns have the same length.
    pub fn is_well_formed(&self) -> (well_formed: bool)
        ensures
            well_formed == self.well_formed(),
    {
        let rows: usize = self.ids.len();
        self.sol_amounts.len() == rows && self.token_amounts.len() == rows && self.is_buys.len()
            == rows && self.users.len() == rows && self.created_ats.len() == rows
            && self.updated_ats.len() == rows && self.contract_addresses.len() == rows
    }

    /// Adds the row that persists `trade` under the identifier `id`,
    /// stamped with the time `now`.
    pub fn push_row(&mut self, id: u128, now: i64, trade: &TradeInfo)
        requires
            old(self).well_formed(),
        ensures
            final(self).well_formed(),
            final(self).rows() == old(self).rows().push(row_for(id, now, trade@)),
    {
        self.ids.push(id);
        self.sol_amounts.push(as_signed(trade.sol_amount));
        self.token_amounts.push(as_signed(trade.token_amount));
        self.is_buys.push(trade.is_buy);
        self.users.push(trade.user.clone());
        self.created_ats.push(now);
        self.updated_ats.push(now);
        self.contract_addresses.push(trade.mint.clone());
        assert(self.rows() =~= old(self).rows().push(row_for(id, now, trade@)));
    }
}

/// Whether `rows` persist `trades`, one row for each trade in the same
/// order, every row stamped with the time `now` and carrying a randomly
/// drawn identifier.
pub open spec fn persists(rows: Seq<BatchRow>, trades: Seq<TradeInfoView>, now: i64) -> bool {
    &&& rows.len() == trades.len()
    &&& forall|i: int|
        0 <= i < rows.len() ==> {
            &&& #[trigger] rows[i] == row_for(rows[i].id, now, trades[i])
            &&& is_random_id(rows[i].id)
        }
}

/// Turns trades into one batch stamped with the time `now`, drawing a fresh
/// identifier for each trade.
pub fn build_batch(trades: &Vec<TradeInfo>, now: i64) -> (batch: TradeBatch)
    ensures
        batch.well_formed(),
        persists(batch.rows(), trades.deep_view(), now),
{
    let mut batch = TradeBatch::new();
    let mut at: usize = 0;
    while at < trades.len()
        invariant
            at <= trades.len(),
            batch.well_formed(),
            persists(batch.rows(), trades.deep_view().take(at as int), now),
        decreases trades.len() - at,
    {
        let ghost before = batch.rows();
        let id: u128 = new_id();
        batch.push_row(id, now, &trades[at]);
        proof {
            let after = batch.rows();
            let given = trades.deep_view();
            assert(given.take(at + 1) =~= given.take(at as int).push(trades[at as int]@));
            assert forall|i: int| 0 <= i < after.len() implies {
                &&& #[trigger] after[i] == row_for(after[i].id, now, given.take(at + 1)[i])
                &&& is_random_id(after[i].id)
            } by {
                if i < at {
                    assert(after[i] == before[i]);
                }
            }
        }
        at = at + 1;
    }
    assert(trades.deep_view().take(trades.len() as int) =~= trades.deep_view());
    batch
}

/// Flushes the buffer: takes every waiting trade out in one step and turns
/// them into one batch stamped with the current time. A flush of an empty
/// buffer gives no batch, so that nothing is written, and leaves the buffer
/// as it is.
pub fn flush_trades(buffer: &mut TradeBuffer) -> (flushed: Option<TradeBatch>)
    ensures
        final(buffer)@ == Seq::<TradeInfoView>::empty(),
        match flushed {
            Some(batch) => {
                &&& old(buffer)@.len() > 0
                &&& batch.well_formed()
                &&& batch.rows().len() > 0
                &&& batch.created_ats[0] >= 0
                &&& persists(batch.rows(), old(buffer)@, batch.created_ats[0])
            },
            None => old(buffer)@.len() == 0 && final(buffer)@ == old(buffer)@,
        },
{
    if buffer.is_empty() {
        assert(buffer@ =~= Seq::<TradeInfoView>::empty());
        return None;
    }
    let trades: Vec<TradeInfo> = buffer.drain();
    let now: i64 = now_micros();
    let batch = build_batch(&trades, now);
    proof {
        assert(batch.rows()[0] == row_for(batch.rows()[0].id, now, trades.deep_view()[0]));
    }
    Some(batch)
}

/// The asset among `tokens` that has the contract address `address`: the
/// first of them, if any.
pub open spec fn token_with(tokens: Seq<TokenView>, address: Seq<char>) -> Option<u128>
    decreases tokens.len(),
{
    if tokens.len() == 0 {
        None
    } else if tokens.first().contract_address == address {
        Some(tokens.first().id)
    } else {
        token_with(tokens.drop_first(), address)
    }
}

/// The ledger row that the batch row `row` gives for the asset `token_id`.
pub open spec fn trade_of(row: BatchRow, token_id: u128) -> TradeView {
    TradeView {
        id: row.id,
        sol_amount: row.sol_amount,
        token_amount: row.token_amount,
        is_buy: row.is_buy,
        user_address: row.user,
        token_id,
    }
}

/// The ledger rows that `rows` give when they are joined with `tokens` by
/// contract address: one for each row whose asset exists, in the order of
/// the rows. A row whose asset does not exist gives none.
pub open spec fn joined(rows: Seq<BatchRow>, tokens: Seq<TokenView>) -> Seq<TradeView>
    decreases rows.len(),
{
    if rows.len() == 0 {
        Seq::empty()
    } else {
        let earlier = joined(rows.drop_last(), tokens);
        match token_with(tokens, rows.last().contract_address) {
            Some(token_id) => earlier.push(trade_of(rows.last(), token_id)),
            None => earlier,
        }
    }
}

/// Finds the asset with the contract address `address` among `tokens`.
pub fn find_token(tokens: &Vec<Token>, address: &String) -> (found: Option<u128>)
    ensures
        found == token_with(tokens.deep_view(), address@),
{
    let ghost all = tokens.deep_view();
    let mut at: usize = 0;
    assert(all.skip(0) =~= all);
    while at < tokens.len()
        invariant
            at <= tokens.len(),
            all == tokens.deep_view(),
            token_with(all, address@) == token_with(all.skip(at as int), address@),
        decreases tokens.len() - at,
    {
        proof {
            assert(all.skip(at as int).first() == tokens[at as int]@);
            assert(all.skip(at as int).drop_first() =~= all.skip(at + 1));
        }
        if tokens[at].contract_address == *address {
            return Some(tokens[at].id);
        }
        at = at + 1;
    }
    assert(all.skip(tokens.len() as int) =~= Seq::<TokenView>::empty());
    None
}

/// Joins the rows of a batch with the asset table by contract address, as
/// the insert of the batch does: the ledger rows that the batch leaves
/// behind. Rows whose asset does not exist are skipped, one by one.
pub fn join_batch(batch: &TradeBatch, tokens: &Vec<Token>) -> (trades: Vec<Trade>)
    requires
        batch.well_formed(),
    ensures
        trades.deep_view() == joined(batch.rows(), tokens.deep_view()),
{
    let mut trades: Vec<Trade> = Vec::new();
    let mut at: usize = 0;
    let ghost rows = batch.rows();
    assert(trades.deep_view() =~= joined(rows.take(0), tokens.deep_view()));
    while at < batch.ids.len()
        invariant
            at <= batch.ids.len(),
            batch.well_formed(),
            rows == batch.rows(),
            trades.deep_view() == joined(rows.take(at as int), tokens.deep_view()),
        decreases batch.ids.len() - at,
    {
        let ghost before = trades.deep_view();
        proof {
            assert(rows.take(at + 1).drop_last() =~= rows.take(at as int));
            assert(rows.take(at + 1).last() == batch.row(at as int));
        }
        match find_token(tokens, &batch.contract_addresses[at]) {
            Some(token_id) => {
                let trade = Trade {
                    id: batch.ids[at],
                    sol_amount: batch.sol_amounts[at],
                    token_amount: batch.token_amounts[at],
                    is_buy: batch.is_buys[at],
                    user_address: batch.users[at].clone(),
                    token_id,
                };
                trades.push(trade);
                assert(trades.deep_view() =~= before.push(
                    trade_of(batch.row(at as int), token_id),
                ));
            },
            None => {},
        }
        at = at + 1;
    }
    assert(rows.take(batch.ids.len() as int) =~= rows);
    trades
}

} // verus!
