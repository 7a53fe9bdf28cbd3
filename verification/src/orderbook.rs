//! The order book engine: the live orders of one symbol, the volume per
//! price level, and the snapshot that follows every change.

use crate::book::reduced;
use crate::book::BookEvent;
use crate::book::BookState;
use crate::bytes::read_order_ref_be;
use crate::bytes::read_stock;
use crate::bytes::read_u32_be;
use crate::decode::event_of;
use crate::decode::ADD_PRICE_OFFSET;
use crate::decode::ADD_SHARES_OFFSET;
use crate::decode::AMOUNT_OFFSET;
use crate::decode::NEW_REF_OFFSET;
use crate::decode::REF_OFFSET;
use crate::decode::REPLACE_PRICE_OFFSET;
use crate::decode::REPLACE_SHARES_OFFSET;
use crate::decode::SIDE_OFFSET;
use crate::decode::STOCK_OFFSET;
use crate::levels::add_volume;
use crate::levels::highest_levels;
use crate::levels::lemma_top_levels_len;
use crate::levels::lowest_levels;
use crate::levels::pad_levels;
use crate::levels::remove_volume;
use crate::levels::top_levels;
use crate::levels::with_removed;
use crate::message_types::MessageType;
use crate::orders;
use crate::parser::stock_symbol_matches;
use crate::snapshot::snapshot_of;
use crate::snapshot::Snapshot;
use crate::snapshot::SnapshotView;
use crate::snapshot::FLUSH_INTERVAL;
use crate::snapshot::MAX_BOOK_DEPTH;
use rustc_hash::FxHashMap;
use std::collections::BTreeMap;
use vstd::prelude::*;

verus! {

/// The side of the book an order rests on.
#[derive(Debug, Clone, Copy, PartialEq, Eq, Structural)]
pub enum Side {
    Buy,
    Sell,
}

impl vstd::std_specs::convert::FromSpecImpl<u8> for Side {
    open spec fn obeys_from_spec() -> bool {
        true
    }

    /// `B` is the buy side; every other byte is the sell side.
    open spec fn from_spec(byte: u8) -> Side {
        if byte == 'B' as u8 {
            Side::Buy
        } else {
            Side::Sell
        }
    }
}

impl From<u8> for Side {
    fn from(byte: u8) -> (side: Side) {
        // 66 is `B`
        if byte == 66 {
            Side::Buy
        } else {
            Side::Sell
        }
    }
}

/// A live order.
#[derive(Debug, Clone, Copy, PartialEq, Eq)]
pub struct Order {
    /// The identity that the feed gives the order.
    pub ref_number: u64,
    /// Nanoseconds since midnight of the event that created the order.
    pub timestamp: u64,
    /// The price times 10,000.
    pub price: u32,
    /// The open quantity that is left.
    pub shares: u32,
    pub side: Side,
}

/// The aggregated open volume at one price.
#[derive(Debug, Clone, Copy, PartialEq, Eq, Structural)]
pub struct PriceLevel {
    /// The price times 10,000; zero in a row that stands for no level.
    pub price: u32,
    pub total_volume: u32,
}

/// The counter after one more was counted; it starts over past `u64::MAX`.
pub open spec fn next_count(count: u64) -> u64 {
    if count == u64::MAX {
        0
    } else {
        (count + 1) as u64
    }
}

/// What an engine holds: the symbol it tracks, the book, and its counters.
pub struct OrderBookView {
    pub symbol: Seq<u8>,
    pub book: BookState,
    /// The messages handed to the engine so far.
    pub message_count: u64,
    /// The snapshots produced so far.
    pub update_count: u64,
}

impl OrderBookView {
    /// The engine for `symbol` before any message.
    pub open spec fn fresh(symbol: Seq<u8>) -> OrderBookView {
        OrderBookView { symbol, book: BookState::empty(), message_count: 0, update_count: 0 }
    }

    /// The engine after one more message was counted.
    pub open spec fn received(self) -> OrderBookView {
        OrderBookView { message_count: next_count(self.message_count), ..self }
    }

    /// The engine after the book became `book` and a snapshot of it was
    /// taken at `timestamp`, and that snapshot.
    pub open spec fn emit(self, book: BookState, timestamp: u64) -> (OrderBookView, SnapshotView) {
        let updates = next_count(self.update_count);
        (
            OrderBookView { book, update_count: updates, ..self },
            snapshot_of(book, timestamp, updates),
        )
    }

    /// The engine after an event at `timestamp`, and the snapshot that
    /// follows it if the event touches the book.
    pub open spec fn apply(self, event: BookEvent, timestamp: u64) -> (
        OrderBookView,
        Option<SnapshotView>,
    ) {
        if self.book.touched_by(event) {
            let (next, row) = self.emit(self.book.apply(event, timestamp), timestamp);
            (next, Some(row))
        } else {
            (self, None)
        }
    }

    /// The engine after the payload of a message of class `message_type` was
    /// decoded and its event, if it stands for one, applied.
    pub open spec fn dispatch(self, message_type: MessageType, payload: Seq<u8>, timestamp: u64) -> (
        OrderBookView,
        Option<SnapshotView>,
    ) {
        match event_of(self.symbol, message_type, payload) {
            Some(event) => self.apply(event, timestamp),
            None => (self, None),
        }
    }

    /// The engine after a message was handled: it is counted, then
    /// dispatched.
    pub open spec fn handle(self, message_type: MessageType, payload: Seq<u8>, timestamp: u64) -> (
        OrderBookView,
        Option<SnapshotView>,
    ) {
        self.received().dispatch(message_type, payload, timestamp)
    }
}

/// The counters of an engine at the end of a run.
#[derive(Debug, Clone, Copy, PartialEq, Eq, Structural)]
pub struct Statistics {
    /// The messages handed to the engine.
    pub messages: u64,
    /// The snapshots that the engine produced.
    pub updates: u64,
}

/// What a snapshot holds, if there is one.
pub open spec fn row_view(row: Option<Snapshot>) -> Option<SnapshotView> {
    match row {
        Some(snapshot) => Some(snapshot@),
        None => None,
    }
}

/// Takes `amount` shares from the order `reference` of one side, if the side
/// has it, and says whether it had.
fn reduce_on_side(
    orders: &mut FxHashMap<u64, Order>,
    levels: &mut BTreeMap<u32, u32>,
    reference: u64,
    amount: u32,
) -> (found: bool)
    ensures
        found == old(orders)@.contains_key(reference),
        !found ==> final(orders)@ == old(orders)@ && final(levels)@ == old(levels)@,
        found ==> ({
            let order = old(orders)@[reference];
            let left = reduced(order.shares, amount);
            &&& final(levels)@ == with_removed(old(levels)@, order.price, amount)
            &&& final(orders)@ == (if left == 0 {
                old(orders)@.remove(reference)
            } else {
                old(orders)@.insert(
                    reference,
                    Order {
                        ref_number: order.ref_number,
                        timestamp: order.timestamp,
                        price: order.price,
                        shares: left,
                        side: order.side,
                    },
                )
            })
        }),
{
    match orders::lookup(orders, reference) {
        Some(order) => {
            let left: u32 = order.shares.saturating_sub(amount);
            remove_volume(levels, order.price, amount);
            if left == 0 {
                orders::discard(orders, reference);
            } else {
                orders::store(
                    orders,
                    reference,
                    Order {
                        ref_number: order.ref_number,
                        timestamp: order.timestamp,
                        price: order.price,
                        shares: left,
                        side: order.side,
                    },
                );
            }
            true
        },
        None => false,
    }
}

/// Takes the order `reference` from one side, if the side has it, and says
/// whether it had.
fn delete_on_side(
    orders: &mut FxHashMap<u64, Order>,
    levels: &mut BTreeMap<u32, u32>,
    reference: u64,
) -> (found: bool)
    ensures
        found == old(orders)@.contains_key(reference),
        !found ==> final(orders)@ == old(orders)@ && final(levels)@ == old(levels)@,
        found ==> ({
            let order = old(orders)@[reference];
            &&& final(levels)@ == with_removed(old(levels)@, order.price, order.shares)
            &&& final(orders)@ == old(orders)@.remove(reference)
        }),
{
    match orders::lookup(orders, reference) {
        Some(order) => {
            orders::discard(orders, reference);
            remove_volume(levels, order.price, order.shares);
            true
        },
        None => false,
    }
}

/// The book engine of one symbol.
pub struct OrderBook {
    symbol: [u8; 8],
    buy_orders: FxHashMap<u64, Order>,
    sell_orders: FxHashMap<u64, Order>,
    buy_price_map: BTreeMap<u32, u32>,
    sell_price_map: BTreeMap<u32, u32>,
    message_count: u64,
    update_count: u64,
}

impl View for OrderBook {
    type V = OrderBookView;

    closed spec fn view(&self) -> OrderBookView {
        OrderBookView {
            symbol: self.symbol@,
            book: BookState {
                buy_orders: self.buy_orders@,
                sell_orders: self.sell_orders@,
                buy_levels: self.buy_price_map@,
                sell_levels: self.sell_price_map@,
            },
            message_count: self.message_count,
            update_count: self.update_count,
        }
    }
}

impl OrderBook {
    /// An engine for `symbol` with an empty book.
    pub fn new(symbol: [u8; 8]) -> (book: OrderBook)
        ensures
            book@ == OrderBookView::fresh(symbol@),
    {
        OrderBook {
            symbol,
            buy_orders: FxHashMap::default(),
            sell_orders: FxHashMap::default(),
            buy_price_map: BTreeMap::new(),
            sell_price_map: BTreeMap::new(),
            message_count: 0,
            update_count: 0,
        }
    }

    /// The symbol that the engine tracks.
    pub fn symbol(&self) -> (symbol: [u8; 8])
        ensures
            symbol@ == self@.symbol,
    {
        self.symbol
    }

    /// The number of messages handed to the engine.
    pub fn message_count(&self) -> (count: u64)
        ensures
            count == self@.message_count,
    {
        self.message_count
    }

    /// The number of snapshots produced.
    pub fn update_count(&self) -> (count: u64)
        ensures
            count == self@.update_count,
    {
        self.update_count
    }

    /// The counters at the end of a run, for the caller to report once it
    /// has flushed its sink.
    pub fn finalize(&self) -> (statistics: Statistics)
        ensures
            statistics.messages == self@.message_count,
            statistics.updates == self@.update_count,
    {
        Statistics { messages: self.message_count, updates: self.update_count }
    }

    /// The `count` best bids, highest price first.
    pub fn get_top_bids(&self, count: usize) -> (bids: Vec<PriceLevel>)
        ensures
            bids@ == top_levels(self@.book.buy_levels, Side::Buy, count as nat),
    {
        highest_levels(&self.buy_price_map, count)
    }

    /// The `count` best asks, lowest price first.
    pub fn get_top_asks(&self, count: usize) -> (asks: Vec<PriceLevel>)
        ensures
            asks@ == top_levels(self@.book.sell_levels, Side::Sell, count as nat),
    {
        lowest_levels(&self.sell_price_map, count)
    }

    /// Counts one more snapshot and takes it: the ten best levels of each
    /// side, filled up with empty levels.
    fn emit_snapshot(&mut self, timestamp: u64) -> (row: Snapshot)
        ensures
            (final(self)@, row@) == old(self)@.emit(old(self)@.book, timestamp),
    {
        self.update_count = if self.update_count == u64::MAX {
            0
        } else {
            self.update_count + 1
        };
        proof {
            lemma_top_levels_len(self.buy_price_map@, Side::Buy, MAX_BOOK_DEPTH as nat);
            lemma_top_levels_len(self.sell_price_map@, Side::Sell, MAX_BOOK_DEPTH as nat);
        }
        let bids = pad_levels(self.get_top_bids(MAX_BOOK_DEPTH), MAX_BOOK_DEPTH);
        let asks = pad_levels(self.get_top_asks(MAX_BOOK_DEPTH), MAX_BOOK_DEPTH);
        Snapshot::new(timestamp, bids, asks, self.update_count % FLUSH_INTERVAL == 0)
    }

    /// Files `order` on its side, adds its shares to its level, and takes a
    /// snapshot with the order's timestamp.
    fn add_order(&mut self, order: Order) -> (row: Snapshot)
        ensures
            (final(self)@, row@) == old(self)@.emit(old(self)@.book.add(order), order.timestamp),
    {
        if order.side == Side::Buy {
            add_volume(&mut self.buy_price_map, order.price, order.shares);
            orders::store(&mut self.buy_orders, order.ref_number, order);
        } else {
            add_volume(&mut self.sell_price_map, order.price, order.shares);
            orders::store(&mut self.sell_orders, order.ref_number, order);
        }
        self.emit_snapshot(order.timestamp)
    }

    /// Takes `amount` shares from the order `reference`, looked up on the buy
    /// side first, and takes a snapshot if the order was found.
    fn reduce_order(&mut self, reference: u64, amount: u32, timestamp: u64) -> (row: Option<
        Snapshot,
    >)
        ensures
            (final(self)@, row_view(row)) == old(self)@.apply(
                BookEvent::Reduce { reference, amount },
                timestamp,
            ),
    {
        let found = if reduce_on_side(
            &mut self.buy_orders,
            &mut self.buy_price_map,
            reference,
            amount,
        ) {
            true
        } else {
            reduce_on_side(&mut self.sell_orders, &mut self.sell_price_map, reference, amount)
        };
        if found {
            Some(self.emit_snapshot(timestamp))
        } else {
            None
        }
    }

    /// Takes the order `reference` from the book, looked up on the buy side
    /// first, and takes a snapshot if the order was found.
    fn delete_order(&mut self, reference: u64, timestamp: u64) -> (row: Option<Snapshot>)
        ensures
            (final(self)@, row_view(row)) == old(self)@.apply(
                BookEvent::Delete { reference },
                timestamp,
            ),
    {
        let found = if delete_on_side(&mut self.buy_orders, &mut self.buy_price_map, reference) {
            true
        } else {
            delete_on_side(&mut self.sell_orders, &mut self.sell_price_map, reference)
        };
        if found {
            Some(self.emit_snapshot(timestamp))
        } else {
            None
        }
    }

    /// Replaces the order `original` by a new one on the same side, and
    /// takes one snapshot, of the book after both steps, if the order was
    /// found.
    fn replace_order(
        &mut self,
        original: u64,
        reference: u64,
        shares: u32,
        price: u32,
        timestamp: u64,
    ) -> (row: Option<Snapshot>)
        ensures
            (final(self)@, row_view(row)) == old(self)@.apply(
                BookEvent::Replace { original, reference, shares, price },
                timestamp,
            ),
    {
        let side: Option<Side> = if delete_on_side(
            &mut self.buy_orders,
            &mut self.buy_price_map,
            original,
        ) {
            Some(Side::Buy)
        } else if delete_on_side(&mut self.sell_orders, &mut self.sell_price_map, original) {
            Some(Side::Sell)
        } else {
            None
        };
        match side {
            Some(side) => {
                let order = Order { ref_number: reference, timestamp, price, shares, side };
                Some(self.add_order(order))
            },
            None => None,
        }
    }

    /// Applies an event that arrived at `timestamp` and hands out the
    /// snapshot that follows it, if the event touches the book.
    pub fn apply(&mut self, event: BookEvent, timestamp: u64) -> (row: Option<Snapshot>)
        ensures
            (final(self)@, row_view(row)) == old(self)@.apply(event, timestamp),
    {
        match event {
            BookEvent::Add { reference, side, shares, price } => {
                let order = Order { ref_number: reference, timestamp, price, shares, side };
                Some(self.add_order(order))
            },
            BookEvent::Reduce { reference, amount } => self.reduce_order(
                reference,
                amount,
                timestamp,
            ),
            BookEvent::Delete { reference } => self.delete_order(reference, timestamp),
            BookEvent::Replace { original, reference, shares, price } => self.replace_order(
                original,
                reference,
                shares,
                price,
                timestamp,
            ),
        }
    }

    /// Handles an add-order message: if it is for the engine's symbol, the
    /// order is added and a snapshot taken.
    pub fn handle_add_order(&mut self, data: &[u8], timestamp: u64) -> (row: Option<Snapshot>)
        requires
            data@.len() >= MessageType::AddOrder.min_payload(),
        ensures
            (final(self)@, row_view(row)) == old(self)@.dispatch(
                MessageType::AddOrder,
                data@,
                timestamp,
            ),
    {
        let stock = read_stock(data, STOCK_OFFSET);
        if !stock_symbol_matches(&stock, &self.symbol) {
            return None;
        }
        let reference = read_order_ref_be(data, REF_OFFSET);
        let side = Side::from(data[SIDE_OFFSET]);
        let shares = read_u32_be(data, ADD_SHARES_OFFSET);
        let price = read_u32_be(data, ADD_PRICE_OFFSET);
        self.apply(BookEvent::Add { reference, side, shares, price }, timestamp)
    }

    /// Handles an add-order message with attribution; the attribution is not
    /// read.
    pub fn handle_add_order_with_mpid(&mut self, data: &[u8], timestamp: u64) -> (row: Option<
        Snapshot,
    >)
        requires
            data@.len() >= MessageType::AddOrderWithMpid.min_payload(),
        ensures
            (final(self)@, row_view(row)) == old(self)@.dispatch(
                MessageType::AddOrderWithMpid,
                data@,
                timestamp,
            ),
    {
        let stock = read_stock(data, STOCK_OFFSET);
        if !stock_symbol_matches(&stock, &self.symbol) {
            return None;
        }
        let reference = read_order_ref_be(data, REF_OFFSET);
        let side = Side::from(data[SIDE_OFFSET]);
        let shares = read_u32_be(data, ADD_SHARES_OFFSET);
        let price = read_u32_be(data, ADD_PRICE_OFFSET);
        self.apply(BookEvent::Add { reference, side, shares, price }, timestamp)
    }

    /// Handles an execution: the order and its level lose the executed
    /// shares.
    pub fn handle_order_executed(&mut self, data: &[u8], timestamp: u64) -> (row: Option<Snapshot>)
        requires
            data@.len() >= MessageType::OrderExecuted.min_payload(),
        ensures
            (final(self)@, row_view(row)) == old(self)@.dispatch(
                MessageType::OrderExecuted,
                data@,
                timestamp,
            ),
    {
        let reference = read_order_ref_be(data, REF_OFFSET);
        let executed_shares = read_u32_be(data, AMOUNT_OFFSET);
        self.reduce_order(reference, executed_shares, timestamp)
    }

    /// Handles an execution at a price of its own. The price is that of the
    /// print; the order keeps the price it rests at.
    pub fn handle_order_executed_with_price(&mut self, data: &[u8], timestamp: u64) -> (row:
        Option<Snapshot>)
        requires
            data@.len() >= MessageType::OrderExecutedWithPrice.min_payload(),
        ensures
            (final(self)@, row_view(row)) == old(self)@.dispatch(
                MessageType::OrderExecutedWithPrice,
                data@,
                timestamp,
            ),
    {
        let reference = read_order_ref_be(data, REF_OFFSET);
        let executed_shares = read_u32_be(data, AMOUNT_OFFSET);
        self.reduce_order(reference, executed_shares, timestamp)
    }

    /// Handles a partial cancellation: the order and its level lose the
    /// cancelled shares.
    pub fn handle_order_cancel(&mut self, data: &[u8], timestamp: u64) -> (row: Option<Snapshot>)
        requires
            data@.len() >= MessageType::OrderCancel.min_payload(),
        ensures
            (final(self)@, row_view(row)) == old(self)@.dispatch(
                MessageType::OrderCancel,
                data@,
                timestamp,
            ),
    {
        let reference = read_order_ref_be(data, REF_OFFSET);
        let cancelled_shares = read_u32_be(data, AMOUNT_OFFSET);
        self.reduce_order(reference, cancelled_shares, timestamp)
    }

    /// Handles a deletion: the order leaves the book.
    pub fn handle_order_delete(&mut self, data: &[u8], timestamp: u64) -> (row: Option<Snapshot>)
        requires
            data@.len() >= MessageType::OrderDelete.min_payload(),
        ensures
            (final(self)@, row_view(row)) == old(self)@.dispatch(
                MessageType::OrderDelete,
                data@,
                timestamp,
            ),
    {
        let reference = read_order_ref_be(data, REF_OFFSET);
        self.delete_order(reference, timestamp)
    }

    /// Handles a replacement: the old order leaves the book and a new one
    /// takes its side.
    pub fn handle_order_replace(&mut self, data: &[u8], timestamp: u64) -> (row: Option<Snapshot>)
        requires
            data@.len() >= MessageType::OrderReplace.min_payload(),
        ensures
            (final(self)@, row_view(row)) == old(self)@.dispatch(
                MessageType::OrderReplace,
                data@,
                timestamp,
            ),
    {
        let original = read_order_ref_be(data, REF_OFFSET);
        let reference = read_order_ref_be(data, NEW_REF_OFFSET);
        let shares = read_u32_be(data, REPLACE_SHARES_OFFSET);
        let price = read_u32_be(data, REPLACE_PRICE_OFFSET);
        self.replace_order(original, reference, shares, price, timestamp)
    }

    /// Handles a trade message. A trade never changes the book; the result
    /// says whether the trade is in the engine's symbol.
    pub fn handle_trade(&mut self, data: &[u8]) -> (ours: bool)
        requires
            data@.len() >= MessageType::Trade.min_payload(),
        ensures
            final(self)@ == old(self)@,
            ours == (crate::decode::stock_of(data@) == old(self)@.symbol),
    {
        let stock = read_stock(data, STOCK_OFFSET);
        stock_symbol_matches(&stock, &self.symbol)
    }

    /// Counts the message and hands its payload to the handler of its class.
    /// The result is the snapshot to write, if the message touched the book.
    pub fn handle_message(&mut self, message_type: MessageType, data: &[u8], timestamp: u64) -> (row:
        Option<Snapshot>)
        requires
            data@.len() >= message_type.min_payload(),
        ensures
            (final(self)@, row_view(row)) == old(self)@.handle(message_type, data@, timestamp),
    {
        self.message_count = if self.message_count == u64::MAX {
            0
        } else {
            self.message_count + 1
        };
        match message_type {
            MessageType::AddOrder => self.handle_add_order(data, timestamp),
            MessageType::AddOrderWithMpid => self.handle_add_order_with_mpid(data, timestamp),
            MessageType::OrderExecuted => self.handle_order_executed(data, timestamp),
            MessageType::OrderExecutedWithPrice => self.handle_order_executed_with_price(
                data,
                timestamp,
            ),
            MessageType::OrderCancel => self.handle_order_cancel(data, timestamp),
            MessageType::OrderDelete => self.handle_order_delete(data, timestamp),
            MessageType::OrderReplace => self.handle_order_replace(data, timestamp),
            MessageType::Trade => {
                self.handle_trade(data);
                None
            },
            _ => None,
        }
    }
}

} // verus!
