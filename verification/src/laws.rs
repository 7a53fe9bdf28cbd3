//! Laws of the engine that relate several events: unknown references,
//! over-execution, an addition undone by a deletion, and whole feeds of
//! regular events.

use crate::book::BookEvent;
use crate::book::BookState;
use crate::consistency::lemma_event_keeps_consistent;
use crate::decode::event_of;
use crate::depth::lemma_snapshot_is_well_shaped;
use crate::depth::well_shaped;
use crate::decode::stock_of;
use crate::message_types::MessageType;
use crate::levels::volume_at;
use crate::orderbook::next_count;
use crate::orderbook::Order;
use crate::orderbook::OrderBookView;
use crate::orderbook::Side;
use crate::parser::after_feed;
use crate::parser::after_frame;
use crate::parser::frame_end;
use crate::parser::frame_payload;
use crate::parser::frame_timestamp;
use crate::parser::frame_type;
use crate::parser::has_frame;
use crate::parser::is_dispatched;
use crate::parser::rows_of;
use crate::snapshot::SnapshotView;
use vstd::prelude::*;

verus! {

/// The reference number that an event looks up, if it looks one up.
pub open spec fn looked_up(event: BookEvent) -> Option<u64> {
    match event {
        BookEvent::Add { .. } => None,
        BookEvent::Reduce { reference, .. } => Some(reference),
        BookEvent::Delete { reference } => Some(reference),
        BookEvent::Replace { original, .. } => Some(original),
    }
}

/// An execution, cancellation, deletion or replacement of a reference number
/// that is not live changes nothing and gives no snapshot.
pub proof fn lemma_unknown_reference_is_ignored(
    engine: OrderBookView,
    event: BookEvent,
    timestamp: u64,
)
    requires
        looked_up(event) is Some,
        engine.book.side_of(looked_up(event)->0) is None,
    ensures
        engine.apply(event, timestamp) == (engine, None::<SnapshotView>),
        engine.book.apply(event, timestamp) == engine.book,
{
}

/// Once an order is deleted, deleting it again changes nothing, in a book
/// where no reference number is live on both sides.
pub proof fn lemma_delete_twice(book: BookState, reference: u64)
    requires
        !(book.buy_orders.contains_key(reference) && book.sell_orders.contains_key(reference)),
    ensures
        book.delete(reference).side_of(reference) is None,
        book.delete(reference).delete(reference) == book.delete(reference),
{
}

/// A reduction never leaves an order with more shares than it had, and one
/// that takes as many shares as the order has, or more, removes the order.
pub proof fn lemma_reduction_stops_at_zero(book: BookState, reference: u64, amount: u32)
    requires
        book.side_of(reference) is Some,
    ensures
        ({
            let side = book.side_of(reference)->0;
            let before = book.orders(side)[reference];
            let after = book.reduce(reference, amount).orders(side);
            &&& amount >= before.shares ==> !after.contains_key(reference)
            &&& amount < before.shares ==> after.contains_key(reference) && after[reference].shares
                == before.shares - amount && after[reference].price == before.price
            &&& volume_at(book.reduce(reference, amount).levels(side), before.price) == (if amount
                >= volume_at(book.levels(side), before.price) {
                0
            } else {
                volume_at(book.levels(side), before.price) - amount
            })
        }),
{
}

/// An addition that is followed by the deletion of the same reference number
/// leaves the book as it was before the two. This holds where the deletion
/// finds the added order, the level has room for its shares, and the book
/// holds no empty level at its price.
pub proof fn lemma_add_then_delete(book: BookState, order: Order)
    requires
        !book.buy_orders.contains_key(order.ref_number),
        order.side is Sell ==> !book.sell_orders.contains_key(order.ref_number),
        volume_at(book.levels(order.side), order.price) + order.shares <= u32::MAX,
        book.levels(order.side).contains_key(order.price) ==> book.levels(order.side)[order.price]
            > 0,
    ensures
        book.add(order).delete(order.ref_number) == book,
{
    let after = book.add(order).delete(order.ref_number);
    assert(after.buy_orders =~= book.buy_orders);
    assert(after.sell_orders =~= book.sell_orders);
    assert(after.buy_levels =~= book.buy_levels);
    assert(after.sell_levels =~= book.sell_levels);
}

/// The same for the engine: after an addition and the deletion of the same
/// reference number the book is as before, and two snapshots were taken.
pub proof fn lemma_add_then_delete_emits_twice(
    engine: OrderBookView,
    reference: u64,
    side: Side,
    shares: u32,
    price: u32,
    added_at: u64,
    deleted_at: u64,
)
    requires
        !engine.book.buy_orders.contains_key(reference),
        side is Sell ==> !engine.book.sell_orders.contains_key(reference),
        volume_at(engine.book.levels(side), price) + shares <= u32::MAX,
        engine.book.levels(side).contains_key(price) ==> engine.book.levels(side)[price] > 0,
    ensures
        ({
            let (added, first) = engine.apply(
                BookEvent::Add { reference, side, shares, price },
                added_at,
            );
            let (deleted, second) = added.apply(BookEvent::Delete { reference }, deleted_at);
            &&& first is Some
            &&& second is Some
            &&& deleted.book == engine.book
            &&& deleted.update_count == next_count(next_count(engine.update_count))
            &&& deleted.symbol == engine.symbol
            &&& deleted.message_count == engine.message_count
        }),
{
    let order = Order { ref_number: reference, timestamp: added_at, price, shares, side };
    lemma_add_then_delete(engine.book, order);
}

/// A message that carries another symbol than the engine's is counted and
/// dropped: the book stays as it is and no snapshot follows.
pub proof fn lemma_other_symbol_is_dropped(
    engine: OrderBookView,
    message_type: MessageType,
    payload: Seq<u8>,
    timestamp: u64,
)
    requires
        message_type is AddOrder || message_type is AddOrderWithMpid || message_type is Trade,
        stock_of(payload) != engine.symbol,
    ensures
        engine.handle(message_type, payload, timestamp) == (
            engine.received(),
            None::<SnapshotView>,
        ),
        engine.received().book == engine.book,
        engine.received().update_count == engine.update_count,
{
}

/// Whether every frame of the feed from `offset` on brings an event that is
/// regular for the book that it meets.
pub open spec fn feed_is_regular(engine: OrderBookView, data: Seq<u8>, offset: int) -> bool
    decreases data.len() - offset,
{
    if has_frame(data, offset) {
        &&& is_dispatched(data, offset) ==> match event_of(
            engine.symbol,
            frame_type(data, offset),
            frame_payload(data, offset),
        ) {
            Some(event) => engine.book.regular(event, frame_timestamp(data, offset)),
            None => true,
        }
        &&& feed_is_regular(after_frame(engine, data, offset).0, data, frame_end(data, offset))
    } else {
        true
    }
}

/// A message keeps the book consistent if its event, where it stands for
/// one, is regular.
pub proof fn lemma_message_keeps_consistent(
    engine: OrderBookView,
    message_type: MessageType,
    payload: Seq<u8>,
    timestamp: u64,
)
    requires
        engine.book.consistent(),
        match event_of(engine.symbol, message_type, payload) {
            Some(event) => engine.book.regular(event, timestamp),
            None => true,
        },
    ensures
        engine.handle(message_type, payload, timestamp).0.book.consistent(),
        engine.handle(message_type, payload, timestamp).0.symbol == engine.symbol,
{
    match event_of(engine.symbol, message_type, payload) {
        Some(event) => {
            lemma_event_keeps_consistent(engine.book, event, timestamp);
        },
        None => {},
    }
}

/// A feed of regular events keeps a consistent book consistent: after every
/// frame each level is the sum of the shares of the orders at its price, and
/// every live order has shares.
pub proof fn lemma_feed_keeps_consistent(engine: OrderBookView, data: Seq<u8>, offset: int)
    requires
        engine.book.consistent(),
        feed_is_regular(engine, data, offset),
    ensures
        after_feed(engine, data, offset).0.book.consistent(),
    decreases data.len() - offset,
{
    if has_frame(data, offset) {
        if is_dispatched(data, offset) {
            lemma_message_keeps_consistent(
                engine,
                frame_type(data, offset),
                frame_payload(data, offset),
                frame_timestamp(data, offset),
            );
        }
        lemma_feed_keeps_consistent(
            after_frame(engine, data, offset).0,
            data,
            frame_end(data, offset),
        );
    }
}

/// Every snapshot that a message gives rise to is well shaped.
pub proof fn lemma_message_gives_well_shaped_row(
    engine: OrderBookView,
    message_type: MessageType,
    payload: Seq<u8>,
    timestamp: u64,
)
    ensures
        engine.handle(message_type, payload, timestamp).1 matches Some(row) ==> well_shaped(row),
{
    let counted = engine.received();
    match event_of(counted.symbol, message_type, payload) {
        Some(event) => {
            if counted.book.touched_by(event) {
                lemma_snapshot_is_well_shaped(
                    counted.book.apply(event, timestamp),
                    timestamp,
                    next_count(counted.update_count),
                );
            }
        },
        None => {},
    }
}

/// Every row that a feed gives rise to is well shaped: it has ten bid and
/// ten ask rows, its bids fall and its asks rise.
pub proof fn lemma_feed_gives_well_shaped_rows(engine: OrderBookView, data: Seq<u8>, offset: int)
    ensures
        forall|i: int|
            0 <= i < after_feed(engine, data, offset).1.len() ==> well_shaped(
                #[trigger] after_feed(engine, data, offset).1[i],
            ),
    decreases data.len() - offset,
{
    if has_frame(data, offset) {
        let (next, row) = after_frame(engine, data, offset);
        if is_dispatched(data, offset) {
            lemma_message_gives_well_shaped_row(
                engine,
                frame_type(data, offset),
                frame_payload(data, offset),
                frame_timestamp(data, offset),
            );
        }
        lemma_feed_gives_well_shaped_rows(next, data, frame_end(data, offset));
        let rest = after_feed(next, data, frame_end(data, offset)).1;
        let all = after_feed(engine, data, offset).1;
        assert(all == rows_of(row) + rest);
        assert forall|i: int| 0 <= i < all.len() implies well_shaped(#[trigger] all[i]) by {
            if i < rows_of(row).len() {
                assert(all[i] == row->0);
            } else {
                assert(all[i] == rest[i - rows_of(row).len()]);
            }
        }
    }
}

} // verus!
