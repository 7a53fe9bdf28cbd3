//! When a book is consistent: every level holds exactly the shares of the
//! orders that rest at its price. The events that keep it so.

use crate::book::reduced;
use crate::book::BookEvent;
use crate::book::BookState;
use crate::levels::volume_at;
use crate::levels::with_added;
use crate::levels::with_removed;
use crate::orderbook::Order;
use crate::orderbook::Side;
use crate::sums::lemma_sum_bounds_entry;
use crate::sums::lemma_sum_empty;
use crate::sums::lemma_sum_insert;
use crate::sums::lemma_sum_remove;
use crate::sums::sum_by;
use vstd::prelude::*;

verus! {

/// What an order counts towards the shares of its side.
pub open spec fn its_shares() -> spec_fn(Order) -> nat {
    |order: Order| order.shares as nat
}

/// What an order counts towards the shares that rest at `price`.
pub open spec fn its_shares_at(price: u32) -> spec_fn(Order) -> nat {
    |order: Order|
        if order.price == price {
            order.shares as nat
        } else {
            0
        }
}

/// What a level counts towards the volume of its side.
pub open spec fn its_volume() -> spec_fn(u32) -> nat {
    |volume: u32| volume as nat
}

/// The shares of all orders together.
pub open spec fn total_shares(orders: Map<u64, Order>) -> nat {
    sum_by(orders, its_shares())
}

/// The shares of the orders that rest at `price`.
pub open spec fn shares_at(orders: Map<u64, Order>, price: u32) -> nat {
    sum_by(orders, its_shares_at(price))
}

/// The volume of all levels together.
pub open spec fn total_volume(levels: Map<u32, u32>) -> nat {
    sum_by(levels, its_volume())
}

/// Whether the levels are the sums of the orders: at every price the volume
/// is the sum of the shares of the orders there, and no level is empty.
pub open spec fn levels_match(orders: Map<u64, Order>, levels: Map<u32, u32>) -> bool {
    &&& orders.dom().finite()
    &&& levels.dom().finite()
    &&& forall|price: u32| #[trigger] levels.contains_key(price) ==> levels[price] > 0
    &&& forall|price: u32| #[trigger] volume_at(levels, price) == shares_at(orders, price)
}

/// Whether one side of a book is consistent: its levels are the sums of its
/// orders, and every order has shares left, is filed under its own reference
/// number and rests on this side.
pub open spec fn side_consistent(orders: Map<u64, Order>, levels: Map<u32, u32>, side: Side) -> bool {
    &&& levels_match(orders, levels)
    &&& forall|reference: u64| #[trigger]
        orders.contains_key(reference) ==> {
            &&& orders[reference].shares > 0
            &&& orders[reference].ref_number == reference
            &&& orders[reference].side == side
        }
}

impl BookState {
    /// Whether every order is filed under its own reference number and on
    /// its own side.
    pub open spec fn filed(self) -> bool {
        forall|side: Side, reference: u64| #[trigger]
            self.orders(side).contains_key(reference) ==> {
                &&& self.orders(side)[reference].ref_number == reference
                &&& self.orders(side)[reference].side == side
            }
    }

    /// Whether the book is consistent: both sides are, and no reference
    /// number is live on both.
    pub open spec fn consistent(self) -> bool {
        &&& side_consistent(self.buy_orders, self.buy_levels, Side::Buy)
        &&& side_consistent(self.sell_orders, self.sell_levels, Side::Sell)
        &&& forall|reference: u64|
            !(self.buy_orders.contains_key(reference) && #[trigger] self.sell_orders.contains_key(
                reference,
            ))
    }

    /// Whether `order` can be added without harm: it has shares, its
    /// reference number is not live, and its level has room for its shares.
    pub open spec fn admits(self, order: Order) -> bool {
        &&& order.shares > 0
        &&& self.side_of(order.ref_number) is None
        &&& volume_at(self.levels(order.side), order.price) + order.shares <= u32::MAX
    }

    /// Whether the event can be applied without harm to a consistent book.
    /// An addition or replacement must bring an order that the book admits.
    /// A reduction must not take more than the order has, unless the order
    /// is alone at its price. A deletion always can.
    pub open spec fn regular(self, event: BookEvent, timestamp: u64) -> bool {
        match event {
            BookEvent::Add { reference, side, shares, price } => self.admits(
                Order { ref_number: reference, timestamp, price, shares, side },
            ),
            BookEvent::Reduce { reference, amount } => match self.side_of(reference) {
                None => true,
                Some(side) => {
                    let order = self.orders(side)[reference];
                    amount <= order.shares || volume_at(self.levels(side), order.price)
                        == order.shares
                },
            },
            BookEvent::Delete { .. } => true,
            BookEvent::Replace { original, reference, shares, price } => match self.side_of(
                original,
            ) {
                None => true,
                Some(side) => self.delete(original).admits(
                    Order { ref_number: reference, timestamp, price, shares, side },
                ),
            },
        }
    }
}

/// A side stays consistent when an order with a new reference number is
/// filed and its shares are added to its level, if the level has room.
proof fn lemma_side_add(orders: Map<u64, Order>, levels: Map<u32, u32>, order: Order, side: Side)
    requires
        side_consistent(orders, levels, side),
        order.shares > 0,
        order.side == side,
        !orders.contains_key(order.ref_number),
        volume_at(levels, order.price) + order.shares <= u32::MAX,
    ensures
        side_consistent(
            orders.insert(order.ref_number, order),
            with_added(levels, order.price, order.shares),
            side,
        ),
{
    let more = orders.insert(order.ref_number, order);
    let raised = with_added(levels, order.price, order.shares);
    assert forall|price: u32| #[trigger] volume_at(raised, price) == shares_at(more, price) by {
        lemma_sum_insert(orders, its_shares_at(price), order.ref_number, order);
        assert(volume_at(levels, price) == shares_at(orders, price));
    }
}

/// The levels stay the sums of the orders when an order leaves and its level
/// loses the shares that the order had.
proof fn lemma_match_remove(orders: Map<u64, Order>, levels: Map<u32, u32>, reference: u64)
    requires
        levels_match(orders, levels),
        orders.contains_key(reference),
    ensures
        levels_match(
            orders.remove(reference),
            with_removed(levels, orders[reference].price, orders[reference].shares),
        ),
{
    let order = orders[reference];
    let fewer = orders.remove(reference);
    let lowered = with_removed(levels, order.price, order.shares);
    lemma_sum_bounds_entry(orders, its_shares_at(order.price), reference);
    assert(volume_at(levels, order.price) == shares_at(orders, order.price));
    assert forall|price: u32| #[trigger] volume_at(lowered, price) == shares_at(fewer, price) by {
        lemma_sum_remove(orders, its_shares_at(price), reference);
        assert(volume_at(levels, price) == shares_at(orders, price));
    }
    assert forall|price: u32| #[trigger] lowered.contains_key(price) implies lowered[price]
        > 0 by {
        assert(levels.contains_key(price));
    }
}

/// A side stays consistent when an order leaves and its level loses the
/// shares that the order had.
proof fn lemma_side_remove(orders: Map<u64, Order>, levels: Map<u32, u32>, reference: u64, side: Side)
    requires
        side_consistent(orders, levels, side),
        orders.contains_key(reference),
    ensures
        side_consistent(
            orders.remove(reference),
            with_removed(levels, orders[reference].price, orders[reference].shares),
            side,
        ),
{
    lemma_match_remove(orders, levels, reference);
}

/// Where the levels are the sums of the orders, the volume of all levels is
/// the number of shares of all orders.
pub proof fn lemma_conservation(orders: Map<u64, Order>, levels: Map<u32, u32>)
    requires
        levels_match(orders, levels),
    ensures
        total_volume(levels) == total_shares(orders),
    decreases orders.dom().len(),
{
    if orders.dom().len() == 0 {
        assert(orders =~= Map::<u64, Order>::empty());
        assert forall|price: u32| !levels.contains_key(price) by {
            lemma_sum_empty::<u64, Order>(its_shares_at(price));
            assert(volume_at(levels, price) == shares_at(orders, price));
        }
        assert(levels =~= Map::<u32, u32>::empty());
        lemma_sum_empty::<u64, Order>(its_shares());
        lemma_sum_empty::<u32, u32>(its_volume());
    } else {
        let reference = orders.dom().choose();
        let order = orders[reference];
        let lowered = with_removed(levels, order.price, order.shares);
        lemma_match_remove(orders, levels, reference);
        lemma_conservation(orders.remove(reference), lowered);
        lemma_sum_remove(orders, its_shares(), reference);
        if levels.contains_key(order.price) {
            if levels[order.price] <= order.shares {
                lemma_sum_bounds_entry(orders, its_shares_at(order.price), reference);
                assert(volume_at(levels, order.price) == shares_at(orders, order.price));
                lemma_sum_remove(levels, its_volume(), order.price);
            } else {
                lemma_sum_insert(
                    levels,
                    its_volume(),
                    order.price,
                    (levels[order.price] - order.shares) as u32,
                );
            }
        } else {
            lemma_sum_bounds_entry(orders, its_shares_at(order.price), reference);
            assert(volume_at(levels, order.price) == shares_at(orders, order.price));
        }
    }
}

/// A side stays consistent when an order loses shares, as long as the order
/// has that many or is alone at its price.
proof fn lemma_side_reduce(
    orders: Map<u64, Order>,
    levels: Map<u32, u32>,
    reference: u64,
    amount: u32,
    side: Side,
)
    requires
        side_consistent(orders, levels, side),
        orders.contains_key(reference),
        amount <= orders[reference].shares || volume_at(levels, orders[reference].price)
            == orders[reference].shares,
    ensures
        ({
            let order = orders[reference];
            let left = reduced(order.shares, amount);
            side_consistent(
                if left == 0 {
                    orders.remove(reference)
                } else {
                    orders.insert(
                        reference,
                        Order {
                            ref_number: order.ref_number,
                            timestamp: order.timestamp,
                            price: order.price,
                            shares: left,
                            side: order.side,
                        },
                    )
                },
                with_removed(levels, order.price, amount),
                side,
            )
        }),
{
    let order = orders[reference];
    let left = reduced(order.shares, amount);
    let lowered = with_removed(levels, order.price, amount);
    lemma_sum_bounds_entry(orders, its_shares_at(order.price), reference);
    assert(volume_at(levels, order.price) == shares_at(orders, order.price));
    assert(levels.contains_key(order.price));
    if left == 0 {
        lemma_side_remove(orders, levels, reference, side);
        assert(lowered == with_removed(levels, order.price, order.shares));
    } else {
        let smaller = Order {
            ref_number: order.ref_number,
            timestamp: order.timestamp,
            price: order.price,
            shares: left,
            side: order.side,
        };
        let updated = orders.insert(reference, smaller);
        assert forall|price: u32| #[trigger] volume_at(lowered, price) == shares_at(
            updated,
            price,
        ) by {
            lemma_sum_insert(orders, its_shares_at(price), reference, smaller);
            assert(volume_at(levels, price) == shares_at(orders, price));
        }
        assert forall|price: u32| #[trigger] lowered.contains_key(price) implies lowered[price]
            > 0 by {
            assert(levels.contains_key(price));
        }
    }
}

/// The empty book is consistent.
pub proof fn lemma_empty_is_consistent()
    ensures
        BookState::empty().consistent(),
{
    let none = Map::<u64, Order>::empty();
    let flat = Map::<u32, u32>::empty();
    assert forall|price: u32| #[trigger] volume_at(flat, price) == shares_at(none, price) by {
        lemma_sum_empty::<u64, Order>(its_shares_at(price));
    }
}

/// Adding an order that the book admits keeps the book consistent.
pub proof fn lemma_add_keeps_consistent(book: BookState, order: Order)
    requires
        book.consistent(),
        book.admits(order),
    ensures
        book.add(order).consistent(),
{
    lemma_side_add(book.orders(order.side), book.levels(order.side), order, order.side);
}

/// Reducing an order keeps the book consistent, as long as the order has as
/// many shares as are taken or is alone at its price.
pub proof fn lemma_reduce_keeps_consistent(book: BookState, reference: u64, amount: u32)
    requires
        book.consistent(),
        book.side_of(reference) matches Some(side) ==> {
            let order = book.orders(side)[reference];
            amount <= order.shares || volume_at(book.levels(side), order.price) == order.shares
        },
    ensures
        book.reduce(reference, amount).consistent(),
{
    match book.side_of(reference) {
        None => {},
        Some(side) => {
            lemma_side_reduce(book.orders(side), book.levels(side), reference, amount, side);
        },
    }
}

/// Deleting an order keeps the book consistent.
pub proof fn lemma_delete_keeps_consistent(book: BookState, reference: u64)
    requires
        book.consistent(),
    ensures
        book.delete(reference).consistent(),
{
    match book.side_of(reference) {
        None => {},
        Some(side) => {
            lemma_side_remove(book.orders(side), book.levels(side), reference, side);
        },
    }
}

/// Every regular event keeps the book consistent: at each price the level
/// stays the sum of the shares of the orders there, every order keeps shares,
/// and no reference number is live twice.
pub proof fn lemma_event_keeps_consistent(book: BookState, event: BookEvent, timestamp: u64)
    requires
        book.consistent(),
        book.regular(event, timestamp),
    ensures
        book.apply(event, timestamp).consistent(),
{
    match event {
        BookEvent::Add { reference, side, shares, price } => {
            lemma_add_keeps_consistent(
                book,
                Order { ref_number: reference, timestamp, price, shares, side },
            );
        },
        BookEvent::Reduce { reference, amount } => {
            lemma_reduce_keeps_consistent(book, reference, amount);
        },
        BookEvent::Delete { reference } => {
            lemma_delete_keeps_consistent(book, reference);
        },
        BookEvent::Replace { original, reference, shares, price } => {
            match book.side_of(original) {
                None => {},
                Some(side) => {
                    lemma_delete_keeps_consistent(book, original);
                    lemma_add_keeps_consistent(
                        book.delete(original),
                        Order { ref_number: reference, timestamp, price, shares, side },
                    );
                },
            }
        },
    }
}

/// In a consistent book no order has more shares than its level holds.
pub proof fn lemma_level_covers_order(book: BookState, side: Side, reference: u64)
    requires
        book.consistent(),
        book.orders(side).contains_key(reference),
    ensures
        book.orders(side)[reference].shares <= volume_at(
            book.levels(side),
            book.orders(side)[reference].price,
        ),
{
    let order = book.orders(side)[reference];
    lemma_sum_bounds_entry(book.orders(side), its_shares_at(order.price), reference);
    assert(volume_at(book.levels(side), order.price) == shares_at(
        book.orders(side),
        order.price,
    ));
}

/// In a consistent book the volume of all bid levels is the number of shares
/// of all live buy orders, and likewise on the sell side.
pub proof fn lemma_volume_is_conserved(book: BookState, side: Side)
    requires
        book.consistent(),
    ensures
        total_volume(book.levels(side)) == total_shares(book.orders(side)),
{
    lemma_conservation(book.orders(side), book.levels(side));
}

/// Whatever the events, every order stays filed under its own reference
/// number and on its own side: the side on which an order is found is the
/// side that the order names.
pub proof fn lemma_orders_stay_filed(book: BookState, event: BookEvent, timestamp: u64)
    requires
        book.filed(),
    ensures
        BookState::empty().filed(),
        book.apply(event, timestamp).filed(),
{
    let next = book.apply(event, timestamp);
    assert forall|side: Side, reference: u64| #[trigger]
        next.orders(side).contains_key(reference) implies {
        &&& next.orders(side)[reference].ref_number == reference
        &&& next.orders(side)[reference].side == side
    } by {
        assert(book.orders(side).contains_key(reference) ==> book.orders(side)[reference].side
            == side);
        match event {
            BookEvent::Replace { original, .. } => {
                if book.side_of(original) is Some {
                    let cleared = book.delete(original);
                    assert(cleared.orders(side).contains_key(reference)
                        ==> book.orders(side).contains_key(reference));
                }
            },
            BookEvent::Reduce { reference: reduced_one, .. } => {
                if book.side_of(reduced_one) is Some {
                    let found = book.side_of(reduced_one)->0;
                    assert(book.orders(found).contains_key(reduced_one));
                }
            },
            _ => {},
        }
    }
}

} // verus!
