//! The mathematical model of the book: the live orders and the volume per
//! price of both sides, and what each event does to them.

use crate::levels::with_added;
use crate::levels::with_removed;
use crate::orderbook::Order;
use crate::orderbook::Side;
use vstd::prelude::*;

verus! {

/// An event that acts on the book, decoded from a message.
#[derive(Debug, Clone, Copy, PartialEq, Eq)]
pub enum BookEvent {
    /// A new order rests on `side`.
    Add { reference: u64, side: Side, shares: u32, price: u32 },
    /// `amount` shares of an order were executed or cancelled.
    Reduce { reference: u64, amount: u32 },
    /// An order left the book.
    Delete { reference: u64 },
    /// The order `original` was replaced by `reference`, on the same side.
    Replace { original: u64, reference: u64, shares: u32, price: u32 },
}

/// The state of the book: per side, the live orders by reference number and
/// the aggregated volume by price.
pub struct BookState {
    pub buy_orders: Map<u64, Order>,
    pub sell_orders: Map<u64, Order>,
    pub buy_levels: Map<u32, u32>,
    pub sell_levels: Map<u32, u32>,
}

/// `shares` less `amount`, stopping at zero.
pub open spec fn reduced(shares: u32, amount: u32) -> u32 {
    if shares <= amount {
        0
    } else {
        (shares - amount) as u32
    }
}

impl BookState {
    /// The book without any order.
    pub open spec fn empty() -> BookState {
        BookState {
            buy_orders: Map::empty(),
            sell_orders: Map::empty(),
            buy_levels: Map::empty(),
            sell_levels: Map::empty(),
        }
    }

    /// The live orders of a side.
    pub open spec fn orders(self, side: Side) -> Map<u64, Order> {
        if side is Buy {
            self.buy_orders
        } else {
            self.sell_orders
        }
    }

    /// The price levels of a side.
    pub open spec fn levels(self, side: Side) -> Map<u32, u32> {
        if side is Buy {
            self.buy_levels
        } else {
            self.sell_levels
        }
    }

    /// The book with the orders and levels of `side` exchanged for the given
    /// ones.
    pub open spec fn with_side(
        self,
        side: Side,
        orders: Map<u64, Order>,
        levels: Map<u32, u32>,
    ) -> BookState {
        if side is Buy {
            BookState { buy_orders: orders, buy_levels: levels, ..self }
        } else {
            BookState { sell_orders: orders, sell_levels: levels, ..self }
        }
    }

    /// The side on which a reference number is found: the buy side is
    /// searched first, then the sell side.
    pub open spec fn side_of(self, reference: u64) -> Option<Side> {
        if self.buy_orders.contains_key(reference) {
            Some(Side::Buy)
        } else if self.sell_orders.contains_key(reference) {
            Some(Side::Sell)
        } else {
            None
        }
    }

    /// The book after `order` was added: it is filed under its reference
    /// number on its side, and its shares are added to the level at its price.
    pub open spec fn add(self, order: Order) -> BookState {
        let side = order.side;
        self.with_side(
            side,
            self.orders(side).insert(order.ref_number, order),
            with_added(self.levels(side), order.price, order.shares),
        )
    }

    /// The book after `amount` shares of the order `reference` were executed
    /// or cancelled. Both the order and its level lose `amount`, each stopping
    /// at zero, and what reaches zero leaves the book. An unknown reference
    /// changes nothing.
    pub open spec fn reduce(self, reference: u64, amount: u32) -> BookState {
        match self.side_of(reference) {
            None => self,
            Some(side) => {
                let order = self.orders(side)[reference];
                let left = reduced(order.shares, amount);
                self.with_side(
                    side,
                    if left == 0 {
                        self.orders(side).remove(reference)
                    } else {
                        self.orders(side).insert(
                            reference,
                            Order {
                                ref_number: order.ref_number,
                                timestamp: order.timestamp,
                                price: order.price,
                                shares: left,
                                side: order.side,
                            },
                        )
                    },
                    with_removed(self.levels(side), order.price, amount),
                )
            },
        }
    }

    /// The book after the order `reference` was deleted: the order is gone
    /// and its level has lost the shares that the order still had. An unknown
    /// reference changes nothing.
    pub open spec fn delete(self, reference: u64) -> BookState {
        match self.side_of(reference) {
            None => self,
            Some(side) => {
                let order = self.orders(side)[reference];
                self.with_side(
                    side,
                    self.orders(side).remove(reference),
                    with_removed(self.levels(side), order.price, order.shares),
                )
            },
        }
    }

    /// The book after the order `original` was replaced: the old order is
    /// deleted, and a new order with the given reference number, shares and
    /// price is added on the side where the old one was found. An unknown
    /// reference changes nothing.
    pub open spec fn replace(
        self,
        original: u64,
        reference: u64,
        shares: u32,
        price: u32,
        timestamp: u64,
    ) -> BookState {
        match self.side_of(original) {
            None => self,
            Some(side) => self.delete(original).add(
                Order { ref_number: reference, timestamp, price, shares, side },
            ),
        }
    }

    /// Whether the event touches the book, so that a snapshot follows it. An
    /// addition always does; the others do when their order is found.
    pub open spec fn touched_by(self, event: BookEvent) -> bool {
        match event {
            BookEvent::Add { .. } => true,
            BookEvent::Reduce { reference, .. } => self.side_of(reference) is Some,
            BookEvent::Delete { reference } => self.side_of(reference) is Some,
            BookEvent::Replace { original, .. } => self.side_of(original) is Some,
        }
    }

    /// The book after an event that arrived at `timestamp`.
    pub open spec fn apply(self, event: BookEvent, timestamp: u64) -> BookState {
        match event {
            BookEvent::Add { reference, side, shares, price } => self.add(
                Order { ref_number: reference, timestamp, price, shares, side },
            ),
            BookEvent::Reduce { reference, amount } => self.reduce(reference, amount),
            BookEvent::Delete { reference } => self.delete(reference),
            BookEvent::Replace { original, reference, shares, price } => self.replace(
                original,
                reference,
                shares,
                price,
                timestamp,
            ),
        }
    }
}

} // verus!
