//! Where the fields of the messages lie in a payload, and the event that a
//! message stands for.

use crate::book::BookEvent;
use crate::bytes::be_u32;
use crate::bytes::be_u64;
use crate::message_types::MessageType;
use crate::orderbook::Side;
use vstd::prelude::*;
use vstd::std_specs::convert::FromSpec;

verus! {

/// Offset of the timestamp, the same in every message.
pub const TIMESTAMP_OFFSET: usize = 4;

/// Offset of the order reference number.
pub const REF_OFFSET: usize = 10;

/// Offset of the side indicator of an added order.
pub const SIDE_OFFSET: usize = 18;

/// Offset of the share count of an added order.
pub const ADD_SHARES_OFFSET: usize = 19;

/// Offset of the symbol of an added order or a trade.
pub const STOCK_OFFSET: usize = 23;

/// Offset of the price of an added order.
pub const ADD_PRICE_OFFSET: usize = 31;

/// Offset of the executed or cancelled share count.
pub const AMOUNT_OFFSET: usize = 18;

/// Offset of the new reference number of a replacement.
pub const NEW_REF_OFFSET: usize = 18;

/// Offset of the share count of a replacement.
pub const REPLACE_SHARES_OFFSET: usize = 26;

/// Offset of the price of a replacement.
pub const REPLACE_PRICE_OFFSET: usize = 30;

/// The symbol that a payload carries.
pub open spec fn stock_of(payload: Seq<u8>) -> Seq<u8> {
    payload.subrange(STOCK_OFFSET as int, STOCK_OFFSET + 8)
}

/// The event that a message of class `message_type` with the given payload
/// stands for, for a book that tracks `symbol`; `None` where the message is
/// for another symbol or of a class that does not act on the book.
pub open spec fn event_of(symbol: Seq<u8>, message_type: MessageType, payload: Seq<u8>) -> Option<
    BookEvent,
> {
    match message_type {
        MessageType::AddOrder | MessageType::AddOrderWithMpid => if stock_of(payload) == symbol {
            Some(
                BookEvent::Add {
                    reference: be_u64(payload, REF_OFFSET as int),
                    side: Side::from_spec(payload[SIDE_OFFSET as int]),
                    shares: be_u32(payload, ADD_SHARES_OFFSET as int),
                    price: be_u32(payload, ADD_PRICE_OFFSET as int),
                },
            )
        } else {
            None
        },
        MessageType::OrderExecuted
        | MessageType::OrderExecutedWithPrice
        | MessageType::OrderCancel => Some(
            BookEvent::Reduce {
                reference: be_u64(payload, REF_OFFSET as int),
                amount: be_u32(payload, AMOUNT_OFFSET as int),
            },
        ),
        MessageType::OrderDelete => Some(
            BookEvent::Delete { reference: be_u64(payload, REF_OFFSET as int) },
        ),
        MessageType::OrderReplace => Some(
            BookEvent::Replace {
                original: be_u64(payload, REF_OFFSET as int),
                reference: be_u64(payload, NEW_REF_OFFSET as int),
                shares: be_u32(payload, REPLACE_SHARES_OFFSET as int),
                price: be_u32(payload, REPLACE_PRICE_OFFSET as int),
            },
        ),
        _ => None,
    }
}

} // verus!
