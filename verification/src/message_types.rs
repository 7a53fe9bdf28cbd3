//! Message classes of the ITCH 5.0 feed and the records they carry.

use vstd::prelude::*;

verus! {

/// The class of a message, as told by its one-byte tag.
#[derive(Debug, Clone, Copy, PartialEq, Eq, Structural)]
pub enum MessageType {
    SystemEvent,
    StockDirectory,
    StockTradingAction,
    RegShoRestriction,
    MarketParticipantPosition,
    MwcbDeclineLevel,
    MwcbStatus,
    IpoQuotingPeriodUpdate,
    LuldAuctionCollar,
    OperationalHalt,
    AddOrder,
    AddOrderWithMpid,
    OrderExecuted,
    OrderExecutedWithPrice,
    OrderCancel,
    OrderDelete,
    OrderReplace,
    Trade,
    CrossTrade,
    BrokenTrade,
    Noii,
    Rpii,
    DirectListingWithCapitalRaisePriceDiscovery,
    Unknown,
}

impl MessageType {
    /// The class that a tag byte stands for; every byte that the protocol
    /// does not assign is `Unknown`.
    pub open spec fn of_tag(byte: u8) -> MessageType {
        if byte == 'S' as u8 {
            MessageType::SystemEvent
        } else if byte == 'R' as u8 {
            MessageType::StockDirectory
        } else if byte == 'H' as u8 {
            MessageType::StockTradingAction
        } else if byte == 'Y' as u8 {
            MessageType::RegShoRestriction
        } else if byte == 'L' as u8 {
            MessageType::MarketParticipantPosition
        } else if byte == 'V' as u8 {
            MessageType::MwcbDeclineLevel
        } else if byte == 'W' as u8 {
            MessageType::MwcbStatus
        } else if byte == 'K' as u8 {
            MessageType::IpoQuotingPeriodUpdate
        } else if byte == 'J' as u8 {
            MessageType::LuldAuctionCollar
        } else if byte == 'h' as u8 {
            MessageType::OperationalHalt
        } else if byte == 'A' as u8 {
            MessageType::AddOrder
        } else if byte == 'F' as u8 {
            MessageType::AddOrderWithMpid
        } else if byte == 'E' as u8 {
            MessageType::OrderExecuted
        } else if byte == 'C' as u8 {
            MessageType::OrderExecutedWithPrice
        } else if byte == 'X' as u8 {
            MessageType::OrderCancel
        } else if byte == 'D' as u8 {
            MessageType::OrderDelete
        } else if byte == 'U' as u8 {
            MessageType::OrderReplace
        } else if byte == 'P' as u8 {
            MessageType::Trade
        } else if byte == 'Q' as u8 {
            MessageType::CrossTrade
        } else if byte == 'B' as u8 {
            MessageType::BrokenTrade
        } else if byte == 'I' as u8 {
            MessageType::Noii
        } else if byte == 'N' as u8 {
            MessageType::Rpii
        } else if byte == 'O' as u8 {
            MessageType::DirectListingWithCapitalRaisePriceDiscovery
        } else {
            MessageType::Unknown
        }
    }

    /// The tag byte of a class; zero for `Unknown`, which has none.
    pub open spec fn tag_of(self) -> u8 {
        match self {
            MessageType::SystemEvent => 'S' as u8,
            MessageType::StockDirectory => 'R' as u8,
            MessageType::StockTradingAction => 'H' as u8,
            MessageType::RegShoRestriction => 'Y' as u8,
            MessageType::MarketParticipantPosition => 'L' as u8,
            MessageType::MwcbDeclineLevel => 'V' as u8,
            MessageType::MwcbStatus => 'W' as u8,
            MessageType::IpoQuotingPeriodUpdate => 'K' as u8,
            MessageType::LuldAuctionCollar => 'J' as u8,
            MessageType::OperationalHalt => 'h' as u8,
            MessageType::AddOrder => 'A' as u8,
            MessageType::AddOrderWithMpid => 'F' as u8,
            MessageType::OrderExecuted => 'E' as u8,
            MessageType::OrderExecutedWithPrice => 'C' as u8,
            MessageType::OrderCancel => 'X' as u8,
            MessageType::OrderDelete => 'D' as u8,
            MessageType::OrderReplace => 'U' as u8,
            MessageType::Trade => 'P' as u8,
            MessageType::CrossTrade => 'Q' as u8,
            MessageType::BrokenTrade => 'B' as u8,
            MessageType::Noii => 'I' as u8,
            MessageType::Rpii => 'N' as u8,
            MessageType::DirectListingWithCapitalRaisePriceDiscovery => 'O' as u8,
            MessageType::Unknown => 0,
        }
    }

    /// The tag byte of the class; zero for `Unknown`. The tag of a class
    /// stands for that class again.
    pub fn tag(self) -> (byte: u8)
        ensures
            byte == self.tag_of(),
            MessageType::of_tag(byte) == self,
    {
        match self {
            MessageType::SystemEvent => 83,
            MessageType::StockDirectory => 82,
            MessageType::StockTradingAction => 72,
            MessageType::RegShoRestriction => 89,
            MessageType::MarketParticipantPosition => 76,
            MessageType::MwcbDeclineLevel => 86,
            MessageType::MwcbStatus => 87,
            MessageType::IpoQuotingPeriodUpdate => 75,
            MessageType::LuldAuctionCollar => 74,
            MessageType::OperationalHalt => 104,
            MessageType::AddOrder => 65,
            MessageType::AddOrderWithMpid => 70,
            MessageType::OrderExecuted => 69,
            MessageType::OrderExecutedWithPrice => 67,
            MessageType::OrderCancel => 88,
            MessageType::OrderDelete => 68,
            MessageType::OrderReplace => 85,
            MessageType::Trade => 80,
            MessageType::CrossTrade => 81,
            MessageType::BrokenTrade => 66,
            MessageType::Noii => 73,
            MessageType::Rpii => 78,
            MessageType::DirectListingWithCapitalRaisePriceDiscovery => 79,
            MessageType::Unknown => 0,
        }
    }

    /// Whether the class is one of the eight that the book engine reads.
    pub open spec fn in_scope(self) -> bool {
        self is AddOrder || self is AddOrderWithMpid || self is OrderExecuted
            || self is OrderExecutedWithPrice || self is OrderCancel || self is OrderDelete
            || self is OrderReplace || self is Trade
    }

    /// The number of payload bytes that the book engine reads of a message of
    /// this class: the end of the last field it decodes.
    pub open spec fn min_payload(self) -> nat {
        match self {
            MessageType::AddOrder | MessageType::AddOrderWithMpid => 35,
            MessageType::OrderExecuted
            | MessageType::OrderExecutedWithPrice
            | MessageType::OrderCancel => 22,
            MessageType::OrderDelete => 18,
            MessageType::OrderReplace => 34,
            MessageType::Trade => 31,
            _ => 0,
        }
    }

    /// The number of payload bytes that the book engine reads of a message of
    /// this class.
    pub fn min_payload_len(self) -> (length: usize)
        ensures
            length == self.min_payload(),
    {
        match self {
            MessageType::AddOrder | MessageType::AddOrderWithMpid => 35,
            MessageType::OrderExecuted
            | MessageType::OrderExecutedWithPrice
            | MessageType::OrderCancel => 22,
            MessageType::OrderDelete => 18,
            MessageType::OrderReplace => 34,
            MessageType::Trade => 31,
            _ => 0,
        }
    }

    /// Tells the eight classes that the book engine reads from the others.
    pub fn is_in_scope(self) -> (r: bool)
        ensures
            r == self.in_scope(),
    {
        match self {
            MessageType::AddOrder
            | MessageType::AddOrderWithMpid
            | MessageType::OrderExecuted
            | MessageType::OrderExecutedWithPrice
            | MessageType::OrderCancel
            | MessageType::OrderDelete
            | MessageType::OrderReplace
            | MessageType::Trade => true,
            _ => false,
        }
    }
}

impl vstd::std_specs::convert::FromSpecImpl<u8> for MessageType {
    open spec fn obeys_from_spec() -> bool {
        true
    }

    open spec fn from_spec(byte: u8) -> MessageType {
        MessageType::of_tag(byte)
    }
}

impl From<u8> for MessageType {
    fn from(byte: u8) -> (r: MessageType) {
        match byte {
            83 => MessageType::SystemEvent, // S
            82 => MessageType::StockDirectory, // R
            72 => MessageType::StockTradingAction, // H
            89 => MessageType::RegShoRestriction, // Y
            76 => MessageType::MarketParticipantPosition, // L
            86 => MessageType::MwcbDeclineLevel, // V
            87 => MessageType::MwcbStatus, // W
            75 => MessageType::IpoQuotingPeriodUpdate, // K
            74 => MessageType::LuldAuctionCollar, // J
            104 => MessageType::OperationalHalt, // h
            65 => MessageType::AddOrder, // A
            70 => MessageType::AddOrderWithMpid, // F
            69 => MessageType::OrderExecuted, // E
            67 => MessageType::OrderExecutedWithPrice, // C
            88 => MessageType::OrderCancel, // X
            68 => MessageType::OrderDelete, // D
            85 => MessageType::OrderReplace, // U
            80 => MessageType::Trade, // P
            81 => MessageType::CrossTrade, // Q
            66 => MessageType::BrokenTrade, // B
            73 => MessageType::Noii, // I
            78 => MessageType::Rpii, // N
            79 => MessageType::DirectListingWithCapitalRaisePriceDiscovery, // O
            _ => MessageType::Unknown,
        }
    }
}

/// The frame header in front of every payload.
#[derive(Debug, Clone, Copy)]
pub struct MessageHeader {
    /// The number of bytes that follow the length: the tag and the payload.
    pub length: u16,
    /// The tag byte that tells the class of the message.
    pub message_type: u8,
}

/// The fields of a system event message (`S`).
#[derive(Debug, Clone, Copy)]
pub struct SystemEventMessage {
    pub stock_locate: u16,
    pub tracking_number: u16,
    /// Nanoseconds since midnight; six bytes on the wire.
    pub timestamp: u64,
    pub event_code: u8,
}

/// The fields of a stock directory message (`R`).
#[derive(Debug, Clone, Copy)]
pub struct StockDirectoryMessage {
    pub stock_locate: u16,
    pub tracking_number: u16,
    /// Nanoseconds since midnight; six bytes on the wire.
    pub timestamp: u64,
    pub stock: [u8; 8],
    pub market_category: u8,
    pub financial_status_indicator: u8,
    pub round_lot_size: u32,
    pub round_lots_only: u8,
    pub issue_classification: u8,
    pub issue_sub_type: [u8; 2],
    pub authenticity: u8,
    pub short_sale_threshold_indicator: u8,
    pub ipo_flag: u8,
    pub luld_reference_price_tier: u8,
    pub etp_flag: u8,
    pub etp_leverage_factor: u32,
    pub inverse_indicator: u8,
}

/// The fields of an add-order message without attribution (`A`).
#[derive(Debug, Clone, Copy)]
pub struct AddOrderMessage {
    pub stock_locate: u16,
    pub tracking_number: u16,
    /// Nanoseconds since midnight; six bytes on the wire.
    pub timestamp: u64,
    pub order_ref_number: u64,
    /// `B` for a buy order; anything else is read as a sell order.
    pub buy_sell_indicator: u8,
    pub shares: u32,
    pub stock: [u8; 8],
    /// The price times 10,000.
    pub price: u32,
}

/// The fields of an add-order message with attribution (`F`).
#[derive(Debug, Clone, Copy)]
pub struct AddOrderWithMpidMessage {
    pub stock_locate: u16,
    pub tracking_number: u16,
    /// Nanoseconds since midnight; six bytes on the wire.
    pub timestamp: u64,
    pub order_ref_number: u64,
    /// `B` for a buy order; anything else is read as a sell order.
    pub buy_sell_indicator: u8,
    pub shares: u32,
    pub stock: [u8; 8],
    /// The price times 10,000.
    pub price: u32,
    pub attribution: [u8; 4],
}

/// The fields of an order-executed message (`E`).
#[derive(Debug, Clone, Copy)]
pub struct OrderExecutedMessage {
    pub stock_locate: u16,
    pub tracking_number: u16,
    /// Nanoseconds since midnight; six bytes on the wire.
    pub timestamp: u64,
    pub order_ref_number: u64,
    pub executed_shares: u32,
    pub match_number: u64,
}

/// The fields of an order-executed-with-price message (`C`).
#[derive(Debug, Clone, Copy)]
pub struct OrderExecutedWithPriceMessage {
    pub stock_locate: u16,
    pub tracking_number: u16,
    /// Nanoseconds since midnight; six bytes on the wire.
    pub timestamp: u64,
    pub order_ref_number: u64,
    pub executed_shares: u32,
    pub match_number: u64,
    pub printable: u8,
    /// The price of the print, times 10,000; the resting order keeps its own.
    pub execution_price: u32,
}

/// The fields of an order-cancel message (`X`).
#[derive(Debug, Clone, Copy)]
pub struct OrderCancelMessage {
    pub stock_locate: u16,
    pub tracking_number: u16,
    /// Nanoseconds since midnight; six bytes on the wire.
    pub timestamp: u64,
    pub order_ref_number: u64,
    pub cancelled_shares: u32,
}

/// The fields of an order-delete message (`D`).
#[derive(Debug, Clone, Copy)]
pub struct OrderDeleteMessage {
    pub stock_locate: u16,
    pub tracking_number: u16,
    /// Nanoseconds since midnight; six bytes on the wire.
    pub timestamp: u64,
    pub order_ref_number: u64,
}

/// The fields of an order-replace message (`U`).
#[derive(Debug, Clone, Copy)]
pub struct OrderReplaceMessage {
    pub stock_locate: u16,
    pub tracking_number: u16,
    /// Nanoseconds since midnight; six bytes on the wire.
    pub timestamp: u64,
    pub original_order_ref_number: u64,
    pub new_order_ref_number: u64,
    pub shares: u32,
    /// The price times 10,000.
    pub price: u32,
}

/// The fields of a trade message (`P`).
#[derive(Debug, Clone, Copy)]
pub struct TradeMessage {
    pub stock_locate: u16,
    pub tracking_number: u16,
    /// Nanoseconds since midnight; six bytes on the wire.
    pub timestamp: u64,
    pub order_ref_number: u64,
    pub buy_sell_indicator: u8,
    pub shares: u32,
    pub stock: [u8; 8],
    /// The price times 10,000.
    pub price: u32,
    pub match_number: u64,
}

/// The fields of a stock trading action message (`H`).
#[derive(Debug, Clone, Copy)]
pub struct StockTradingActionMessage {
    pub stock_locate: u16,
    pub tracking_number: u16,
    /// Nanoseconds since midnight; six bytes on the wire.
    pub timestamp: u64,
    pub stock: [u8; 8],
    pub trading_state: u8,
    pub reserved: u8,
    pub reason: [u8; 4],
}

} // verus!
