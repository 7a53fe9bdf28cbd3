use nasdaq_itch_orderbook::bytes::read_order_ref_be;
use nasdaq_itch_orderbook::bytes::read_stock;
use nasdaq_itch_orderbook::bytes::read_timestamp_be;
use nasdaq_itch_orderbook::bytes::read_u16_be;
use nasdaq_itch_orderbook::bytes::read_u32_be;
use nasdaq_itch_orderbook::levels::add_volume;
use nasdaq_itch_orderbook::levels::highest_levels;
use nasdaq_itch_orderbook::levels::lowest_levels;
use nasdaq_itch_orderbook::levels::pad_levels;
use nasdaq_itch_orderbook::levels::remove_volume;
use nasdaq_itch_orderbook::message_types::MessageType;
use nasdaq_itch_orderbook::orderbook::OrderBook;
use nasdaq_itch_orderbook::orderbook::PriceLevel;
use nasdaq_itch_orderbook::parser::process_frame;
use nasdaq_itch_orderbook::parser::process_itch_file;
use nasdaq_itch_orderbook::parser::stock_symbol_matches;
use nasdaq_itch_orderbook::parser::MSG_HEADER_SIZE;
use nasdaq_itch_orderbook::utils::pad_stock_symbol;
use std::collections::BTreeMap;

fn add_frame(timestamp: u64, reference: u64, side: u8, shares: u32, price: u32) -> Vec<u8> {
    let mut out = vec![0u8, 36, b'A', 0, 0, 0, 0];
    out.extend_from_slice(&timestamp.to_be_bytes()[2..]);
    out.extend_from_slice(&reference.to_be_bytes());
    out.push(side);
    out.extend_from_slice(&shares.to_be_bytes());
    out.extend_from_slice(b"INTC    ");
    out.extend_from_slice(&price.to_be_bytes());
    out
}

#[test]
fn big_endian_fields() {
    let data = [0u8, 0x12, 0x34, 0x56, 0x78, 0x9a, 0xbc, 0xde, 0xf0, 0x01];
    assert_eq!(read_u16_be(&data, 1), 0x1234);
    assert_eq!(read_u16_be(&data, 8), 0xf001);
    assert_eq!(read_u32_be(&data, 1), 0x12345678);
    assert_eq!(read_u32_be(&data, 6), 0xbcdef001);
    assert_eq!(read_order_ref_be(&data, 1), 0x123456789abcdef0);
    assert_eq!(read_order_ref_be(&data, 2), 0x3456789abcdef001);
    assert_eq!(read_timestamp_be(&data, 1), 0x123456789abc);
    assert_eq!(read_timestamp_be(&data, 4), 0x789abcdef001);
    assert_eq!(read_order_ref_be(&[0xff; 8], 0), u64::MAX);
    assert_eq!(read_timestamp_be(&[0xff; 8], 2), 0xffff_ffff_ffff);
    assert_eq!(read_u32_be(&[0xff; 8], 4), u32::MAX);
    assert_eq!(read_u16_be(&[0, 0], 0), 0);
}

#[test]
fn symbol_is_copied_verbatim() {
    let data = *b"xxINTC    yy";
    assert_eq!(read_stock(&data, 2), *b"INTC    ");
    assert_eq!(read_stock(&data, 4), *b"TC    yy");
}

#[test]
fn symbols_are_padded_with_spaces() {
    assert_eq!(pad_stock_symbol("INTC"), *b"INTC    ");
    assert_eq!(pad_stock_symbol(""), *b"        ");
    assert_eq!(pad_stock_symbol("A"), *b"A       ");
    assert_eq!(pad_stock_symbol("ABCDEFGH"), *b"ABCDEFGH");
    assert_eq!(pad_stock_symbol("ABCDEFGHIJ"), *b"ABCDEFGH");
}

#[test]
fn symbols_match_byte_for_byte() {
    assert!(stock_symbol_matches(b"INTC    ", b"INTC    "));
    assert!(!stock_symbol_matches(b"INTC    ", b"INTC   x"));
    assert!(!stock_symbol_matches(b"INTC    ", b"iNTC    "));
    assert!(!stock_symbol_matches(b"AAPL    ", b"INTC    "));
}

#[test]
fn tags_map_to_classes() {
    let known = [
        (b'S', MessageType::SystemEvent),
        (b'R', MessageType::StockDirectory),
        (b'H', MessageType::StockTradingAction),
        (b'Y', MessageType::RegShoRestriction),
        (b'L', MessageType::MarketParticipantPosition),
        (b'V', MessageType::MwcbDeclineLevel),
        (b'W', MessageType::MwcbStatus),
        (b'K', MessageType::IpoQuotingPeriodUpdate),
        (b'J', MessageType::LuldAuctionCollar),
        (b'h', MessageType::OperationalHalt),
        (b'A', MessageType::AddOrder),
        (b'F', MessageType::AddOrderWithMpid),
        (b'E', MessageType::OrderExecuted),
        (b'C', MessageType::OrderExecutedWithPrice),
        (b'X', MessageType::OrderCancel),
        (b'D', MessageType::OrderDelete),
        (b'U', MessageType::OrderReplace),
        (b'P', MessageType::Trade),
        (b'Q', MessageType::CrossTrade),
        (b'B', MessageType::BrokenTrade),
        (b'I', MessageType::Noii),
        (b'N', MessageType::Rpii),
        (b'O', MessageType::DirectListingWithCapitalRaisePriceDiscovery),
    ];
    for byte in 0..=255u8 {
        let expected = known
            .iter()
            .find(|(tag, _)| *tag == byte)
            .map(|(_, class)| *class)
            .unwrap_or(MessageType::Unknown);
        assert_eq!(MessageType::from(byte), expected);
        if expected != MessageType::Unknown {
            assert_eq!(expected.tag(), byte);
        }
    }
    assert_eq!(MessageType::Unknown.tag(), 0);
}

#[test]
fn eight_classes_are_in_scope() {
    let mut count = 0;
    for byte in 0..=255u8 {
        if MessageType::from(byte).is_in_scope() {
            count += 1;
            assert!(b"AFECXDUP".contains(&byte));
        }
    }
    assert_eq!(count, 8);
    assert_eq!(MessageType::AddOrder.min_payload_len(), 35);
    assert_eq!(MessageType::AddOrderWithMpid.min_payload_len(), 35);
    assert_eq!(MessageType::OrderExecuted.min_payload_len(), 22);
    assert_eq!(MessageType::OrderExecutedWithPrice.min_payload_len(), 22);
    assert_eq!(MessageType::OrderCancel.min_payload_len(), 22);
    assert_eq!(MessageType::OrderDelete.min_payload_len(), 18);
    assert_eq!(MessageType::OrderReplace.min_payload_len(), 34);
    assert_eq!(MessageType::Trade.min_payload_len(), 31);
    assert_eq!(MessageType::SystemEvent.min_payload_len(), 0);
    assert_eq!(MessageType::Unknown.min_payload_len(), 0);
}

#[test]
fn volume_is_added_and_removed() {
    let mut levels: BTreeMap<u32, u32> = BTreeMap::new();
    add_volume(&mut levels, 100, 5);
    add_volume(&mut levels, 100, 7);
    add_volume(&mut levels, 90, 1);
    assert_eq!(levels.get(&100), Some(&12));
    remove_volume(&mut levels, 100, 2);
    assert_eq!(levels.get(&100), Some(&10));
    remove_volume(&mut levels, 80, 2);
    assert_eq!(levels.len(), 2);
    remove_volume(&mut levels, 90, 2);
    assert_eq!(levels.get(&90), None);
    remove_volume(&mut levels, 100, 10);
    assert!(levels.is_empty());
    add_volume(&mut levels, 1, u32::MAX);
    add_volume(&mut levels, 1, 1);
    assert_eq!(levels.get(&1), Some(&u32::MAX));
}

#[test]
fn best_levels_come_first() {
    let mut levels: BTreeMap<u32, u32> = BTreeMap::new();
    for price in [30u32, 10, 50, 20, 40] {
        levels.insert(price, price * 2);
    }
    let level = |price: u32| PriceLevel { price, total_volume: price * 2 };
    assert_eq!(highest_levels(&levels, 3), vec![level(50), level(40), level(30)]);
    assert_eq!(lowest_levels(&levels, 3), vec![level(10), level(20), level(30)]);
    assert_eq!(highest_levels(&levels, 9).len(), 5);
    assert_eq!(lowest_levels(&levels, 5), vec![level(10), level(20), level(30), level(40), level(50)]);
    assert!(highest_levels(&levels, 0).is_empty());
    assert!(lowest_levels(&BTreeMap::new(), 4).is_empty());
}

#[test]
fn short_sides_are_filled_with_empty_levels() {
    let one = PriceLevel { price: 7, total_volume: 3 };
    let none = PriceLevel { price: 0, total_volume: 0 };
    assert_eq!(pad_levels(vec![one], 3), vec![one, none, none]);
    assert_eq!(pad_levels(vec![], 2), vec![none, none]);
    assert_eq!(pad_levels(vec![one, one], 2), vec![one, one]);
    assert_eq!(pad_levels(vec![one, one], 1), vec![one, one]);
}

#[test]
fn header_is_three_bytes() {
    assert_eq!(MSG_HEADER_SIZE, 3);
}

#[test]
fn walk_ends_at_a_truncated_frame() {
    let mut book = OrderBook::new(pad_stock_symbol("INTC"));
    let mut feed = add_frame(1, 1, b'B', 10, 1000);
    let whole = feed.len();
    feed.extend(add_frame(2, 2, b'B', 10, 1000));
    // the last byte of the second frame is missing
    feed.pop();
    let rows = process_itch_file(&feed, &mut book);
    assert_eq!(rows.len(), 1);
    assert_eq!(book.message_count(), 1);
    let (next, row) = process_frame(&feed, 0, &mut book).unwrap();
    assert_eq!(next, whole);
    assert!(row.is_some());
    assert!(process_frame(&feed, whole, &mut book).is_none());
}

#[test]
fn frame_that_ends_with_the_data_is_read() {
    let mut book = OrderBook::new(pad_stock_symbol("INTC"));
    let mut feed = add_frame(1, 1, b'B', 10, 1000);
    feed.extend(add_frame(2, 2, b'S', 20, 2000));
    let rows = process_itch_file(&feed, &mut book);
    assert_eq!(rows.len(), 2);
    assert_eq!(rows[1].timestamp(), 2);
    assert_eq!(rows[1].asks()[0], PriceLevel { price: 2000, total_volume: 20 });
    assert_eq!(rows[1].bids()[0], PriceLevel { price: 1000, total_volume: 10 });
}

#[test]
fn walk_needs_a_whole_header() {
    let mut book = OrderBook::new(pad_stock_symbol("INTC"));
    assert!(process_itch_file(&[], &mut book).is_empty());
    assert!(process_itch_file(&[0], &mut book).is_empty());
    assert!(process_itch_file(&[0, 1], &mut book).is_empty());
    assert!(process_frame(&[0, 1], 0, &mut book).is_none());
    assert!(process_frame(&[0, 1, b'S'], 1, &mut book).is_none());
    assert!(process_frame(&[0, 1, b'S'], usize::MAX, &mut book).is_none());
    assert_eq!(book.message_count(), 0);
    let (next, row) = process_frame(&[0, 1, b'S'], 0, &mut book).unwrap();
    assert_eq!(next, 3);
    assert!(row.is_none());
    assert_eq!(book.message_count(), 1);
}

#[test]
fn unknown_and_short_frames_are_skipped() {
    let mut book = OrderBook::new(pad_stock_symbol("INTC"));
    let mut feed = vec![0u8, 3, b'z', 9, 9];
    // a frame without a tag
    feed.extend([0u8, 0]);
    // an add-order frame that is too short for its fields
    feed.extend([0u8, 5, b'A', 1, 2, 3, 4]);
    // a class that the engine counts but does not read
    feed.extend([0u8, 2, b'S', 1]);
    feed.extend(add_frame(0xabcdef012345, 1, b'B', 10, 1000));
    let rows = process_itch_file(&feed, &mut book);
    assert_eq!(rows.len(), 1);
    assert_eq!(rows[0].timestamp(), 0xabcdef012345);
    assert_eq!(book.message_count(), 2);
    assert_eq!(book.update_count(), 1);
}

#[test]
fn engine_keeps_its_state_between_feeds() {
    let mut book = OrderBook::new(pad_stock_symbol("INTC"));
    assert_eq!(process_itch_file(&add_frame(1, 1, b'B', 10, 1000), &mut book).len(), 1);
    let rows = process_itch_file(&add_frame(2, 2, b'B', 5, 1000), &mut book);
    assert_eq!(rows[0].bids()[0], PriceLevel { price: 1000, total_volume: 15 });
    assert_eq!(book.message_count(), 2);
}
