use nasdaq_itch_orderbook::book::BookEvent;
use nasdaq_itch_orderbook::csv::depth_row;
use nasdaq_itch_orderbook::csv::price_to_decimal_fast;
use nasdaq_itch_orderbook::message_types::MessageType;
use nasdaq_itch_orderbook::orderbook::OrderBook;
use nasdaq_itch_orderbook::orderbook::PriceLevel;
use nasdaq_itch_orderbook::orderbook::Side;
use nasdaq_itch_orderbook::utils::pad_stock_symbol;

fn intc() -> OrderBook {
    OrderBook::new(pad_stock_symbol("INTC"))
}

fn add_event(reference: u64, side: Side, shares: u32, price: u32) -> BookEvent {
    BookEvent::Add { reference, side, shares, price }
}

fn level(price: u32, total_volume: u32) -> PriceLevel {
    PriceLevel { price, total_volume }
}

fn payload(len: usize) -> Vec<u8> {
    vec![0u8; len]
}

fn put(data: &mut [u8], offset: usize, bytes: &[u8]) {
    data[offset..offset + bytes.len()].copy_from_slice(bytes);
}

#[test]
fn new_book_is_empty() {
    let book = intc();
    assert_eq!(book.symbol(), *b"INTC    ");
    assert_eq!(book.message_count(), 0);
    assert_eq!(book.update_count(), 0);
    assert!(book.get_top_bids(10).is_empty());
    assert!(book.get_top_asks(10).is_empty());
}

#[test]
fn levels_sum_the_orders_at_a_price() {
    let mut book = intc();
    book.apply(add_event(1, Side::Buy, 100, 500000), 1);
    book.apply(add_event(2, Side::Buy, 40, 500000), 2);
    let row = book.apply(add_event(3, Side::Buy, 7, 499900), 3).unwrap();
    assert_eq!(row.bids()[0], level(500000, 140));
    assert_eq!(row.bids()[1], level(499900, 7));
    assert_eq!(row.total_bid_volume(), 147);
    assert_eq!(book.get_top_bids(1), vec![level(500000, 140)]);
}

#[test]
fn bids_fall_and_asks_rise() {
    let mut book = intc();
    let prices = [500300u32, 500100, 500500, 500200, 500400];
    let mut reference = 1;
    let mut last = None;
    for price in prices {
        book.apply(add_event(reference, Side::Buy, 10, price - 1000), 1);
        last = book.apply(add_event(reference + 100, Side::Sell, 20, price), 1);
        reference += 1;
    }
    let row = last.unwrap();
    let bids: Vec<u32> = row.bids().iter().map(|l| l.price).collect();
    let asks: Vec<u32> = row.asks().iter().map(|l| l.price).collect();
    assert_eq!(bids, vec![499500, 499400, 499300, 499200, 499100, 0, 0, 0, 0, 0]);
    assert_eq!(asks, vec![500100, 500200, 500300, 500400, 500500, 0, 0, 0, 0, 0]);
    assert_eq!(row.best_bid(), 499500);
    assert_eq!(row.best_ask(), 500100);
    assert_eq!(row.mid_price_sum(), 999600);
}

#[test]
fn only_the_ten_best_levels_are_shown() {
    let mut book = intc();
    let mut last = None;
    for i in 0..12u32 {
        book.apply(add_event(i as u64, Side::Buy, 1 + i, 1000 + i), 1);
        last = book.apply(add_event(100 + i as u64, Side::Sell, 1 + i, 5000 + i), 1);
    }
    let row = last.unwrap();
    let bids: Vec<PriceLevel> = row.bids().clone();
    let asks: Vec<PriceLevel> = row.asks().clone();
    assert_eq!(bids.len(), 10);
    assert_eq!(asks.len(), 10);
    for i in 0..10u32 {
        assert_eq!(bids[i as usize], level(1011 - i, 12 - i));
        assert_eq!(asks[i as usize], level(5000 + i, 1 + i));
    }
    // the depth slice holds less than the whole side
    assert_eq!(row.total_bid_volume(), (3..=12).sum::<u64>());
    assert_eq!(row.total_ask_volume(), (1..=10).sum::<u64>());
    assert_eq!(book.get_top_bids(12).len(), 12);
    assert_eq!(book.get_top_asks(20).len(), 12);
    assert_eq!(book.get_top_asks(0).len(), 0);
}

#[test]
fn over_execution_removes_the_order() {
    let mut book = intc();
    book.apply(add_event(1, Side::Sell, 100, 500000), 1);
    let row = book.apply(BookEvent::Reduce { reference: 1, amount: 4_000_000_000 }, 2).unwrap();
    assert_eq!(row.asks()[0], level(0, 0));
    assert_eq!(row.total_ask_volume(), 0);
    // the order is gone
    assert!(book.apply(BookEvent::Delete { reference: 1 }, 3).is_none());
    assert!(book.apply(BookEvent::Reduce { reference: 1, amount: 1 }, 3).is_none());
}

#[test]
fn over_execution_takes_the_amount_from_the_level() {
    let mut book = intc();
    book.apply(add_event(1, Side::Buy, 100, 500000), 1);
    book.apply(add_event(2, Side::Buy, 50, 500000), 1);
    let row = book.apply(BookEvent::Reduce { reference: 1, amount: 120 }, 2).unwrap();
    assert_eq!(row.bids()[0], level(500000, 30));
    let row = book.apply(BookEvent::Reduce { reference: 2, amount: 10 }, 3).unwrap();
    assert_eq!(row.bids()[0], level(500000, 20));
}

#[test]
fn delete_of_absent_reference_changes_nothing() {
    let mut book = intc();
    book.apply(add_event(1, Side::Buy, 100, 500000), 1);
    let before = book.get_top_bids(10);
    assert!(book.apply(BookEvent::Delete { reference: 9 }, 2).is_none());
    assert_eq!(book.get_top_bids(10), before);
    assert_eq!(book.update_count(), 1);
    assert!(book.apply(BookEvent::Delete { reference: 1 }, 3).is_some());
    assert!(book.apply(BookEvent::Delete { reference: 1 }, 4).is_none());
    assert_eq!(book.update_count(), 2);
}

#[test]
fn add_then_delete_restores_the_book() {
    let mut book = intc();
    book.apply(add_event(1, Side::Buy, 100, 500000), 1);
    book.apply(add_event(2, Side::Sell, 30, 500100), 1);
    let bids = book.get_top_bids(10);
    let asks = book.get_top_asks(10);
    assert!(book.apply(add_event(3, Side::Buy, 25, 500000), 2).is_some());
    assert_ne!(book.get_top_bids(10), bids);
    assert!(book.apply(BookEvent::Delete { reference: 3 }, 3).is_some());
    assert_eq!(book.get_top_bids(10), bids);
    assert_eq!(book.get_top_asks(10), asks);
    assert!(book.apply(add_event(4, Side::Sell, 25, 600000), 4).is_some());
    assert!(book.apply(BookEvent::Delete { reference: 4 }, 5).is_some());
    assert_eq!(book.get_top_asks(10), asks);
    assert_eq!(book.update_count(), 6);
}

#[test]
fn shown_volume_is_the_sum_of_live_shares() {
    let mut book = intc();
    let mut live: u64 = 0;
    for i in 0..8u32 {
        book.apply(add_event(i as u64, Side::Buy, 10 + i, 1000 + i % 3), 1);
        live += (10 + i) as u64;
    }
    let row = book.apply(BookEvent::Reduce { reference: 0, amount: 4 }, 2).unwrap();
    live -= 4;
    assert_eq!(row.total_bid_volume(), live);
    let row = book.apply(BookEvent::Delete { reference: 5 }, 2).unwrap();
    live -= 15;
    assert_eq!(row.total_bid_volume(), live);
    let row = book.apply(BookEvent::Replace { original: 7, reference: 70, shares: 1, price: 9 }, 2)
        .unwrap();
    live = live - 17 + 1;
    assert_eq!(row.total_bid_volume(), live);
}

#[test]
fn mid_price_with_an_empty_side() {
    let mut book = intc();
    let row = book.apply(add_event(1, Side::Sell, 100, 500000), 1).unwrap();
    assert_eq!(row.best_bid(), 0);
    assert_eq!(row.mid_price_sum(), 500000);
    assert_eq!(format!("{:.4}", row.mid_price_sum() as f64 / 20000.0), "25.0000");
    let row = book.apply(BookEvent::Delete { reference: 1 }, 2).unwrap();
    assert_eq!(row.mid_price_sum(), 0);
    let row = book.apply(add_event(2, Side::Buy, 100, 300000), 3).unwrap();
    assert_eq!(row.best_ask(), 0);
    assert_eq!(row.mid_price_sum(), 300000);
}

#[test]
fn imbalance_stays_within_one() {
    let mut book = intc();
    let row = book.apply(add_event(1, Side::Buy, 300, 500000), 1).unwrap();
    assert_eq!((row.total_bid_volume(), row.total_ask_volume()), (300, 0));
    let row = book.apply(add_event(2, Side::Sell, 100, 500100), 1).unwrap();
    let (bid, ask) = (row.total_bid_volume() as f64, row.total_ask_volume() as f64);
    let imbalance = (bid - ask) / (bid + ask);
    assert_eq!(format!("{:.6}", imbalance), "0.500000");
    assert!(imbalance.abs() <= 1.0);
    let row = book.apply(BookEvent::Delete { reference: 1 }, 2).unwrap();
    let (bid, ask) = (row.total_bid_volume() as f64, row.total_ask_volume() as f64);
    assert_eq!((bid - ask) / (bid + ask), -1.0);
}

#[test]
fn volumes_of_ten_full_levels_do_not_overflow() {
    let mut book = intc();
    let mut last = None;
    for i in 0..10u32 {
        last = book.apply(add_event(i as u64, Side::Buy, u32::MAX, 1000 + i), 1);
    }
    assert_eq!(last.unwrap().total_bid_volume(), 10 * u32::MAX as u64);
}

#[test]
fn level_volume_stops_at_the_largest_value() {
    let mut book = intc();
    book.apply(add_event(1, Side::Buy, u32::MAX - 5, 1000), 1);
    let row = book.apply(add_event(2, Side::Buy, 10, 1000), 1).unwrap();
    assert_eq!(row.bids()[0], level(1000, u32::MAX));
}

#[test]
fn zero_share_order_shows_an_empty_level() {
    let mut book = intc();
    let row = book.apply(add_event(1, Side::Buy, 0, 1000), 1).unwrap();
    assert_eq!(row.bids()[0], level(1000, 0));
    let row = book.apply(BookEvent::Delete { reference: 1 }, 2).unwrap();
    assert_eq!(row.bids()[0], level(0, 0));
}

#[test]
fn buy_side_is_searched_first() {
    let mut book = intc();
    book.apply(add_event(1, Side::Buy, 10, 1000), 1);
    book.apply(add_event(1, Side::Sell, 20, 2000), 1);
    let row = book.apply(BookEvent::Delete { reference: 1 }, 2).unwrap();
    assert_eq!(row.bids()[0], level(0, 0));
    assert_eq!(row.asks()[0], level(2000, 20));
    let row = book.apply(BookEvent::Delete { reference: 1 }, 3).unwrap();
    assert_eq!(row.asks()[0], level(0, 0));
}

#[test]
fn replacement_stays_on_its_side() {
    let mut book = intc();
    book.apply(add_event(1, Side::Sell, 10, 2000), 5);
    let row = book
        .apply(BookEvent::Replace { original: 1, reference: 2, shares: 4, price: 1900 }, 6)
        .unwrap();
    assert_eq!(row.asks()[0], level(1900, 4));
    assert_eq!(row.asks()[1], level(0, 0));
    assert_eq!(row.bids()[0], level(0, 0));
    assert_eq!(row.timestamp(), 6);
    assert!(book
        .apply(BookEvent::Replace { original: 1, reference: 3, shares: 4, price: 1900 }, 7)
        .is_none());
    // a replacement may keep its reference number
    let row = book
        .apply(BookEvent::Replace { original: 2, reference: 2, shares: 9, price: 1800 }, 8)
        .unwrap();
    assert_eq!(row.asks()[0], level(1800, 9));
    assert_eq!(row.asks()[1], level(0, 0));
}

#[test]
fn flush_is_due_every_hundred_rows() {
    let mut book = intc();
    for i in 1..=250u64 {
        let row = book.apply(add_event(i, Side::Buy, 1, 1000), i).unwrap();
        assert_eq!(row.flush(), i % 100 == 0);
    }
    assert_eq!(book.update_count(), 250);
}

#[test]
fn handle_message_reads_the_fields_at_their_offsets() {
    let mut book = intc();
    let mut data = payload(35);
    put(&mut data, 10, &0x0102030405060708u64.to_be_bytes());
    data[18] = b'S';
    put(&mut data, 19, &258u32.to_be_bytes());
    put(&mut data, 23, b"INTC    ");
    put(&mut data, 31, &1234567u32.to_be_bytes());
    let row = book.handle_message(MessageType::AddOrder, &data, 77).unwrap();
    assert_eq!(row.timestamp(), 77);
    assert_eq!(row.asks()[0], level(1234567, 258));
    assert_eq!(depth_row(&row), format!("77,0.0000,0,123.4567,258{}", ",0.0000,0,0.0000,0".repeat(9)));

    let mut executed = payload(35);
    put(&mut executed, 10, &0x0102030405060708u64.to_be_bytes());
    put(&mut executed, 18, &58u32.to_be_bytes());
    put(&mut executed, 31, &999u32.to_be_bytes());
    let row = book.handle_message(MessageType::OrderExecutedWithPrice, &executed, 78).unwrap();
    // the order keeps the price it rests at
    assert_eq!(row.asks()[0], level(1234567, 200));

    let mut replaced = payload(34);
    put(&mut replaced, 10, &0x0102030405060708u64.to_be_bytes());
    put(&mut replaced, 18, &5u64.to_be_bytes());
    put(&mut replaced, 26, &11u32.to_be_bytes());
    put(&mut replaced, 30, &22u32.to_be_bytes());
    let row = book.handle_message(MessageType::OrderReplace, &replaced, 79).unwrap();
    assert_eq!(row.asks()[0], level(22, 11));
    assert_eq!(row.asks()[1], level(0, 0));

    let mut cancelled = payload(22);
    put(&mut cancelled, 10, &5u64.to_be_bytes());
    put(&mut cancelled, 18, &1u32.to_be_bytes());
    let row = book.handle_message(MessageType::OrderCancel, &cancelled, 80).unwrap();
    assert_eq!(row.asks()[0], level(22, 10));
    let row = book.handle_message(MessageType::OrderExecuted, &cancelled, 81).unwrap();
    assert_eq!(row.asks()[0], level(22, 9));

    let mut deleted = payload(18);
    put(&mut deleted, 10, &5u64.to_be_bytes());
    let row = book.handle_message(MessageType::OrderDelete, &deleted, 82).unwrap();
    assert_eq!(row.asks()[0], level(0, 0));
    assert_eq!(book.message_count(), 6);
    assert_eq!(book.update_count(), 6);
    let statistics = book.finalize();
    assert_eq!((statistics.messages, statistics.updates), (6, 6));
}

#[test]
fn handlers_do_not_count_messages() {
    let mut book = intc();
    let mut data = payload(39);
    data[18] = b'B';
    put(&mut data, 19, &3u32.to_be_bytes());
    put(&mut data, 23, b"INTC    ");
    put(&mut data, 31, &10000u32.to_be_bytes());
    let row = book.handle_add_order_with_mpid(&data, 5).unwrap();
    assert_eq!(row.bids()[0], level(10000, 3));
    put(&mut data, 10, &1u64.to_be_bytes());
    let row = book.handle_add_order(&data, 6).unwrap();
    assert_eq!(row.bids()[0], level(10000, 6));
    assert!(book.handle_order_delete(&data, 7).is_some());
    put(&mut data, 10, &0u64.to_be_bytes());
    put(&mut data, 18, &1u32.to_be_bytes());
    assert!(book.handle_order_executed(&data, 8).is_some());
    assert!(book.handle_order_executed_with_price(&data, 8).is_some());
    let row = book.handle_order_cancel(&data, 8).unwrap();
    assert_eq!(row.bids()[0], level(0, 0));
    assert!(book.handle_order_replace(&data, 9).is_none());
    assert_eq!(book.message_count(), 0);
    assert_eq!(book.update_count(), 6);
}

#[test]
fn any_side_byte_but_b_is_a_sell() {
    assert_eq!(Side::from(b'B'), Side::Buy);
    assert_eq!(Side::from(b'S'), Side::Sell);
    assert_eq!(Side::from(b'b'), Side::Sell);
    assert_eq!(Side::from(0), Side::Sell);
}

#[test]
fn trade_never_changes_the_book() {
    let mut book = intc();
    let mut data = payload(43);
    put(&mut data, 23, b"INTC    ");
    assert!(book.handle_trade(&data));
    put(&mut data, 23, b"INTD    ");
    assert!(!book.handle_trade(&data));
    assert!(book.handle_message(MessageType::Trade, &data, 1).is_none());
    put(&mut data, 23, b"INTC    ");
    assert!(book.handle_message(MessageType::Trade, &data, 1).is_none());
    assert_eq!(book.message_count(), 2);
    assert_eq!(book.update_count(), 0);
    assert!(book.get_top_bids(10).is_empty());
}

#[test]
fn other_classes_are_counted_only() {
    let mut book = intc();
    assert!(book.handle_message(MessageType::SystemEvent, &[], 0).is_none());
    assert!(book.handle_message(MessageType::Unknown, &[1, 2], 0).is_none());
    assert_eq!(book.message_count(), 2);
    assert_eq!(book.update_count(), 0);
}

#[test]
fn prices_have_four_decimal_places() {
    assert_eq!(price_to_decimal_fast(499900), (49, 9900));
    assert_eq!(price_to_decimal_fast(5), (0, 5));
    assert_eq!(price_to_decimal_fast(u32::MAX), (429496, 7295));
    let mut book = intc();
    book.apply(add_event(1, Side::Buy, u32::MAX, u32::MAX), u64::MAX);
    let row = book.apply(add_event(2, Side::Sell, 1, 70), u64::MAX).unwrap();
    assert_eq!(
        depth_row(&row),
        format!(
            "18446744073709551615,429496.7295,4294967295,0.0070,1{}",
            ",0.0000,0,0.0000,0".repeat(9)
        )
    );
}
