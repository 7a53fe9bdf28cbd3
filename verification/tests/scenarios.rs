use nasdaq_itch_orderbook::csv::csv_header;
use nasdaq_itch_orderbook::csv::depth_row;
use nasdaq_itch_orderbook::orderbook::OrderBook;
use nasdaq_itch_orderbook::parser::process_itch_file;
use nasdaq_itch_orderbook::snapshot::Snapshot;
use nasdaq_itch_orderbook::utils::pad_stock_symbol;

fn frame(tag: u8, payload: &[u8]) -> Vec<u8> {
    let mut out = Vec::new();
    let len = (payload.len() + 1) as u16;
    out.extend_from_slice(&len.to_be_bytes());
    out.push(tag);
    out.extend_from_slice(payload);
    out
}

fn prefix(timestamp: u64) -> Vec<u8> {
    let mut out = vec![0u8, 1, 0, 2];
    out.extend_from_slice(&timestamp.to_be_bytes()[2..]);
    out
}

fn add(timestamp: u64, reference: u64, side: u8, shares: u32, symbol: &str, price: u32) -> Vec<u8> {
    let mut p = prefix(timestamp);
    p.extend_from_slice(&reference.to_be_bytes());
    p.push(side);
    p.extend_from_slice(&shares.to_be_bytes());
    p.extend_from_slice(&pad_stock_symbol(symbol));
    p.extend_from_slice(&price.to_be_bytes());
    frame(b'A', &p)
}

fn reduce(tag: u8, timestamp: u64, reference: u64, amount: u32) -> Vec<u8> {
    let mut p = prefix(timestamp);
    p.extend_from_slice(&reference.to_be_bytes());
    p.extend_from_slice(&amount.to_be_bytes());
    if tag != b'X' {
        p.extend_from_slice(&7u64.to_be_bytes());
    }
    frame(tag, &p)
}

fn replace(timestamp: u64, original: u64, reference: u64, shares: u32, price: u32) -> Vec<u8> {
    let mut p = prefix(timestamp);
    p.extend_from_slice(&original.to_be_bytes());
    p.extend_from_slice(&reference.to_be_bytes());
    p.extend_from_slice(&shares.to_be_bytes());
    p.extend_from_slice(&price.to_be_bytes());
    frame(b'U', &p)
}

fn zeros(levels: usize) -> String {
    let mut s = String::new();
    for _ in 0..levels {
        s.push_str(",0.0000,0,0.0000,0");
    }
    s
}

// The two trailing columns, computed from the integers of the snapshot as the
// writer does.
fn metrics(row: &Snapshot) -> String {
    let mid = row.mid_price_sum() as f64 / 20000.0;
    let bid = row.total_bid_volume();
    let ask = row.total_ask_volume();
    let imbalance = if bid == 0 && ask == 0 {
        0.0
    } else {
        (bid as f64 - ask as f64) / (bid as f64 + ask as f64)
    };
    format!(",{:.4},{:.6}", mid, imbalance)
}

fn line(row: &Snapshot) -> String {
    format!("{}{}", depth_row(row), metrics(row))
}

#[test]
fn single_add() {
    let mut book = OrderBook::new(pad_stock_symbol("INTC"));
    let feed = add(1000, 1, b'B', 100, "INTC", 500000);
    let rows = process_itch_file(&feed, &mut book);
    assert_eq!(rows.len(), 1);
    assert_eq!(
        line(&rows[0]),
        format!("1000,50.0000,100,0.0000,0{},25.0000,1.000000", zeros(9))
    );
    assert_eq!(rows[0].bids()[0].price, 500000);
    assert_eq!(rows[0].bids()[0].total_volume, 100);
    for level in rows[0].asks() {
        assert_eq!((level.price, level.total_volume), (0, 0));
    }
    assert_eq!(book.message_count(), 1);
    assert_eq!(book.update_count(), 1);
}

#[test]
fn add_then_cancel_partial() {
    let mut book = OrderBook::new(pad_stock_symbol("INTC"));
    let mut feed = add(1000, 1, b'B', 100, "INTC", 500000);
    feed.extend(reduce(b'X', 2000, 1, 30));
    let rows = process_itch_file(&feed, &mut book);
    assert_eq!(rows.len(), 2);
    assert_eq!(rows[1].bids()[0].total_volume, 70);
    assert_eq!(rows[1].bids()[0].price, 500000);
    assert_eq!(rows[1].timestamp(), 2000);
    assert_eq!(
        line(&rows[1]),
        format!("2000,50.0000,70,0.0000,0{},25.0000,1.000000", zeros(9))
    );
}

#[test]
fn add_then_full_execute() {
    let mut book = OrderBook::new(pad_stock_symbol("INTC"));
    let mut feed = add(1000, 1, b'B', 100, "INTC", 500000);
    feed.extend(reduce(b'E', 2000, 1, 100));
    let rows = process_itch_file(&feed, &mut book);
    assert_eq!(rows.len(), 2);
    assert_eq!(line(&rows[1]), format!("2000{},0.0000,0.000000", zeros(10)));
    assert_eq!(book.get_top_bids(10).len(), 0);
}

#[test]
fn two_level_bid() {
    let mut book = OrderBook::new(pad_stock_symbol("INTC"));
    let mut feed = add(1000, 1, b'B', 50, "INTC", 500000);
    feed.extend(add(1001, 2, b'B', 70, "INTC", 499900));
    let rows = process_itch_file(&feed, &mut book);
    assert_eq!(rows.len(), 2);
    assert_eq!(
        depth_row(&rows[1]),
        format!("1001,50.0000,50,0.0000,0,49.9900,70,0.0000,0{}", zeros(8))
    );
}

#[test]
fn replace_order() {
    let mut book = OrderBook::new(pad_stock_symbol("INTC"));
    let first = add(1000, 1, b'B', 100, "INTC", 500000);
    let rows = process_itch_file(&first, &mut book);
    assert_eq!(rows.len(), 1);
    let second = replace(2000, 1, 2, 80, 499800);
    let rows = process_itch_file(&second, &mut book);
    assert_eq!(rows.len(), 1);
    assert_eq!(
        line(&rows[0]),
        format!("2000,49.9800,80,0.0000,0{},24.9900,1.000000", zeros(9))
    );
    assert_eq!(book.update_count(), 2);
    // ref 1 is gone: deleting it gives no row; ref 2 is live: deleting it does
    let mut gone = prefix(3000);
    gone.extend_from_slice(&1u64.to_be_bytes());
    assert_eq!(process_itch_file(&frame(b'D', &gone), &mut book).len(), 0);
    let mut live = prefix(3001);
    live.extend_from_slice(&2u64.to_be_bytes());
    let rows = process_itch_file(&frame(b'D', &live), &mut book);
    assert_eq!(rows.len(), 1);
    assert_eq!(line(&rows[0]), format!("3001{},0.0000,0.000000", zeros(10)));
}

#[test]
fn out_of_symbol_drop() {
    let mut book = OrderBook::new(pad_stock_symbol("INTC"));
    let feed = add(1000, 1, b'B', 100, "AAPL", 500000);
    let rows = process_itch_file(&feed, &mut book);
    assert_eq!(rows.len(), 0);
    assert_eq!(book.message_count(), 1);
    assert_eq!(book.update_count(), 0);
    assert_eq!(book.get_top_bids(10).len(), 0);
    assert_eq!(book.get_top_asks(10).len(), 0);
}

#[test]
fn header_line() {
    let mut expected = String::from("timestamp");
    for level in 1..=10 {
        expected.push_str(&format!(
            ",{}_bid_price,{}_bid_vol,{}_ask_price,{}_ask_vol",
            level, level, level, level
        ));
    }
    expected.push_str(",mid_price,orderbook_imbalance\n");
    assert_eq!(csv_header(), expected);
    assert_eq!(csv_header().matches(',').count(), 42);
}

#[test]
fn row_has_forty_depth_columns() {
    let mut book = OrderBook::new(pad_stock_symbol("INTC"));
    let feed = add(1000, 1, b'S', 5, "INTC", 1);
    let rows = process_itch_file(&feed, &mut book);
    let text = depth_row(&rows[0]);
    assert_eq!(text.split(',').count(), 41);
    assert_eq!(text, format!("1000,0.0000,0,0.0001,5{}", zeros(9)));
    assert_eq!(metrics(&rows[0]), ",0.0001,-1.000000");
}
