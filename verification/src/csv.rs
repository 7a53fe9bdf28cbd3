//! The text of the output: the header line, and of each snapshot the
//! timestamp and the forty depth columns.
//!
//! Prices are written with four decimal places, volumes as plain integers.

use crate::orderbook::PriceLevel;
use crate::snapshot::Snapshot;
use crate::snapshot::SnapshotView;
use crate::snapshot::MAX_BOOK_DEPTH;
use vstd::prelude::*;
use vstd::string::StringExecFns;

verus! {

/// The character of a decimal digit.
pub open spec fn digit(value: nat) -> char {
    (('0' as u8) + value) as char
}

/// A number in decimal, without leading zeros.
pub open spec fn decimal(value: nat) -> Seq<char>
    decreases value,
{
    if value < 10 {
        seq![digit(value)]
    } else {
        decimal(value / 10).push(digit(value % 10))
    }
}

/// A number below 10,000 in four digits, with leading zeros.
pub open spec fn four_digits(value: nat) -> Seq<char> {
    seq![
        digit(value / 1000 % 10),
        digit(value / 100 % 10),
        digit(value / 10 % 10),
        digit(value % 10),
    ]
}

/// A price, which is held times 10,000, with its four decimal places.
pub open spec fn price_text(price: u32) -> Seq<char> {
    decimal((price / 10000) as nat) + seq!['.'] + four_digits((price % 10000) as nat)
}

/// The four columns of one depth level, each with a comma in front: bid
/// price, bid volume, ask price, ask volume.
pub open spec fn level_text(bid: PriceLevel, ask: PriceLevel) -> Seq<char> {
    seq![','] + price_text(bid.price) + seq![','] + decimal(bid.total_volume as nat) + seq![',']
        + price_text(ask.price) + seq![','] + decimal(ask.total_volume as nat)
}

/// The columns of the first `count` depth levels.
pub open spec fn depth_text(bids: Seq<PriceLevel>, asks: Seq<PriceLevel>, count: nat) -> Seq<char>
    decreases count,
{
    if count == 0 {
        Seq::empty()
    } else {
        depth_text(bids, asks, (count - 1) as nat) + level_text(bids[count - 1], asks[count - 1])
    }
}

/// The row of a snapshot up to its last depth column: the timestamp and the
/// columns of the ten levels.
pub open spec fn row_text(snapshot: SnapshotView) -> Seq<char> {
    decimal(snapshot.timestamp as nat) + depth_text(
        snapshot.bids,
        snapshot.asks,
        MAX_BOOK_DEPTH as nat,
    )
}

/// The names of the four columns of depth level `level`, each with a comma in
/// front.
pub open spec fn level_names(level: nat) -> Seq<char> {
    seq![','] + decimal(level) + "_bid_price,"@ + decimal(level) + "_bid_vol,"@ + decimal(level)
        + "_ask_price,"@ + decimal(level) + "_ask_vol"@
}

/// The column names of the depth levels 1 to `count`.
pub open spec fn depth_names(count: nat) -> Seq<char>
    decreases count,
{
    if count == 0 {
        Seq::empty()
    } else {
        depth_names((count - 1) as nat) + level_names(count)
    }
}

/// The header line of the output, with its line end.
pub open spec fn header_text() -> Seq<char> {
    "timestamp"@ + depth_names(MAX_BOOK_DEPTH as nat) + ",mid_price,orderbook_imbalance\n"@
}

/// The number of commas in a text; a row has one field more.
pub open spec fn commas(text: Seq<char>) -> nat
    decreases text.len(),
{
    if text.len() == 0 {
        0
    } else {
        commas(text.drop_last()) + (if text.last() == ',' {
            1nat
        } else {
            0nat
        })
    }
}

/// The commas of two texts, one after the other, are those of both.
pub proof fn lemma_commas_concat(first: Seq<char>, second: Seq<char>)
    ensures
        commas(first + second) == commas(first) + commas(second),
    decreases second.len(),
{
    if second.len() == 0 {
        assert(first + second =~= first);
    } else {
        lemma_commas_concat(first, second.drop_last());
        assert((first + second).drop_last() =~= first + second.drop_last());
    }
}

/// A text of one character has one comma if that character is one.
pub proof fn lemma_commas_single(character: char)
    ensures
        commas(seq![character]) == (if character == ',' {
            1nat
        } else {
            0nat
        }),
{
    assert(seq![character].drop_last() =~= Seq::<char>::empty());
    assert(commas(seq![character].drop_last()) == 0);
}

/// A number in decimal holds no comma.
pub proof fn lemma_decimal_has_no_comma(value: nat)
    ensures
        commas(decimal(value)) == 0,
    decreases value,
{
    if value < 10 {
        lemma_commas_single(digit(value));
    } else {
        lemma_decimal_has_no_comma(value / 10);
        lemma_commas_single(digit(value % 10));
        lemma_commas_concat(decimal(value / 10), seq![digit(value % 10)]);
        assert(decimal(value) =~= decimal(value / 10) + seq![digit(value % 10)]);
    }
}

/// A price holds no comma.
pub proof fn lemma_price_has_no_comma(price: u32)
    ensures
        commas(price_text(price)) == 0,
{
    let fraction = (price % 10000) as nat;
    let whole = decimal((price / 10000) as nat);
    let a = seq![digit(fraction / 1000 % 10)];
    let b = seq![digit(fraction / 100 % 10)];
    let c = seq![digit(fraction / 10 % 10)];
    let d = seq![digit(fraction % 10)];
    lemma_decimal_has_no_comma((price / 10000) as nat);
    lemma_commas_single('.');
    lemma_commas_single(digit(fraction / 1000 % 10));
    lemma_commas_single(digit(fraction / 100 % 10));
    lemma_commas_single(digit(fraction / 10 % 10));
    lemma_commas_single(digit(fraction % 10));
    lemma_commas_concat(whole, seq!['.']);
    lemma_commas_concat(whole + seq!['.'], a);
    lemma_commas_concat(whole + seq!['.'] + a, b);
    lemma_commas_concat(whole + seq!['.'] + a + b, c);
    lemma_commas_concat(whole + seq!['.'] + a + b + c, d);
    assert(price_text(price) =~= whole + seq!['.'] + a + b + c + d);
}

/// The columns of one depth level hold four commas, one in front of each.
pub proof fn lemma_level_has_four_columns(bid: PriceLevel, ask: PriceLevel)
    ensures
        commas(level_text(bid, ask)) == 4,
{
    let comma = seq![','];
    let bid_price = price_text(bid.price);
    let bid_volume = decimal(bid.total_volume as nat);
    let ask_price = price_text(ask.price);
    let ask_volume = decimal(ask.total_volume as nat);
    lemma_commas_single(',');
    lemma_price_has_no_comma(bid.price);
    lemma_price_has_no_comma(ask.price);
    lemma_decimal_has_no_comma(bid.total_volume as nat);
    lemma_decimal_has_no_comma(ask.total_volume as nat);
    lemma_commas_concat(comma, bid_price);
    lemma_commas_concat(comma + bid_price, comma);
    lemma_commas_concat(comma + bid_price + comma, bid_volume);
    lemma_commas_concat(comma + bid_price + comma + bid_volume, comma);
    lemma_commas_concat(comma + bid_price + comma + bid_volume + comma, ask_price);
    lemma_commas_concat(comma + bid_price + comma + bid_volume + comma + ask_price, comma);
    lemma_commas_concat(
        comma + bid_price + comma + bid_volume + comma + ask_price + comma,
        ask_volume,
    );
}

/// The columns of `count` depth levels hold four commas per level.
pub proof fn lemma_depth_has_four_columns_per_level(
    bids: Seq<PriceLevel>,
    asks: Seq<PriceLevel>,
    count: nat,
)
    ensures
        commas(depth_text(bids, asks, count)) == 4 * count,
    decreases count,
{
    if count > 0 {
        lemma_depth_has_four_columns_per_level(bids, asks, (count - 1) as nat);
        lemma_level_has_four_columns(bids[count - 1], asks[count - 1]);
        lemma_commas_concat(
            depth_text(bids, asks, (count - 1) as nat),
            level_text(bids[count - 1], asks[count - 1]),
        );
    }
}

/// The text of every snapshot holds forty commas: the timestamp is followed
/// by forty depth columns, whether the book has that many levels or not.
pub proof fn lemma_row_has_forty_depth_columns(snapshot: SnapshotView)
    ensures
        commas(row_text(snapshot)) == 4 * MAX_BOOK_DEPTH,
{
    lemma_decimal_has_no_comma(snapshot.timestamp as nat);
    lemma_depth_has_four_columns_per_level(snapshot.bids, snapshot.asks, MAX_BOOK_DEPTH as nat);
    lemma_commas_concat(
        decimal(snapshot.timestamp as nat),
        depth_text(snapshot.bids, snapshot.asks, MAX_BOOK_DEPTH as nat),
    );
}

/// The text of one decimal digit.
fn digit_str(value: u8) -> (text: &'static str)
    requires
        value < 10,
    ensures
        text@ == seq![digit(value as nat)],
{
    proof {
        reveal_strlit("0");
        reveal_strlit("1");
        reveal_strlit("2");
        reveal_strlit("3");
        reveal_strlit("4");
        reveal_strlit("5");
        reveal_strlit("6");
        reveal_strlit("7");
        reveal_strlit("8");
        reveal_strlit("9");
    }
    let text = match value {
        0 => "0",
        1 => "1",
        2 => "2",
        3 => "3",
        4 => "4",
        5 => "5",
        6 => "6",
        7 => "7",
        8 => "8",
        _ => "9",
    };
    assert(text@ =~= seq![digit(value as nat)]);
    text
}

/// Appends a number in decimal.
fn push_decimal(out: &mut String, value: u64)
    ensures
        final(out)@ == old(out)@ + decimal(value as nat),
    decreases value,
{
    if value >= 10 {
        push_decimal(out, value / 10);
    }
    out.append(digit_str((value % 10) as u8));
    assert(out@ =~= old(out)@ + decimal(value as nat));
}

/// Splits a price, which is held times 10,000, into its integer part and its
/// four decimal places.
pub fn price_to_decimal_fast(price: u32) -> (parts: (u32, u32))
    ensures
        parts.0 == price / 10000,
        parts.1 == price % 10000,
{
    (price / 10000, price % 10000)
}

/// Appends a price with its four decimal places.
fn push_price(out: &mut String, price: u32)
    ensures
        final(out)@ == old(out)@ + price_text(price),
{
    let (integer, fraction) = price_to_decimal_fast(price);
    push_decimal(out, integer as u64);
    proof {
        reveal_strlit(".");
    }
    out.append(".");
    out.append(digit_str((fraction / 1000 % 10) as u8));
    out.append(digit_str((fraction / 100 % 10) as u8));
    out.append(digit_str((fraction / 10 % 10) as u8));
    out.append(digit_str((fraction % 10) as u8));
    assert(out@ =~= old(out)@ + price_text(price));
}

/// Appends the four columns of one depth level.
fn push_level(out: &mut String, bid: PriceLevel, ask: PriceLevel)
    ensures
        final(out)@ == old(out)@ + level_text(bid, ask),
{
    proof {
        reveal_strlit(",");
    }
    out.append(",");
    push_price(out, bid.price);
    out.append(",");
    push_decimal(out, bid.total_volume as u64);
    out.append(",");
    push_price(out, ask.price);
    out.append(",");
    push_decimal(out, ask.total_volume as u64);
    assert(out@ =~= old(out)@ + level_text(bid, ask));
}

/// The row of a snapshot up to its last depth column: the timestamp and,
/// level by level, bid price, bid volume, ask price and ask volume, separated
/// by commas. The two metrics and the line end are left to the writer.
pub fn depth_row(snapshot: &Snapshot) -> (row: String)
    ensures
        row@ == row_text(snapshot@),
{
    let bids = snapshot.bids();
    let asks = snapshot.asks();
    let mut row = String::new();
    push_decimal(&mut row, snapshot.timestamp());
    let mut level: usize = 0;
    while level < MAX_BOOK_DEPTH
        invariant
            level <= MAX_BOOK_DEPTH,
            bids@.len() == MAX_BOOK_DEPTH,
            asks@.len() == MAX_BOOK_DEPTH,
            row@ == decimal(snapshot@.timestamp as nat) + depth_text(bids@, asks@, level as nat),
        decreases MAX_BOOK_DEPTH - level,
    {
        push_level(&mut row, bids[level], asks[level]);
        level += 1;
        assert(row@ =~= decimal(snapshot@.timestamp as nat) + depth_text(
            bids@,
            asks@,
            level as nat,
        ));
    }
    row
}

/// The header line of the output: `timestamp`, the four column names of each
/// of the ten depth levels, and the names of the two metrics.
pub fn csv_header() -> (header: String)
    ensures
        header@ == header_text(),
{
    let mut header = String::from_str("timestamp");
    let mut level: usize = 1;
    while level <= MAX_BOOK_DEPTH
        invariant
            1 <= level <= MAX_BOOK_DEPTH + 1,
            header@ == "timestamp"@ + depth_names((level - 1) as nat),
        decreases MAX_BOOK_DEPTH + 1 - level,
    {
        proof {
            reveal_strlit(",");
        }
        header.append(",");
        push_decimal(&mut header, level as u64);
        header.append("_bid_price,");
        push_decimal(&mut header, level as u64);
        header.append("_bid_vol,");
        push_decimal(&mut header, level as u64);
        header.append("_ask_price,");
        push_decimal(&mut header, level as u64);
        header.append("_ask_vol");
        level += 1;
        assert(header@ =~= "timestamp"@ + depth_names((level - 1) as nat));
    }
    header.append(",mid_price,orderbook_imbalance\n");
    header
}

} // verus!
