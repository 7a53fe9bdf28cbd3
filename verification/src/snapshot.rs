//! The depth-10 snapshot that follows every event that touches the book.

use crate::book::BookState;
use crate::levels::padded;
use crate::levels::top_levels;
use crate::orderbook::PriceLevel;
use crate::orderbook::Side;
use vstd::prelude::*;

verus! {

/// The number of levels per side in a snapshot.
pub const MAX_BOOK_DEPTH: usize = 10;

/// A snapshot is flushed to its sink after every so many rows.
pub const FLUSH_INTERVAL: u64 = 100;

/// What a snapshot holds.
pub struct SnapshotView {
    /// The timestamp of the event that the snapshot follows.
    pub timestamp: u64,
    /// The ten best bids, highest first, filled up with empty levels.
    pub bids: Seq<PriceLevel>,
    /// The ten best asks, lowest first, filled up with empty levels.
    pub asks: Seq<PriceLevel>,
    /// Whether the sink is to be flushed once this row is written.
    pub flush: bool,
}

/// The best levels of one side of a snapshot.
pub open spec fn depth_of(levels: Map<u32, u32>, side: Side) -> Seq<PriceLevel> {
    padded(top_levels(levels, side, MAX_BOOK_DEPTH as nat), MAX_BOOK_DEPTH as nat)
}

/// The snapshot of `book` after an event at `timestamp`, as row number
/// `sequence` of the output.
pub open spec fn snapshot_of(book: BookState, timestamp: u64, sequence: u64) -> SnapshotView {
    SnapshotView {
        timestamp,
        bids: depth_of(book.buy_levels, Side::Buy),
        asks: depth_of(book.sell_levels, Side::Sell),
        flush: sequence % FLUSH_INTERVAL == 0,
    }
}

/// The sum of the volumes of a run of levels.
pub open spec fn volume_sum(levels: Seq<PriceLevel>) -> nat
    decreases levels.len(),
{
    if levels.len() == 0 {
        0
    } else {
        volume_sum(levels.drop_last()) + levels.last().total_volume as nat
    }
}

impl SnapshotView {
    /// The best bid price; zero where the buy side is empty.
    pub open spec fn best_bid(self) -> u32 {
        self.bids[0].price
    }

    /// The best ask price; zero where the sell side is empty.
    pub open spec fn best_ask(self) -> u32 {
        self.asks[0].price
    }

    /// The sum of the best bid and the best ask. Prices are held times
    /// 10,000, so the mid price is this sum divided by 20,000.
    pub open spec fn mid_price_sum(self) -> nat {
        (self.best_bid() + self.best_ask()) as nat
    }

    /// The volume of the ten bid levels together.
    pub open spec fn bid_volume(self) -> nat {
        volume_sum(self.bids)
    }

    /// The volume of the ten ask levels together.
    pub open spec fn ask_volume(self) -> nat {
        volume_sum(self.asks)
    }
}

/// A run of levels holds at most `u32::MAX` per level.
pub proof fn lemma_volume_sum_bound(levels: Seq<PriceLevel>)
    ensures
        volume_sum(levels) <= levels.len() * u32::MAX,
    decreases levels.len(),
{
    if levels.len() > 0 {
        lemma_volume_sum_bound(levels.drop_last());
        assert((levels.len() - 1) * u32::MAX + u32::MAX == levels.len() * u32::MAX)
            by (nonlinear_arith);
    }
}

/// Adds up the volumes of a run of levels.
fn sum_volumes(levels: &Vec<PriceLevel>) -> (total: u64)
    requires
        levels@.len() <= MAX_BOOK_DEPTH,
    ensures
        total == volume_sum(levels@),
{
    let mut total: u64 = 0;
    let mut taken: usize = 0;
    assert(levels@.take(0) =~= Seq::empty());
    while taken < levels.len()
        invariant
            taken <= levels@.len() <= MAX_BOOK_DEPTH,
            total == volume_sum(levels@.take(taken as int)),
        decreases levels@.len() - taken,
    {
        proof {
            lemma_volume_sum_bound(levels@.take(taken as int));
            assert(levels@.take(taken + 1).drop_last() =~= levels@.take(taken as int));
            assert(taken * u32::MAX <= 10 * u32::MAX) by (nonlinear_arith)
                requires
                    taken <= 10,
            ;
        }
        total = total + levels[taken].total_volume as u64;
        taken += 1;
    }
    assert(levels@.take(taken as int) =~= levels@);
    total
}

/// One row of the output: the depth of both sides after an event.
#[derive(Debug, PartialEq, Eq)]
pub struct Snapshot {
    timestamp: u64,
    bids: Vec<PriceLevel>,
    asks: Vec<PriceLevel>,
    flush: bool,
}

impl View for Snapshot {
    type V = SnapshotView;

    closed spec fn view(&self) -> SnapshotView {
        SnapshotView {
            timestamp: self.timestamp,
            bids: self.bids@,
            asks: self.asks@,
            flush: self.flush,
        }
    }
}

impl Snapshot {
    #[verifier::type_invariant]
    spec fn full_depth(self) -> bool {
        self.bids@.len() == MAX_BOOK_DEPTH && self.asks@.len() == MAX_BOOK_DEPTH
    }

    /// A snapshot of the given levels.
    pub(crate) fn new(timestamp: u64, bids: Vec<PriceLevel>, asks: Vec<PriceLevel>, flush: bool) -> (row:
        Snapshot)
        requires
            bids@.len() == MAX_BOOK_DEPTH,
            asks@.len() == MAX_BOOK_DEPTH,
        ensures
            row@ == (SnapshotView { timestamp, bids: bids@, asks: asks@, flush }),
    {
        Snapshot { timestamp, bids, asks, flush }
    }

    /// The timestamp of the event that the snapshot follows.
    pub fn timestamp(&self) -> (timestamp: u64)
        ensures
            timestamp == self@.timestamp,
    {
        self.timestamp
    }

    /// The ten bid levels, best first.
    pub fn bids(&self) -> (bids: &Vec<PriceLevel>)
        ensures
            bids@ == self@.bids,
            bids@.len() == MAX_BOOK_DEPTH,
    {
        proof {
            use_type_invariant(self);
        }
        &self.bids
    }

    /// The ten ask levels, best first.
    pub fn asks(&self) -> (asks: &Vec<PriceLevel>)
        ensures
            asks@ == self@.asks,
            asks@.len() == MAX_BOOK_DEPTH,
    {
        proof {
            use_type_invariant(self);
        }
        &self.asks
    }

    /// The best bid price; zero where the buy side is empty.
    pub fn best_bid(&self) -> (price: u32)
        ensures
            price == self@.best_bid(),
    {
        proof {
            use_type_invariant(self);
        }
        self.bids[0].price
    }

    /// The best ask price; zero where the sell side is empty.
    pub fn best_ask(&self) -> (price: u32)
        ensures
            price == self@.best_ask(),
    {
        proof {
            use_type_invariant(self);
        }
        self.asks[0].price
    }

    /// The sum of the best bid and the best ask: the mid price times 20,000.
    pub fn mid_price_sum(&self) -> (sum: u64)
        ensures
            sum == self@.mid_price_sum(),
    {
        self.best_bid() as u64 + self.best_ask() as u64
    }

    /// The volume of the ten bid levels together.
    pub fn total_bid_volume(&self) -> (total: u64)
        ensures
            total == self@.bid_volume(),
    {
        proof {
            use_type_invariant(self);
        }
        sum_volumes(&self.bids)
    }

    /// The volume of the ten ask levels together.
    pub fn total_ask_volume(&self) -> (total: u64)
        ensures
            total == self@.ask_volume(),
    {
        proof {
            use_type_invariant(self);
        }
        sum_volumes(&self.asks)
    }

    /// Whether the sink is to be flushed once this row is written.
    pub fn flush(&self) -> (flush: bool)
        ensures
            flush == self@.flush,
    {
        self.flush
    }
}

} // verus!
