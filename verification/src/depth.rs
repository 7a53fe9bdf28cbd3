//! What holds of every snapshot: the order of its levels, its padding, its
//! best prices and its volumes.

use crate::book::BookState;
use crate::consistency::its_volume;
use crate::consistency::lemma_volume_is_conserved;
use crate::consistency::total_shares;
use crate::consistency::total_volume;
use crate::levels::best_price;
use crate::levels::is_best;
use crate::levels::lemma_top_levels_len;
use crate::levels::no_level;
use crate::levels::padded;
use crate::levels::top_levels;
use crate::orderbook::PriceLevel;
use crate::orderbook::Side;
use crate::snapshot::depth_of;
use crate::snapshot::snapshot_of;
use crate::snapshot::volume_sum;
use crate::snapshot::SnapshotView;
use crate::snapshot::MAX_BOOK_DEPTH;
use crate::sums::lemma_sum_empty;
use crate::sums::lemma_sum_remove;
use vstd::prelude::*;

verus! {

/// Whether `first` is a better price than `second` on the side: higher for a
/// bid, lower for an ask.
pub open spec fn better(side: Side, first: u32, second: u32) -> bool {
    if side is Buy {
        first > second
    } else {
        first < second
    }
}

/// A side with a level has a best price.
pub proof fn lemma_best_exists(levels: Map<u32, u32>, side: Side)
    requires
        levels.dom().finite(),
        levels.dom().len() > 0,
    ensures
        best_price(levels, side) is Some,
        is_best(levels, side, best_price(levels, side)->0),
    decreases levels.dom().len(),
{
    let one = levels.dom().choose();
    let rest = levels.remove(one);
    if rest.dom().len() == 0 {
        assert forall|other: u32| #[trigger] levels.contains_key(other) implies other == one by {
            if other != one {
                assert(rest.dom().contains(other));
            }
        }
        assert(is_best(levels, side, one));
    } else {
        lemma_best_exists(rest, side);
        let top = best_price(rest, side)->0;
        let winner = if better(side, one, top) {
            one
        } else {
            top
        };
        assert forall|other: u32| #[trigger] levels.contains_key(other) implies (if side is Buy {
            other <= winner
        } else {
            winner <= other
        }) by {
            if other != one {
                assert(rest.contains_key(other));
            }
        }
        assert(levels.contains_key(top));
        assert(is_best(levels, side, winner));
    }
}

/// A side has a best price exactly when it has a level.
pub proof fn lemma_best_price_of_empty(levels: Map<u32, u32>, side: Side)
    requires
        levels.dom().finite(),
    ensures
        best_price(levels, side) is None <==> levels.dom().len() == 0,
{
    if levels.dom().len() > 0 {
        lemma_best_exists(levels, side);
    } else {
        assert forall|price: u32| !is_best(levels, side, price) by {
            assert(!levels.dom().contains(price));
        }
    }
}

/// The best levels are levels of the side, each with its volume, and each is
/// better than all that follow it.
pub proof fn lemma_top_levels_ordered(levels: Map<u32, u32>, side: Side, count: nat)
    ensures
        forall|i: int|
            0 <= i < top_levels(levels, side, count).len() ==> {
                let level = #[trigger] top_levels(levels, side, count)[i];
                levels.contains_key(level.price) && levels[level.price] == level.total_volume
            },
        forall|i: int, j: int|
            0 <= i < j < top_levels(levels, side, count).len() ==> better(
                side,
                #[trigger] top_levels(levels, side, count)[i].price,
                #[trigger] top_levels(levels, side, count)[j].price,
            ),
    decreases count,
{
    if count > 0 {
        match best_price(levels, side) {
            None => {},
            Some(price) => {
                let rest = levels.remove(price);
                let tail = top_levels(rest, side, (count - 1) as nat);
                let all = top_levels(levels, side, count);
                lemma_top_levels_ordered(rest, side, (count - 1) as nat);
                assert(is_best(levels, side, price));
                assert forall|i: int| 0 <= i < all.len() implies {
                    let level = #[trigger] all[i];
                    levels.contains_key(level.price) && levels[level.price] == level.total_volume
                } by {
                    if i > 0 {
                        assert(all[i] == tail[i - 1]);
                        assert(rest.contains_key(tail[i - 1].price));
                    }
                }
                assert forall|i: int, j: int| 0 <= i < j < all.len() implies better(
                    side,
                    #[trigger] all[i].price,
                    #[trigger] all[j].price,
                ) by {
                    assert(all[j] == tail[j - 1]);
                    assert(rest.contains_key(tail[j - 1].price));
                    assert(levels.contains_key(tail[j - 1].price));
                    if i > 0 {
                        assert(all[i] == tail[i - 1]);
                    }
                }
            },
        }
    }
}

/// There are as many best levels as were asked for, or as the side has if
/// those are fewer.
pub proof fn lemma_top_levels_count(levels: Map<u32, u32>, side: Side, count: nat)
    requires
        levels.dom().finite(),
    ensures
        top_levels(levels, side, count).len() == (if levels.dom().len() <= count {
            levels.dom().len()
        } else {
            count
        }),
    decreases count,
{
    lemma_best_price_of_empty(levels, side);
    if count > 0 {
        match best_price(levels, side) {
            None => {},
            Some(price) => {
                assert(is_best(levels, side, price));
                lemma_top_levels_count(levels.remove(price), side, (count - 1) as nat);
            },
        }
    }
}

/// The volume of two runs of levels, one after the other, is the sum of
/// their volumes.
pub proof fn lemma_volume_sum_concat(first: Seq<PriceLevel>, second: Seq<PriceLevel>)
    ensures
        volume_sum(first + second) == volume_sum(first) + volume_sum(second),
    decreases second.len(),
{
    if second.len() == 0 {
        assert(first + second =~= first);
    } else {
        lemma_volume_sum_concat(first, second.drop_last());
        assert((first + second).drop_last() =~= first + second.drop_last());
    }
}

/// The levels that fill a side up add no volume.
pub proof fn lemma_padding_is_empty(levels: Seq<PriceLevel>, count: nat)
    ensures
        padded(levels, count).len() == (if levels.len() >= count {
            levels.len()
        } else {
            count
        }),
        forall|i: int| 0 <= i < levels.len() ==> padded(levels, count)[i] == levels[i],
        forall|i: int|
            levels.len() <= i < padded(levels, count).len() ==> #[trigger] padded(levels, count)[i]
                == no_level(),
        volume_sum(padded(levels, count)) == volume_sum(levels),
    decreases count,
{
    if levels.len() < count {
        let shorter = padded(levels, (count - 1) as nat);
        lemma_padding_is_empty(levels, (count - 1) as nat);
        assert(padded(levels, count) =~= shorter.push(no_level()));
        assert(shorter.push(no_level()).drop_last() =~= shorter);
    }
}

/// The best levels hold no more volume than the side has, and all of it
/// where the side has no more levels than were asked for.
pub proof fn lemma_top_levels_volume(levels: Map<u32, u32>, side: Side, count: nat)
    requires
        levels.dom().finite(),
    ensures
        volume_sum(top_levels(levels, side, count)) <= total_volume(levels),
        levels.dom().len() <= count ==> volume_sum(top_levels(levels, side, count))
            == total_volume(levels),
    decreases count,
{
    lemma_best_price_of_empty(levels, side);
    if levels.dom().len() == 0 {
        assert(levels =~= Map::<u32, u32>::empty());
        lemma_sum_empty::<u32, u32>(its_volume());
    }
    if count > 0 {
        match best_price(levels, side) {
            None => {},
            Some(price) => {
                assert(is_best(levels, side, price));
                let rest = levels.remove(price);
                let head = seq![PriceLevel { price, total_volume: levels[price] }];
                lemma_top_levels_volume(rest, side, (count - 1) as nat);
                lemma_sum_remove(levels, its_volume(), price);
                lemma_volume_sum_concat(head, top_levels(rest, side, (count - 1) as nat));
                assert(head.drop_last() =~= Seq::<PriceLevel>::empty());
                assert(volume_sum(head) == levels[price]) by {
                    assert(volume_sum(head.drop_last()) == 0);
                }
            },
        }
    }
}

/// Every side of a snapshot has ten rows, whatever the book holds.
pub proof fn lemma_depth_has_ten_rows(levels: Map<u32, u32>, side: Side)
    ensures
        depth_of(levels, side).len() == MAX_BOOK_DEPTH,
{
    lemma_top_levels_len(levels, side, MAX_BOOK_DEPTH as nat);
    lemma_padding_is_empty(top_levels(levels, side, MAX_BOOK_DEPTH as nat), MAX_BOOK_DEPTH as nat);
}

/// The ten rows of a snapshot side are the levels of the side, as far as it
/// has any, and after them rows with price and volume zero: a side with
/// fewer than ten levels is filled up.
pub proof fn lemma_depth_is_padded(levels: Map<u32, u32>, side: Side)
    requires
        levels.dom().finite(),
    ensures
        depth_of(levels, side).len() == MAX_BOOK_DEPTH,
        forall|i: int|
            0 <= i < MAX_BOOK_DEPTH && i < levels.dom().len() ==> {
                let level = #[trigger] depth_of(levels, side)[i];
                levels.contains_key(level.price) && levels[level.price] == level.total_volume
            },
        forall|i: int|
            levels.dom().len() <= i < MAX_BOOK_DEPTH ==> #[trigger] depth_of(levels, side)[i]
                == no_level(),
{
    let top = top_levels(levels, side, MAX_BOOK_DEPTH as nat);
    lemma_top_levels_count(levels, side, MAX_BOOK_DEPTH as nat);
    lemma_top_levels_ordered(levels, side, MAX_BOOK_DEPTH as nat);
    lemma_padding_is_empty(top, MAX_BOOK_DEPTH as nat);
    assert forall|i: int| 0 <= i < MAX_BOOK_DEPTH && i < levels.dom().len() implies {
        let level = #[trigger] depth_of(levels, side)[i];
        levels.contains_key(level.price) && levels[level.price] == level.total_volume
    } by {
        assert(depth_of(levels, side)[i] == top[i]);
    }
}

/// Of two neighbouring rows of a snapshot side that both have a price, the
/// first has the better one: bids fall, asks rise.
pub proof fn lemma_depth_is_ordered(levels: Map<u32, u32>, side: Side, i: int)
    requires
        0 <= i < MAX_BOOK_DEPTH - 1,
        depth_of(levels, side)[i].price != 0,
        depth_of(levels, side)[i + 1].price != 0,
    ensures
        better(side, depth_of(levels, side)[i].price, depth_of(levels, side)[i + 1].price),
{
    let top = top_levels(levels, side, MAX_BOOK_DEPTH as nat);
    lemma_top_levels_len(levels, side, MAX_BOOK_DEPTH as nat);
    lemma_top_levels_ordered(levels, side, MAX_BOOK_DEPTH as nat);
    lemma_padding_is_empty(top, MAX_BOOK_DEPTH as nat);
    let rows = depth_of(levels, side);
    if i + 1 < top.len() {
        assert(rows[i] == top[i]);
        assert(rows[i + 1] == top[i + 1]);
    } else {
        assert(rows[i + 1] == no_level());
    }
}

/// Whether a row has the shape of a snapshot: ten rows per side, and of two
/// neighbouring rows that both have a price the first has the better one.
pub open spec fn well_shaped(row: SnapshotView) -> bool {
    &&& row.bids.len() == MAX_BOOK_DEPTH
    &&& row.asks.len() == MAX_BOOK_DEPTH
    &&& forall|i: int|
        0 <= i < MAX_BOOK_DEPTH - 1 && row.bids[i].price != 0 && (#[trigger] row.bids[i
            + 1]).price != 0 ==> row.bids[i].price > row.bids[i + 1].price
    &&& forall|i: int|
        0 <= i < MAX_BOOK_DEPTH - 1 && row.asks[i].price != 0 && (#[trigger] row.asks[i
            + 1]).price != 0 ==> row.asks[i].price < row.asks[i + 1].price
}

/// Every snapshot of a book is well shaped, whatever the book holds.
pub proof fn lemma_snapshot_is_well_shaped(book: BookState, timestamp: u64, sequence: u64)
    ensures
        well_shaped(snapshot_of(book, timestamp, sequence)),
{
    let row = snapshot_of(book, timestamp, sequence);
    lemma_depth_has_ten_rows(book.buy_levels, Side::Buy);
    lemma_depth_has_ten_rows(book.sell_levels, Side::Sell);
    assert forall|i: int|
        0 <= i < MAX_BOOK_DEPTH - 1 && row.bids[i].price != 0 && (#[trigger] row.bids[i
            + 1]).price != 0 implies row.bids[i].price > row.bids[i + 1].price by {
        lemma_depth_is_ordered(book.buy_levels, Side::Buy, i);
    }
    assert forall|i: int|
        0 <= i < MAX_BOOK_DEPTH - 1 && row.asks[i].price != 0 && (#[trigger] row.asks[i
            + 1]).price != 0 implies row.asks[i].price < row.asks[i + 1].price by {
        lemma_depth_is_ordered(book.sell_levels, Side::Sell, i);
    }
}

/// The best price of a snapshot side is the best price of the side of the
/// book, and zero where the side has none. With no bids the sum behind the
/// mid price is the best ask alone, and with an empty book it is zero.
pub proof fn lemma_best_prices(book: BookState, timestamp: u64, sequence: u64)
    ensures
        ({
            let row = snapshot_of(book, timestamp, sequence);
            let bid = best_price(book.buy_levels, Side::Buy);
            let ask = best_price(book.sell_levels, Side::Sell);
            &&& row.best_bid() == (if bid is Some {
                bid->0
            } else {
                0
            })
            &&& row.best_ask() == (if ask is Some {
                ask->0
            } else {
                0
            })
            &&& bid is None ==> row.mid_price_sum() == row.best_ask()
            &&& ask is None ==> row.mid_price_sum() == row.best_bid()
            &&& bid is None && ask is None ==> row.mid_price_sum() == 0
        }),
{
    let depth = MAX_BOOK_DEPTH as nat;
    lemma_padding_is_empty(top_levels(book.buy_levels, Side::Buy, depth), depth);
    lemma_padding_is_empty(top_levels(book.sell_levels, Side::Sell, depth), depth);
    lemma_top_levels_len(book.buy_levels, Side::Buy, depth);
    lemma_top_levels_len(book.sell_levels, Side::Sell, depth);
    reveal_with_fuel(top_levels, 2);
}

/// The volumes of a snapshot never exceed what the book holds, and where a
/// side of a consistent book has at most ten levels, the volume of its ten
/// rows is the number of shares of all live orders of that side.
pub proof fn lemma_snapshot_volume(book: BookState, timestamp: u64, sequence: u64)
    requires
        book.consistent(),
    ensures
        ({
            let row = snapshot_of(book, timestamp, sequence);
            &&& row.bid_volume() <= total_shares(book.buy_orders)
            &&& row.ask_volume() <= total_shares(book.sell_orders)
            &&& book.buy_levels.dom().len() <= MAX_BOOK_DEPTH ==> row.bid_volume() == total_shares(
                book.buy_orders,
            )
            &&& book.sell_levels.dom().len() <= MAX_BOOK_DEPTH ==> row.ask_volume()
                == total_shares(book.sell_orders)
        }),
{
    let depth = MAX_BOOK_DEPTH as nat;
    lemma_volume_is_conserved(book, Side::Buy);
    lemma_volume_is_conserved(book, Side::Sell);
    lemma_top_levels_volume(book.buy_levels, Side::Buy, depth);
    lemma_top_levels_volume(book.sell_levels, Side::Sell, depth);
    lemma_padding_is_empty(top_levels(book.buy_levels, Side::Buy, depth), depth);
    lemma_padding_is_empty(top_levels(book.sell_levels, Side::Sell, depth), depth);
}

/// The difference of the two volumes of a snapshot is never larger in size
/// than their sum, so the imbalance, their quotient, lies between -1 and 1.
pub proof fn lemma_imbalance_is_bounded(book: BookState, timestamp: u64, sequence: u64)
    ensures
        ({
            let row = snapshot_of(book, timestamp, sequence);
            let difference = row.bid_volume() - row.ask_volume();
            let sum = row.bid_volume() + row.ask_volume();
            -sum <= difference <= sum
        }),
{
}

} // verus!
