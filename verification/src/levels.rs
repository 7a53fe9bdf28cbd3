//! Aggregated volume per price on one side of the book: what adding and
//! removing volume does to the map, and which levels are the best ones.

use crate::orderbook::PriceLevel;
use crate::orderbook::Side;
use std::collections::btree_map::Iter;
use std::collections::BTreeMap;
use vstd::prelude::*;
use vstd::std_specs::cmp::OrdSpec;
use vstd::std_specs::iter::IteratorSpec;

verus! {

/// Takes the next item from the front of an iterator.
fn take_first<I: Iterator>(iter: &mut I) -> (item: Option<I::Item>)
    ensures
        (*final(iter)).obeys_prophetic_iter_laws() == (*old(iter)).obeys_prophetic_iter_laws(),
        (*old(iter)).obeys_prophetic_iter_laws() ==> ({
            let before = (*old(iter)).remaining();
            let after = (*final(iter)).remaining();
            if before.len() > 0 {
                after == before.drop_first() && item == Some(before.first())
            } else {
                after == before && item is None
            }
        }),
{
    iter.next()
}

/// Takes the next item from the back of an iterator.
fn take_last<I: DoubleEndedIterator>(iter: &mut I) -> (item: Option<I::Item>)
    ensures
        (*final(iter)).obeys_prophetic_iter_laws() == (*old(iter)).obeys_prophetic_iter_laws(),
        (*old(iter)).obeys_prophetic_iter_laws() ==> ({
            let before = (*old(iter)).remaining();
            let after = (*final(iter)).remaining();
            if before.len() > 0 {
                after == before.drop_last() && item == Some(before.last())
            } else {
                after == before && item is None
            }
        }),
{
    iter.next_back()
}

/// The volume resting at `price`; zero where the map has no such level.
pub open spec fn volume_at(levels: Map<u32, u32>, price: u32) -> u32 {
    if levels.contains_key(price) {
        levels[price]
    } else {
        0
    }
}

/// The map after `shares` were added at `price`. The level is created where it
/// was absent, and its volume stops at `u32::MAX`.
pub open spec fn with_added(levels: Map<u32, u32>, price: u32, shares: u32) -> Map<u32, u32> {
    let sum = volume_at(levels, price) + shares;
    levels.insert(
        price,
        if sum > u32::MAX {
            u32::MAX
        } else {
            sum as u32
        },
    )
}

/// The map after `amount` was taken from the level at `price`. The volume
/// stops at zero, and a level that reaches zero leaves the map; a price
/// without a level changes nothing.
pub open spec fn with_removed(levels: Map<u32, u32>, price: u32, amount: u32) -> Map<u32, u32> {
    if !levels.contains_key(price) {
        levels
    } else if levels[price] <= amount {
        levels.remove(price)
    } else {
        levels.insert(price, (levels[price] - amount) as u32)
    }
}

/// Whether `price` is the best level of the side: the highest bid, or the
/// lowest ask.
pub open spec fn is_best(levels: Map<u32, u32>, side: Side, price: u32) -> bool {
    &&& levels.contains_key(price)
    &&& forall|other: u32| #[trigger]
        levels.contains_key(other) ==> (if side is Buy {
            other <= price
        } else {
            price <= other
        })
}

/// The best price of the side, if it has any level.
pub open spec fn best_price(levels: Map<u32, u32>, side: Side) -> Option<u32> {
    if exists|price: u32| is_best(levels, side, price) {
        Some(choose|price: u32| is_best(levels, side, price))
    } else {
        None
    }
}

/// The `count` best levels of the side, best first; fewer where the side has
/// fewer.
pub open spec fn top_levels(levels: Map<u32, u32>, side: Side, count: nat) -> Seq<PriceLevel>
    decreases count,
{
    if count == 0 {
        Seq::empty()
    } else {
        match best_price(levels, side) {
            None => Seq::empty(),
            Some(price) => seq![PriceLevel { price, total_volume: levels[price] }] + top_levels(
                levels.remove(price),
                side,
                (count - 1) as nat,
            ),
        }
    }
}

/// The level that fills the rows of a side with fewer levels than the depth.
pub open spec fn no_level() -> PriceLevel {
    PriceLevel { price: 0, total_volume: 0 }
}

/// `levels` followed by as many empty levels as it takes to reach `count`;
/// `levels` itself where it is that long already.
pub open spec fn padded(levels: Seq<PriceLevel>, count: nat) -> Seq<PriceLevel> {
    if levels.len() >= count {
        levels
    } else {
        levels + Seq::new((count - levels.len()) as nat, |i: int| no_level())
    }
}

/// There are never more best levels than were asked for.
pub proof fn lemma_top_levels_len(levels: Map<u32, u32>, side: Side, count: nat)
    ensures
        top_levels(levels, side, count).len() <= count,
    decreases count,
{
    if count > 0 {
        match best_price(levels, side) {
            None => {},
            Some(price) => {
                lemma_top_levels_len(levels.remove(price), side, (count - 1) as nat);
            },
        }
    }
}

/// The entries that an iterator over a level map still has to hand out.
pub open spec fn entries<'a>(items: Seq<(&'a u32, &'a u32)>) -> Seq<(u32, u32)> {
    Seq::new(items.len(), |i: int| (*items[i].0, *items[i].1))
}

/// Whether `run` lists every level of `levels` once, in ascending order of
/// price.
pub open spec fn lists_ascending(run: Seq<(u32, u32)>, levels: Map<u32, u32>) -> bool {
    &&& forall|i: int, j: int| 0 <= i < j < run.len() ==> run[i].0 < run[j].0
    &&& forall|i: int|
        0 <= i < run.len() ==> levels.contains_key(#[trigger] run[i].0) && levels[run[i].0]
            == run[i].1
    &&& forall|price: u32| #[trigger]
        levels.contains_key(price) ==> exists|i: int| 0 <= i < run.len() && run[i].0 == price
}

/// An iterator over the levels, lowest price first.
fn ascending_iter<'a>(levels: &'a BTreeMap<u32, u32>) -> (iter: Iter<'a, u32, u32>)
    ensures
        lists_ascending(entries(iter.remaining()), levels@),
        iter.obeys_prophetic_iter_laws(),
{
    let iter = levels.iter();
    proof {
        let items = iter.remaining();
        let run = entries(items);
        let keys = items.map_values(|kv: (&u32, &u32)| *kv.0);
        assert forall|i: int, j: int| 0 <= i < j < run.len() implies run[i].0 < run[j].0 by {
            assert(keys[i] == run[i].0);
            assert(keys[j] == run[j].0);
            assert(keys[i].cmp_spec(&keys[j]) is Less);
        }
        assert forall|price: u32| #[trigger] levels@.contains_key(price) implies exists|i: int|
            0 <= i < run.len() && run[i].0 == price by {
            let item = (&price, &levels@[price]);
            assert(items.contains(item));
            let i = choose|i: int| 0 <= i < items.len() && items[i] == item;
            assert(run[i].0 == price);
        }
        assert forall|i: int| 0 <= i < run.len() implies levels@.contains_key(
            #[trigger] run[i].0,
        ) && levels@[run[i].0] == run[i].1 by {
            assert(levels@.contains_key(*items[i].0));
        }
    }
    iter
}

/// Of an ascending run, the last entry is the best bid, and the run without
/// it lists the levels that are left when that price is taken out.
proof fn lemma_last_is_best_bid(run: Seq<(u32, u32)>, levels: Map<u32, u32>)
    requires
        lists_ascending(run, levels),
        run.len() > 0,
    ensures
        best_price(levels, Side::Buy) == Some(run.last().0),
        levels[run.last().0] == run.last().1,
        lists_ascending(run.drop_last(), levels.remove(run.last().0)),
{
    let top = run.last().0;
    assert(levels.contains_key(run[run.len() - 1].0));
    assert forall|other: u32| #[trigger] levels.contains_key(other) implies other <= top by {
        let i = choose|i: int| 0 <= i < run.len() && run[i].0 == other;
        assert(i == run.len() - 1 || run[i].0 < run[run.len() - 1].0);
    }
    assert(is_best(levels, Side::Buy, top));
    let chosen = choose|price: u32| is_best(levels, Side::Buy, price);
    assert(levels.contains_key(chosen) && levels.contains_key(top));
    assert(chosen == top);
    let rest = run.drop_last();
    let fewer = levels.remove(top);
    assert forall|price: u32| #[trigger] fewer.contains_key(price) implies exists|i: int|
        0 <= i < rest.len() && rest[i].0 == price by {
        assert(levels.contains_key(price));
        let i = choose|i: int| 0 <= i < run.len() && run[i].0 == price;
        assert(rest[i].0 == price);
    }
    assert forall|i: int| 0 <= i < rest.len() implies fewer.contains_key(#[trigger] rest[i].0)
        && fewer[rest[i].0] == rest[i].1 by {
        assert(levels.contains_key(run[i].0));
        assert(run[i].0 < run[run.len() - 1].0);
    }
}

/// Of an ascending run, the first entry is the best ask, and the run without
/// it lists the levels that are left when that price is taken out.
proof fn lemma_first_is_best_ask(run: Seq<(u32, u32)>, levels: Map<u32, u32>)
    requires
        lists_ascending(run, levels),
        run.len() > 0,
    ensures
        best_price(levels, Side::Sell) == Some(run.first().0),
        levels[run.first().0] == run.first().1,
        lists_ascending(run.drop_first(), levels.remove(run.first().0)),
{
    let top = run.first().0;
    assert(levels.contains_key(run[0].0));
    assert forall|other: u32| #[trigger] levels.contains_key(other) implies top <= other by {
        let i = choose|i: int| 0 <= i < run.len() && run[i].0 == other;
        assert(i == 0 || run[0].0 < run[i].0);
    }
    assert(is_best(levels, Side::Sell, top));
    let chosen = choose|price: u32| is_best(levels, Side::Sell, price);
    assert(levels.contains_key(chosen) && levels.contains_key(top));
    assert(chosen == top);
    let rest = run.drop_first();
    let fewer = levels.remove(top);
    assert forall|price: u32| #[trigger] fewer.contains_key(price) implies exists|i: int|
        0 <= i < rest.len() && rest[i].0 == price by {
        assert(levels.contains_key(price));
        let i = choose|i: int| 0 <= i < run.len() && run[i].0 == price;
        assert(rest[i - 1].0 == price);
    }
    assert forall|i: int| 0 <= i < rest.len() implies fewer.contains_key(#[trigger] rest[i].0)
        && fewer[rest[i].0] == rest[i].1 by {
        assert(levels.contains_key(run[i + 1].0));
        assert(run[0].0 < run[i + 1].0);
    }
    assert forall|i: int, j: int| 0 <= i < j < rest.len() implies rest[i].0 < rest[j].0 by {
        assert(run[i + 1].0 < run[j + 1].0);
    }
}

/// A map that an empty run lists has no level, and so no best price.
proof fn lemma_nothing_listed(run: Seq<(u32, u32)>, levels: Map<u32, u32>, side: Side)
    requires
        lists_ascending(run, levels),
        run.len() == 0,
    ensures
        best_price(levels, side) is None,
{
    assert forall|price: u32| !is_best(levels, side, price) by {
        if levels.contains_key(price) {
            let i = choose|i: int| 0 <= i < run.len() && run[i].0 == price;
        }
    }
}

/// Adds `shares` to the level at `price`.
pub fn add_volume(levels: &mut BTreeMap<u32, u32>, price: u32, shares: u32)
    ensures
        final(levels)@ == with_added(old(levels)@, price, shares),
{
    let resting: u32 = match levels.get(&price) {
        Some(volume) => *volume,
        None => 0,
    };
    levels.insert(price, resting.saturating_add(shares));
}

/// Takes `amount` from the level at `price`, and the level from the map when
/// nothing is left of it.
pub fn remove_volume(levels: &mut BTreeMap<u32, u32>, price: u32, amount: u32)
    ensures
        final(levels)@ == with_removed(old(levels)@, price, amount),
{
    let resting: Option<u32> = match levels.get(&price) {
        Some(volume) => Some(*volume),
        None => None,
    };
    match resting {
        Some(volume) => {
            let left: u32 = volume.saturating_sub(amount);
            if left == 0 {
                levels.remove(&price);
            } else {
                levels.insert(price, left);
            }
        },
        None => {},
    }
}

/// The `count` highest levels, highest first.
pub fn highest_levels(levels: &BTreeMap<u32, u32>, count: usize) -> (top: Vec<PriceLevel>)
    ensures
        top@ == top_levels(levels@, Side::Buy, count as nat),
{
    let mut top: Vec<PriceLevel> = Vec::new();
    let mut iter = ascending_iter(levels);
    let ghost mut left: Map<u32, u32> = levels@;
    let mut done: bool = false;
    while !done && top.len() < count
        invariant
            top.len() <= count,
            iter.obeys_prophetic_iter_laws(),
            lists_ascending(entries(iter.remaining()), left),
            done ==> top_levels(left, Side::Buy, (count - top.len()) as nat) == Seq::<
                PriceLevel,
            >::empty(),
            top_levels(levels@, Side::Buy, count as nat) == top@ + top_levels(
                left,
                Side::Buy,
                (count - top.len()) as nat,
            ),
        decreases (if done { 0int } else { 1int }), count - top.len(),
    {
        let ghost before = iter.remaining();
        match take_last(&mut iter) {
            Some((price, volume)) => {
                proof {
                    lemma_last_is_best_bid(entries(before), left);
                    assert(entries(before).drop_last() == entries(iter.remaining()));
                    left = left.remove(*price);
                }
                top.push(PriceLevel { price: *price, total_volume: *volume });
            },
            None => {
                proof {
                    lemma_nothing_listed(entries(before), left, Side::Buy);
                }
                done = true;
            },
        }
    }
    top
}

/// The `count` lowest levels, lowest first.
pub fn lowest_levels(levels: &BTreeMap<u32, u32>, count: usize) -> (top: Vec<PriceLevel>)
    ensures
        top@ == top_levels(levels@, Side::Sell, count as nat),
{
    let mut top: Vec<PriceLevel> = Vec::new();
    let mut iter = ascending_iter(levels);
    let ghost mut left: Map<u32, u32> = levels@;
    let mut done: bool = false;
    while !done && top.len() < count
        invariant
            top.len() <= count,
            iter.obeys_prophetic_iter_laws(),
            lists_ascending(entries(iter.remaining()), left),
            done ==> top_levels(left, Side::Sell, (count - top.len()) as nat) == Seq::<
                PriceLevel,
            >::empty(),
            top_levels(levels@, Side::Sell, count as nat) == top@ + top_levels(
                left,
                Side::Sell,
                (count - top.len()) as nat,
            ),
        decreases (if done { 0int } else { 1int }), count - top.len(),
    {
        let ghost before = iter.remaining();
        match take_first(&mut iter) {
            Some((price, volume)) => {
                proof {
                    lemma_first_is_best_ask(entries(before), left);
                    assert(entries(before).drop_first() == entries(iter.remaining()));
                    left = left.remove(*price);
                }
                top.push(PriceLevel { price: *price, total_volume: *volume });
            },
            None => {
                proof {
                    lemma_nothing_listed(entries(before), left, Side::Sell);
                }
                done = true;
            },
        }
    }
    top
}

/// Fills `levels` up with empty levels until it holds `count` of them.
pub fn pad_levels(levels: Vec<PriceLevel>, count: usize) -> (filled: Vec<PriceLevel>)
    ensures
        filled@ == padded(levels@, count as nat),
{
    let mut filled = levels;
    while filled.len() < count
        invariant
            padded(filled@, count as nat) == padded(levels@, count as nat),
        decreases count - filled.len(),
    {
        proof {
            let longer = filled@.push(no_level());
            assert(padded(longer, count as nat) =~= padded(filled@, count as nat));
        }
        filled.push(PriceLevel { price: 0, total_volume: 0 });
    }
    filled
}

} // verus!
