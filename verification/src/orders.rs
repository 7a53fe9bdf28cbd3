//! The map from order reference number to live order, kept in an
//! `FxHashMap`; the functions here are the only ones that touch it.
//!
//! `FxHashMap` is the standard `HashMap` with the hasher of `rustc_hash`.
//! That hasher has no seed and hashes a `u64` key by one multiplication, so
//! equal keys always meet in the same bucket and the map behaves as a map
//! from `u64`. Verus does not check this; the contracts below state it.

use crate::orderbook::Order;
use rustc_hash::FxBuildHasher;
use rustc_hash::FxHashMap;
use vstd::prelude::*;

verus! {

/// `rustc_hash::FxBuildHasher`, the hasher factory behind `FxHashMap`.
#[verifier::external_type_specification]
#[verifier::external_body]
pub struct ExFxBuildHasher(FxBuildHasher);

/// `HashMap::get` on an `FxHashMap` keyed by `u64`: a copy of the order
/// stored under `reference`, or `None` where the map holds no such key.
#[verifier::external_body]
pub(crate) fn lookup(orders: &FxHashMap<u64, Order>, reference: u64) -> (found: Option<Order>)
    ensures
        found == (if orders@.contains_key(reference) {
            Some(orders@[reference])
        } else {
            None::<Order>
        }),
{
    orders.get(&reference).copied()
}

/// `HashMap::insert` on an `FxHashMap` keyed by `u64`: afterwards the map
/// holds `order` under `reference`, replacing what was stored there, and
/// every other entry is as before.
#[verifier::external_body]
pub(crate) fn store(orders: &mut FxHashMap<u64, Order>, reference: u64, order: Order)
    ensures
        final(orders)@ == old(orders)@.insert(reference, order),
{
    orders.insert(reference, order);
}

/// `HashMap::remove` on an `FxHashMap` keyed by `u64`: afterwards the map
/// holds nothing under `reference`, and every other entry is as before.
#[verifier::external_body]
pub(crate) fn discard(orders: &mut FxHashMap<u64, Order>, reference: u64)
    ensures
        final(orders)@ == old(orders)@.remove(reference),
{
    orders.remove(&reference);
}

} // verus!
