//! Sums over the values of a finite map, and what inserting or removing an
//! entry does to them.

use vstd::prelude::*;

verus! {

/// The sum of `weight` over the values of `m`. Meaningful for a finite map.
pub open spec fn sum_by<K, V>(m: Map<K, V>, weight: spec_fn(V) -> nat) -> nat
    decreases m.dom().len(),
    when m.dom().finite()
{
    if m.dom().len() == 0 {
        0
    } else {
        let k = m.dom().choose();
        weight(m[k]) + sum_by(m.remove(k), weight)
    }
}

/// The empty map sums to zero.
pub proof fn lemma_sum_empty<K, V>(weight: spec_fn(V) -> nat)
    ensures
        sum_by(Map::<K, V>::empty(), weight) == 0,
{
    assert(Map::<K, V>::empty().dom().len() == 0);
}

/// Any entry can be taken out of the sum first: the sum is the weight of that
/// entry plus the sum over the rest.
pub proof fn lemma_sum_remove<K, V>(m: Map<K, V>, weight: spec_fn(V) -> nat, key: K)
    requires
        m.dom().finite(),
        m.contains_key(key),
    ensures
        sum_by(m, weight) == weight(m[key]) + sum_by(m.remove(key), weight),
    decreases m.dom().len(),
{
    let first = m.dom().choose();
    assert(m.dom().len() != 0);
    if first != key {
        let rest = m.remove(first);
        lemma_sum_remove(rest, weight, key);
        let other = m.remove(key);
        assert(other.contains_key(first));
        lemma_sum_remove(other, weight, first);
        assert(rest.remove(key) =~= other.remove(first));
    }
}

/// Inserting under a key replaces the weight that the key had, if any, by the
/// weight of the new value.
pub proof fn lemma_sum_insert<K, V>(m: Map<K, V>, weight: spec_fn(V) -> nat, key: K, value: V)
    requires
        m.dom().finite(),
    ensures
        sum_by(m.insert(key, value), weight) + (if m.contains_key(key) {
            weight(m[key])
        } else {
            0
        }) == sum_by(m, weight) + weight(value),
{
    let grown = m.insert(key, value);
    lemma_sum_remove(grown, weight, key);
    assert(grown.remove(key) =~= m.remove(key));
    if m.contains_key(key) {
        lemma_sum_remove(m, weight, key);
    } else {
        assert(m.remove(key) =~= m);
    }
}

/// A sum is at least the weight of each of its entries.
pub proof fn lemma_sum_bounds_entry<K, V>(m: Map<K, V>, weight: spec_fn(V) -> nat, key: K)
    requires
        m.dom().finite(),
        m.contains_key(key),
    ensures
        weight(m[key]) <= sum_by(m, weight),
{
    lemma_sum_remove(m, weight, key);
}

/// A map whose every value weighs nothing sums to zero.
pub proof fn lemma_sum_of_nothing<K, V>(m: Map<K, V>, weight: spec_fn(V) -> nat)
    requires
        m.dom().finite(),
        forall|k: K| m.contains_key(k) ==> #[trigger] weight(m[k]) == 0,
    ensures
        sum_by(m, weight) == 0,
    decreases m.dom().len(),
{
    if m.dom().len() != 0 {
        let k = m.dom().choose();
        lemma_sum_of_nothing(m.remove(k), weight);
    }
}

/// A sum that is zero has no entry with a positive weight.
pub proof fn lemma_zero_sum_weighs_nothing<K, V>(m: Map<K, V>, weight: spec_fn(V) -> nat, key: K)
    requires
        m.dom().finite(),
        m.contains_key(key),
        sum_by(m, weight) == 0,
    ensures
        weight(m[key]) == 0,
{
    lemma_sum_remove(m, weight, key);
}

} // verus!
