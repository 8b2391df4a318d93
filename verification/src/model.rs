//! The mathematical model of a table's storage: a map from values to values,
//! and what the array and tuple conventions mean on such a map.
//!
//! A table serves as an array (integer keys from 1 up), as a tuple (an array
//! whose declared length is stored under the integer key 0) and as a general
//! map, all on the same storage. Everything here is specification; the
//! executable table proves its operations against these functions.

use vstd::prelude::*;
use crate::value::Val;

verus! {

/// The entry under `key`, or `None` where there is none.
pub open spec fn lookup(m: Map<Val, Val>, key: Val) -> Option<Val> {
    if m.contains_key(key) {
        Some(m[key])
    } else {
        None
    }
}

/// The entry under the integer key `i`. No table holds an integer key
/// outside the machine range, so there the answer is `None`.
pub open spec fn at(m: Map<Val, Val>, i: int) -> Option<Val> {
    if i64::MIN <= i <= i64::MAX {
        lookup(m, Val::Integer(i as i64))
    } else {
        None
    }
}

/// `m` with the entry under `key` set to `value`, or removed where `value`
/// is `None`.
pub open spec fn assign(m: Map<Val, Val>, key: Val, value: Option<Val>) -> Map<Val, Val> {
    match value {
        Some(v) => m.insert(key, v),
        None => m.remove(key),
    }
}

/// Two maps that answer every lookup alike are equal.
pub proof fn lemma_same_lookups(a: Map<Val, Val>, b: Map<Val, Val>)
    requires
        forall|key: Val| #[trigger] lookup(a, key) == lookup(b, key),
    ensures
        a == b,
{
    assert forall|key: Val| a.contains_key(key) == b.contains_key(key) by {
        assert(lookup(a, key) == lookup(b, key));
    }
    assert forall|key: Val| a.contains_key(key) implies a[key] == b[key] by {
        assert(lookup(a, key) == lookup(b, key));
    }
    assert(a =~= b);
}

/// Whether `n` is the array length of `m`: the highest integer key that is
/// present, and 0 where no positive integer key is.
pub open spec fn is_array_len(m: Map<Val, Val>, n: int) -> bool {
    &&& 0 <= n <= i64::MAX
    &&& n == 0 || m.contains_key(Val::Integer(n as i64))
    &&& forall|i: i64| n < i ==> !m.contains_key(Val::Integer(i))
}

/// The array length of `m`. `lemma_array_len` shows that every map has
/// exactly one.
pub open spec fn array_len(m: Map<Val, Val>) -> int {
    choose|n: int| is_array_len(m, n)
}

/// The highest integer key of `m` that is positive and at most `bound`, or 0.
spec fn highest_key(m: Map<Val, Val>, bound: int) -> int
    decreases bound,
{
    if bound <= 0 {
        0
    } else if m.contains_key(Val::Integer(bound as i64)) {
        bound
    } else {
        highest_key(m, bound - 1)
    }
}

proof fn lemma_highest_key(m: Map<Val, Val>, bound: int)
    requires
        bound <= i64::MAX,
    ensures
        0 <= highest_key(m, bound),
        bound >= 0 ==> highest_key(m, bound) <= bound,
        highest_key(m, bound) == 0 || m.contains_key(Val::Integer(highest_key(m, bound) as i64)),
        forall|i: i64| highest_key(m, bound) < i <= bound ==> !m.contains_key(Val::Integer(i)),
    decreases bound,
{
    if bound > 0 && !m.contains_key(Val::Integer(bound as i64)) {
        lemma_highest_key(m, bound - 1);
    }
}

/// Every map has an array length, and only one.
pub proof fn lemma_array_len(m: Map<Val, Val>)
    ensures
        is_array_len(m, array_len(m)),
        forall|n: int| is_array_len(m, n) ==> n == array_len(m),
{
    lemma_highest_key(m, i64::MAX as int);
    assert(is_array_len(m, highest_key(m, i64::MAX as int)));
    assert forall|n: int| is_array_len(m, n) implies n == array_len(m) by {
        lemma_array_len_unique(m, n, array_len(m));
    }
}

/// Two array lengths of one map are equal.
pub proof fn lemma_array_len_unique(m: Map<Val, Val>, a: int, b: int)
    requires
        is_array_len(m, a),
        is_array_len(m, b),
    ensures
        a == b,
{
    if a < b {
        assert(m.contains_key(Val::Integer(b as i64)));
    }
    if b < a {
        assert(m.contains_key(Val::Integer(a as i64)));
    }
}

/// What the entry under `key` becomes when the integer positions `lo..=hi`
/// move up by one and `value` takes position `lo`: position `lo` holds
/// `value`, a later position of the range holds what the position before it
/// held, and every other key keeps its entry.
pub open spec fn shifted_up_at(
    m: Map<Val, Val>,
    lo: int,
    hi: int,
    value: Option<Val>,
    key: Val,
) -> Option<Val> {
    if key is Integer && lo <= key->Integer_0 <= hi {
        if key->Integer_0 == lo {
            value
        } else {
            at(m, key->Integer_0 - 1)
        }
    } else {
        lookup(m, key)
    }
}

/// `m` after the integer positions `lo..=hi` moved up by one and `value` took
/// position `lo`. What position `hi` held is gone. An empty range changes
/// nothing.
pub open spec fn shift_up(m: Map<Val, Val>, lo: int, hi: int, value: Option<Val>) -> Map<
    Val,
    Val,
> {
    Map::new(
        |key: Val| shifted_up_at(m, lo, hi, value, key) is Some,
        |key: Val| shifted_up_at(m, lo, hi, value, key)->0,
    )
}

/// What the entry under `key` becomes when the integer positions `lo..=hi`
/// move down by one: each position of the range holds what the position
/// after it held, and every other key keeps its entry.
pub open spec fn shifted_down_at(m: Map<Val, Val>, lo: int, hi: int, key: Val) -> Option<Val> {
    if key is Integer && lo <= key->Integer_0 <= hi {
        if key->Integer_0 == hi {
            None
        } else {
            at(m, key->Integer_0 + 1)
        }
    } else {
        lookup(m, key)
    }
}

/// `m` after the integer positions `lo..=hi` moved down by one. What position
/// `lo` held is gone, and position `hi` is left empty. An empty range changes
/// nothing.
pub open spec fn shift_down(m: Map<Val, Val>, lo: int, hi: int) -> Map<Val, Val> {
    Map::new(
        |key: Val| shifted_down_at(m, lo, hi, key) is Some,
        |key: Val| shifted_down_at(m, lo, hi, key)->0,
    )
}

/// The last position that an insertion into an array or tuple of length
/// `len` moves: one past the end, and never less than 2.
pub open spec fn shift_end(len: int) -> int {
    if len < 1 {
        2
    } else {
        len + 1
    }
}

/// `m` after `value` was inserted at position `index` of the array: the
/// positions from `index` to one past the end move up by one. Inserting
/// `None` leaves position `index` empty. An `index` beyond that range changes
/// nothing.
pub open spec fn array_inserted(m: Map<Val, Val>, index: int, value: Option<Val>) -> Map<
    Val,
    Val,
> {
    shift_up(m, index, shift_end(array_len(m)), value)
}

/// `m` after position `index` of the array was removed: the positions from
/// `index` to the end move down by one. An `index` beyond the end changes
/// nothing.
pub open spec fn array_removed(m: Map<Val, Val>, index: int) -> Map<Val, Val> {
    shift_down(m, index, array_len(m))
}

/// `m` after `value` was appended by the array convention, which inserts at
/// the position of the last element.
pub open spec fn array_pushed(m: Map<Val, Val>, value: Option<Val>) -> Map<Val, Val> {
    array_inserted(m, array_len(m), value)
}

/// The length that a tuple declares: the integer under key 0, if there is
/// one.
pub open spec fn declared_len(m: Map<Val, Val>) -> Option<i64> {
    match lookup(m, Val::Integer(0)) {
        Some(Val::Integer(n)) => Some(n),
        _ => None,
    }
}

/// Whether `m` is laid out as a tuple: key 0 holds an integer.
pub open spec fn is_tuple(m: Map<Val, Val>) -> bool {
    declared_len(m) is Some
}

/// `m` after `value` was inserted at position `index` of the tuple: the
/// declared length grows by one, then the positions from `index` to one past
/// the old declared length move up by one.
pub open spec fn tuple_inserted(m: Map<Val, Val>, index: int, value: Option<Val>) -> Map<
    Val,
    Val,
>
    recommends
        is_tuple(m),
        declared_len(m)->0 < i64::MAX,
{
    let len = declared_len(m)->0;
    shift_up(
        m.insert(Val::Integer(0), Val::Integer((len + 1) as i64)),
        index,
        shift_end(len as int),
        value,
    )
}

/// The elements of the tuple `m`: as many as it declares, each read from its
/// position, `None` where the position is empty.
pub open spec fn tuple_elements(m: Map<Val, Val>) -> Seq<Option<Val>>
    recommends
        is_tuple(m),
{
    let len = declared_len(m)->0;
    Seq::new(
        if len < 0 {
            0nat
        } else {
            len as nat
        },
        |i: int| at(m, i + 1),
    )
}

/// The storage of an array with the given elements: element `i` stands under
/// the integer key `i + 1`, and an element that is `None` has no entry.
pub open spec fn array_of(elements: Seq<Option<Val>>) -> Map<Val, Val> {
    Map::new(
        |key: Val|
            key is Integer && 1 <= key->Integer_0 <= elements.len() && elements[key->Integer_0
                - 1] is Some,
        |key: Val| elements[key->Integer_0 - 1]->0,
    )
}

/// The storage of a tuple with the given elements: that of the array, and the
/// number of elements under the integer key 0.
pub open spec fn tuple_of(elements: Seq<Option<Val>>) -> Map<Val, Val>
    recommends
        elements.len() <= i64::MAX,
{
    array_of(elements).insert(Val::Integer(0), Val::Integer(elements.len() as i64))
}

/// Inserting into an array and removing at the same position gives back the
/// table as it was, entry for entry. This holds for every value, nil too,
/// and for every position, also one so far past the end that the insertion
/// changes nothing.
pub proof fn lemma_insert_then_remove(m: Map<Val, Val>, index: i64, value: Option<Val>)
    requires
        array_len(m) < i64::MAX,
    ensures
        array_removed(array_inserted(m, index as int, value), index as int) == m,
{
    let len = array_len(m);
    let hi = shift_end(len);
    let inserted = array_inserted(m, index as int, value);
    let grown = array_len(inserted);
    let removed = array_removed(inserted, index as int);
    lemma_array_len(m);
    lemma_array_len(inserted);
    // Nothing stands above the last position that the insertion moved.
    assert forall|k: i64| hi <= k implies !m.contains_key(Val::Integer(k)) by {}
    assert forall|key: Val| #[trigger] lookup(removed, key) == lookup(m, key) by {
        if key is Integer && index <= key->Integer_0 {
            let k = key->Integer_0;
            if index <= hi {
                if k < grown {
                    // The position holds what stood one above, which the
                    // insertion had moved there from here.
                    assert(lookup(removed, key) == at(inserted, k + 1));
                    if k + 1 > hi {
                        assert(!inserted.contains_key(Val::Integer((k + 1) as i64)));
                    }
                } else if k < hi {
                    // The position is empty now. It was empty before: what
                    // it held would stand one above after the insertion.
                    assert(!inserted.contains_key(Val::Integer((k + 1) as i64)));
                    assert(lookup(inserted, Val::Integer((k + 1) as i64)) == at(m, k as int));
                }
            }
        }
    }
    lemma_same_lookups(removed, m);
}

/// After an insertion at a position that the insertion reaches, that
/// position holds the inserted value, so a removal there returns it.
pub proof fn lemma_insert_then_read(m: Map<Val, Val>, index: i64, value: Option<Val>)
    requires
        array_len(m) < i64::MAX,
        index <= shift_end(array_len(m)),
    ensures
        at(array_inserted(m, index as int, value), index as int) == value,
{
}

/// A tuple built from `elements` declares their number, holds that number
/// under key 0, and has exactly these elements.
pub proof fn lemma_tuple_of(elements: Seq<Option<Val>>)
    requires
        elements.len() <= i64::MAX,
    ensures
        is_tuple(tuple_of(elements)),
        declared_len(tuple_of(elements)) == Some(elements.len() as i64),
        lookup(tuple_of(elements), Val::Integer(0)) == Some(Val::Integer(elements.len() as i64)),
        tuple_elements(tuple_of(elements)) == elements,
{
    let m = tuple_of(elements);
    assert forall|i: int| 0 <= i < elements.len() implies #[trigger] at(m, i + 1) == elements[i] by {
        let key = Val::Integer((i + 1) as i64);
        assert(array_of(elements).contains_key(key) == (elements[i] is Some));
    }
    assert(tuple_elements(m) =~= elements);
}

/// Inserting into a tuple is inserting into the sequence of its elements:
/// the tuple of `elements` after `value` was inserted at position `index` is
/// the tuple of `elements` with `value` inserted before element `index - 1`.
pub proof fn lemma_tuple_inserted(elements: Seq<Option<Val>>, index: i64, value: Option<Val>)
    requires
        elements.len() < i64::MAX,
        1 <= index <= elements.len() + 1,
    ensures
        tuple_inserted(tuple_of(elements), index as int, value) == tuple_of(
            elements.insert(index - 1, value),
        ),
{
    let m = tuple_of(elements);
    let after = tuple_inserted(m, index as int, value);
    let longer = elements.insert(index - 1, value);
    lemma_tuple_of(elements);
    assert forall|key: Val| #[trigger] lookup(after, key) == lookup(tuple_of(longer), key) by {
        if key is Integer && 1 <= key->Integer_0 <= elements.len() + 1 {
            let k = key->Integer_0;
            if k > index {
                assert(longer[k - 1] == elements[k - 2]);
                assert(array_of(elements).contains_key(Val::Integer((k - 1) as i64)) == (elements[k
                    - 2] is Some));
            } else if k < index {
                assert(longer[k - 1] == elements[k - 1]);
            } else {
                assert(longer[k - 1] == value);
            }
        }
    }
    lemma_same_lookups(after, tuple_of(longer));
}

} // verus!
