//! The table: one map from values to values with an optional metatable,
//! and the array and tuple conventions on top of it.

use vstd::prelude::*;
use crate::heap::Heap;
use crate::model::{
    array_inserted, array_len, array_of, array_pushed, array_removed, assign, at, declared_len,
    is_array_len, is_tuple, lemma_array_len, lemma_same_lookups, lemma_tuple_of, lookup,
    shift_down, shift_up, tuple_elements, tuple_inserted, tuple_of,
};
use crate::value::{elements_view, Nillable, TableRef, Val, Value, view_of};

verus! {

/// One stored entry.
struct Entry {
    key: Value,
    value: Value,
}

/// A map from values to values, with an optional metatable.
///
/// No key occurs twice, and no key is a host value: a host value is equal to
/// nothing, so an entry under one could never be read again. A table is
/// changed through `&mut`, so each operation has the table to itself from
/// its first step to its last.
pub struct Table {
    entries: Vec<Entry>,
    metatable: Option<TableRef>,
}

/// What a [`Table`] denotes.
pub struct TableView {
    /// The entries.
    pub data: Map<Val, Val>,
    /// The metatable, if one is attached.
    pub metatable: Option<TableRef>,
}

/// Whether the keys of `s` are comparable and pairwise different.
spec fn distinct_keys(s: Seq<Entry>) -> bool {
    &&& forall|i: int| 0 <= i < s.len() ==> (#[trigger] s[i]).key@.comparable()
    &&& forall|i: int, j: int|
        0 <= i < s.len() && 0 <= j < s.len() && i != j ==> (#[trigger] s[i]).key@ != (
        #[trigger] s[j]).key@
}

/// Whether some entry of `s` has the key `key`.
spec fn has_key(s: Seq<Entry>, key: Val) -> bool {
    exists|i: int| 0 <= i < s.len() && (#[trigger] s[i]).key@ == key
}

/// The position in `s` of an entry with the key `key`.
spec fn slot_of(s: Seq<Entry>, key: Val) -> int {
    choose|i: int| 0 <= i < s.len() && (#[trigger] s[i]).key@ == key
}

/// The map that the entries `s` stand for.
spec fn entries_model(s: Seq<Entry>) -> Map<Val, Val> {
    Map::new(|key: Val| has_key(s, key), |key: Val| s[slot_of(s, key)].value@)
}

proof fn lemma_entry(s: Seq<Entry>, i: int)
    requires
        distinct_keys(s),
        0 <= i < s.len(),
    ensures
        lookup(entries_model(s), s[i].key@) == Some(s[i].value@),
{
    assert(has_key(s, s[i].key@));
    assert(slot_of(s, s[i].key@) == i);
}

proof fn lemma_absent(s: Seq<Entry>, key: Val)
    requires
        forall|i: int| 0 <= i < s.len() ==> (#[trigger] s[i]).key@ != key,
    ensures
        lookup(entries_model(s), key) is None,
{
}

proof fn lemma_push(s: Seq<Entry>, e: Entry)
    requires
        distinct_keys(s),
        e.key@.comparable(),
        forall|i: int| 0 <= i < s.len() ==> (#[trigger] s[i]).key@ != e.key@,
    ensures
        distinct_keys(s.push(e)),
        entries_model(s.push(e)) == entries_model(s).insert(e.key@, e.value@),
{
    let t = s.push(e);
    assert(distinct_keys(t));
    assert forall|key: Val| #[trigger]
        lookup(entries_model(t), key) == lookup(entries_model(s).insert(e.key@, e.value@), key) by {
        if key == e.key@ {
            lemma_entry(t, s.len() as int);
        } else if has_key(s, key) {
            let i = slot_of(s, key);
            assert(t[i] == s[i]);
            lemma_entry(s, i);
            lemma_entry(t, i);
        } else {
            assert forall|i: int| 0 <= i < t.len() implies (#[trigger] t[i]).key@ != key by {
                if i < s.len() {
                    assert(t[i] == s[i]);
                }
            }
            lemma_absent(t, key);
        }
    }
    lemma_same_lookups(entries_model(t), entries_model(s).insert(e.key@, e.value@));
}

proof fn lemma_replace(s: Seq<Entry>, i: int, e: Entry)
    requires
        distinct_keys(s),
        0 <= i < s.len(),
        e.key@ == s[i].key@,
    ensures
        distinct_keys(s.update(i, e)),
        entries_model(s.update(i, e)) == entries_model(s).insert(e.key@, e.value@),
{
    let t = s.update(i, e);
    assert(distinct_keys(t)) by {
        assert forall|a: int, b: int| 0 <= a < t.len() && 0 <= b < t.len() && a != b implies (
        #[trigger] t[a]).key@ != (#[trigger] t[b]).key@ by {
            assert(t[a].key@ == s[a].key@);
            assert(t[b].key@ == s[b].key@);
        }
        assert forall|a: int| 0 <= a < t.len() implies (#[trigger] t[a]).key@.comparable() by {
            assert(t[a].key@ == s[a].key@);
        }
    }
    assert forall|key: Val| #[trigger]
        lookup(entries_model(t), key) == lookup(entries_model(s).insert(e.key@, e.value@), key) by {
        if key == e.key@ {
            lemma_entry(t, i);
        } else if has_key(s, key) {
            let j = slot_of(s, key);
            assert(t[j] == s[j]);
            lemma_entry(s, j);
            lemma_entry(t, j);
        } else {
            assert forall|j: int| 0 <= j < t.len() implies (#[trigger] t[j]).key@ != key by {
                assert(t[j].key@ == s[j].key@);
            }
            lemma_absent(t, key);
        }
    }
    lemma_same_lookups(entries_model(t), entries_model(s).insert(e.key@, e.value@));
}

proof fn lemma_swap_remove(s: Seq<Entry>, i: int)
    requires
        distinct_keys(s),
        0 <= i < s.len(),
    ensures
        distinct_keys(s.update(i, s.last()).drop_last()),
        entries_model(s.update(i, s.last()).drop_last()) == entries_model(s).remove(s[i].key@),
{
    let t = s.update(i, s.last()).drop_last();
    let last = s.len() - 1;
    // Entry `j` of `t` is entry `from(j)` of `s`.
    let from = |j: int| if j == i { last } else { j };
    assert forall|j: int| 0 <= j < t.len() implies #[trigger] t[j] == s[from(j)] by {}
    assert(distinct_keys(t)) by {
        assert forall|a: int, b: int| 0 <= a < t.len() && 0 <= b < t.len() && a != b implies (
        #[trigger] t[a]).key@ != (#[trigger] t[b]).key@ by {
            assert(t[a] == s[from(a)]);
            assert(t[b] == s[from(b)]);
        }
        assert forall|a: int| 0 <= a < t.len() implies (#[trigger] t[a]).key@.comparable() by {
            assert(t[a] == s[from(a)]);
        }
    }
    assert forall|key: Val| #[trigger]
        lookup(entries_model(t), key) == lookup(entries_model(s).remove(s[i].key@), key) by {
        if key == s[i].key@ {
            assert forall|j: int| 0 <= j < t.len() implies (#[trigger] t[j]).key@ != key by {
                assert(t[j] == s[from(j)]);
            }
            lemma_absent(t, key);
        } else if has_key(s, key) {
            let j = slot_of(s, key);
            let k = if j == last { i } else { j };
            assert(t[k] == s[j]);
            lemma_entry(s, j);
            lemma_entry(t, k);
        } else {
            assert forall|j: int| 0 <= j < t.len() implies (#[trigger] t[j]).key@ != key by {
                assert(t[j] == s[from(j)]);
            }
            lemma_absent(t, key);
        }
    }
    lemma_same_lookups(entries_model(t), entries_model(s).remove(s[i].key@));
}

impl View for Table {
    type V = TableView;

    closed spec fn view(&self) -> TableView {
        TableView { data: entries_model(self.entries@), metatable: self.metatable }
    }
}

impl Table {
    #[verifier::type_invariant]
    spec fn well_formed(&self) -> bool {
        distinct_keys(self.entries@)
    }

    /// A table without entries and without a metatable.
    pub fn new() -> (table: Table)
        ensures
            table@.data == Map::<Val, Val>::empty(),
            table@.metatable is None,
    {
        let table = Table { entries: Vec::new(), metatable: None };
        proof {
            lemma_same_lookups(table@.data, Map::<Val, Val>::empty());
        }
        table
    }

    /// Where the entry with the key `key` stands, if there is one.
    fn find(&self, key: &Value) -> (slot: Option<usize>)
        ensures
            match slot {
                Some(i) => i < self.entries.len() && self.entries[i as int].key@ == key@,
                None => forall|i: int|
                    0 <= i < self.entries.len() ==> (#[trigger] self.entries[i]).key@ != key@,
            },
    {
        proof {
            use_type_invariant(self);
        }
        let mut i: usize = 0;
        while i < self.entries.len()
            invariant
                i <= self.entries.len(),
                distinct_keys(self.entries@),
                forall|j: int| 0 <= j < i ==> (#[trigger] self.entries[j]).key@ != key@,
            decreases self.entries.len() - i,
        {
            if self.entries[i].key == *key {
                return Some(i);
            }
            i += 1;
        }
        None
    }

    /// The value stored under `key`, if there is one.
    pub fn get(&self, key: &Value) -> (value: Option<&Value>)
        ensures
            match value {
                Some(v) => lookup(self@.data, key@) == Some(v@),
                None => lookup(self@.data, key@) is None,
            },
    {
        proof {
            use_type_invariant(self);
        }
        match self.find(key) {
            Some(i) => {
                proof {
                    lemma_entry(self.entries@, i as int);
                }
                Some(&self.entries[i].value)
            },
            None => {
                proof {
                    lemma_absent(self.entries@, key@);
                }
                None
            },
        }
    }

    /// Stores `value` under `key` and returns what was stored there before.
    /// A key that is a host value is equal to no key, itself included: the
    /// table is left as it is and `None` is returned.
    pub fn insert(&mut self, key: Value, value: Value) -> (previous: Option<Value>)
        ensures
            final(self)@.metatable == old(self)@.metatable,
            final(self)@.data == if key@.comparable() {
                old(self)@.data.insert(key@, value@)
            } else {
                old(self)@.data
            },
            view_of(previous) == lookup(old(self)@.data, key@),
    {
        proof {
            use_type_invariant(&*self);
        }
        let slot = self.find(&key);
        let comparable = match &key {
            Value::UserData { .. } => false,
            _ => true,
        };
        if !comparable {
            proof {
                lemma_absent(self.entries@, key@);
            }
            return None;
        }
        let ghost before = self.entries@;
        let mut entries: Vec<Entry> = Vec::new();
        std::mem::swap(&mut entries, &mut self.entries);
        let previous = match slot {
            Some(i) => {
                let previous = entries[i].value.clone();
                proof {
                    lemma_entry(before, i as int);
                    lemma_replace(before, i as int, Entry { key, value });
                }
                entries.set(i, Entry { key, value });
                Some(previous)
            },
            None => {
                proof {
                    lemma_absent(before, key@);
                    lemma_push(before, Entry { key, value });
                }
                entries.push(Entry { key, value });
                None
            },
        };
        self.entries = entries;
        previous
    }

    /// Removes the entry under `key` and returns what was stored there.
    pub fn remove(&mut self, key: &Value) -> (previous: Option<Value>)
        ensures
            final(self)@.metatable == old(self)@.metatable,
            final(self)@.data == old(self)@.data.remove(key@),
            view_of(previous) == lookup(old(self)@.data, key@),
    {
        proof {
            use_type_invariant(&*self);
        }
        let slot = self.find(key);
        let ghost before = self.entries@;
        match slot {
            Some(i) => {
                let mut entries: Vec<Entry> = Vec::new();
                std::mem::swap(&mut entries, &mut self.entries);
                proof {
                    lemma_entry(before, i as int);
                    lemma_swap_remove(before, i as int);
                }
                let entry = entries.swap_remove(i);
                self.entries = entries;
                Some(entry.value)
            },
            None => {
                proof {
                    lemma_absent(before, key@);
                    lemma_same_lookups(self@.data, self@.data.remove(key@));
                }
                None
            },
        }
    }

    /// Plain lookup: the value under `index`, nil where there is none.
    pub fn index(&self, index: &Value) -> (value: Nillable)
        ensures
            value@ == lookup(self@.data, index@),
    {
        match self.get(index) {
            Some(value) => Nillable::NonNil(value.clone()),
            None => Nillable::Nil,
        }
    }

    /// Moves the table into `heap`, where it can be shared, and returns its
    /// handle, which no table had before.
    pub fn arc(self, heap: &mut Heap) -> (handle: TableRef)
        requires
            old(heap)@.admits_table(self@),
        ensures
            handle == old(heap)@.next_table(),
            handle.id == old(heap)@.tables.len(),
            final(heap)@ == old(heap)@.with_new_table(self@),
    {
        heap.new_table(self)
    }

    /// The metatable, if one is attached.
    pub fn metatable(&self) -> (metatable: Option<TableRef>)
        ensures
            metatable == self@.metatable,
    {
        self.metatable
    }

    /// Attaches `metatable` in place of any metatable that was attached, or
    /// detaches it where `metatable` is `None`.
    pub fn set_metatable(&mut self, metatable: Option<TableRef>)
        ensures
            final(self)@.data == old(self)@.data,
            final(self)@.metatable == metatable,
    {
        proof {
            use_type_invariant(&*self);
        }
        self.metatable = metatable;
    }

    /// Sets position `position` to `carried`, or empties it where `carried`
    /// is nil, and returns what the position held.
    fn place(&mut self, position: i64, carried: Nillable) -> (previous: Nillable)
        ensures
            final(self)@.metatable == old(self)@.metatable,
            final(self)@.data == assign(old(self)@.data, Val::Integer(position), carried@),
            previous@ == at(old(self)@.data, position as int),
    {
        let previous = match carried {
            Nillable::NonNil(new) => self.insert(Value::Integer(position), new),
            Nillable::Nil => self.remove(&Value::Integer(position)),
        };
        match previous {
            Some(value) => Nillable::NonNil(value),
            None => Nillable::Nil,
        }
    }

    /// Moves the positions `lo..=hi` up by one and puts `value` at `lo`.
    fn move_up(&mut self, lo: i64, hi: i64, value: Nillable)
        ensures
            final(self)@.metatable == old(self)@.metatable,
            final(self)@.data == shift_up(old(self)@.data, lo as int, hi as int, value@),
    {
        let ghost start = self@.data;
        let ghost first = value@;
        if lo > hi {
            proof {
                lemma_same_lookups(start, shift_up(start, lo as int, hi as int, first));
            }
            return ;
        }
        let mut carried = value;
        let mut i: i64 = lo;
        proof {
            lemma_same_lookups(start, shift_up(start, lo as int, lo - 1, first));
        }
        while i < hi
            invariant
                lo <= i <= hi,
                self@.metatable == old(self)@.metatable,
                self@.data == shift_up(start, lo as int, i - 1, first),
                carried@ == if i == lo {
                    first
                } else {
                    at(start, i - 1)
                },
            decreases hi - i,
        {
            carried = self.place(i, carried);
            proof {
                lemma_same_lookups(self@.data, shift_up(start, lo as int, i as int, first));
            }
            i = i + 1;
        }
        self.place(hi, carried);
        proof {
            lemma_same_lookups(self@.data, shift_up(start, lo as int, hi as int, first));
        }
    }

    /// Moves the positions `lo..=hi` down by one and returns what `lo` held.
    fn move_down(&mut self, lo: i64, hi: i64) -> (removed: Nillable)
        ensures
            final(self)@.metatable == old(self)@.metatable,
            final(self)@.data == shift_down(old(self)@.data, lo as int, hi as int),
            lo <= hi ==> removed@ == at(old(self)@.data, lo as int),
            lo > hi ==> removed@ is None,
    {
        let ghost start = self@.data;
        if lo > hi {
            proof {
                lemma_same_lookups(start, shift_down(start, lo as int, hi as int));
            }
            return Nillable::Nil;
        }
        let mut carried = Nillable::Nil;
        let mut i: i64 = hi;
        proof {
            lemma_same_lookups(start, shift_down(start, hi + 1, hi as int));
        }
        while i > lo
            invariant
                lo <= i <= hi,
                self@.metatable == old(self)@.metatable,
                self@.data == shift_down(start, i + 1, hi as int),
                carried@ == if i == hi {
                    None
                } else {
                    at(start, i + 1)
                },
            decreases i - lo,
        {
            carried = self.place(i, carried);
            proof {
                lemma_same_lookups(self@.data, shift_down(start, i as int, hi as int));
            }
            i = i - 1;
        }
        let removed = self.place(lo, carried);
        proof {
            lemma_same_lookups(self@.data, shift_down(start, lo as int, hi as int));
        }
        removed
    }

    /// The array length: the highest integer key present, 0 if there is no
    /// positive one. This is not the length that a tuple declares.
    pub fn array_len(&self) -> (len: i64)
        ensures
            len == array_len(self@.data),
    {
        proof {
            use_type_invariant(self);
        }
        let mut len: i64 = 0;
        let mut i: usize = 0;
        while i < self.entries.len()
            invariant
                i <= self.entries.len(),
                0 <= len,
                len == 0 || exists|j: int|
                    0 <= j < i && (#[trigger] self.entries[j]).key@ == Val::Integer(len),
                forall|j: int|
                    0 <= j < i ==> ((#[trigger] self.entries[j]).key@ matches Val::Integer(k)
                        ==> k <= len),
            decreases self.entries.len() - i,
        {
            match self.entries[i].key.integer() {
                Some(k) => {
                    if k > len {
                        len = k;
                    }
                },
                None => {},
            }
            i += 1;
        }
        proof {
            let m = self@.data;
            assert(is_array_len(m, len as int)) by {
                assert forall|k: i64| len < k implies !m.contains_key(Val::Integer(k)) by {
                    if has_key(self.entries@, Val::Integer(k)) {
                        let j = slot_of(self.entries@, Val::Integer(k));
                        assert(self.entries[j].key@ == Val::Integer(k));
                    }
                }
            }
            lemma_array_len(m);
        }
        len
    }

    /// Whether the table has an integer key. The name says the opposite of
    /// what is computed: the result is true exactly for a table that holds
    /// at least one integer key, whatever its sign.
    pub fn array_is_empty(&self) -> (any: bool)
        ensures
            any == exists|k: i64| self@.data.contains_key(Val::Integer(k)),
    {
        proof {
            use_type_invariant(self);
        }
        let mut i: usize = 0;
        while i < self.entries.len()
            invariant
                i <= self.entries.len(),
                forall|j: int| 0 <= j < i ==> !((#[trigger] self.entries[j]).key@ is Integer),
            decreases self.entries.len() - i,
        {
            match self.entries[i].key.integer() {
                Some(k) => {
                    proof {
                        assert(has_key(self.entries@, Val::Integer(k)));
                        assert(self@.data.contains_key(Val::Integer(k)));
                    }
                    return true;
                },
                None => {},
            }
            i += 1;
        }
        proof {
            assert forall|k: i64| !self@.data.contains_key(Val::Integer(k)) by {
                if has_key(self.entries@, Val::Integer(k)) {
                    let j = slot_of(self.entries@, Val::Integer(k));
                    assert(self.entries[j].key@ == Val::Integer(k));
                }
            }
        }
        false
    }

    /// Inserts `value` at position `index` of the array: what stood at
    /// `index` and above moves up by one. Inserting nil leaves `index` empty.
    /// The positions that move end one past the end of the array, and not
    /// before position 2; an `index` beyond them changes nothing.
    pub fn array_insert(&mut self, index: i64, value: Nillable)
        requires
            array_len(old(self)@.data) < i64::MAX,
        ensures
            final(self)@.metatable == old(self)@.metatable,
            final(self)@.data == array_inserted(old(self)@.data, index as int, value@),
    {
        let len: i64 = self.array_len();
        let hi: i64 = if len < 1 {
            2
        } else {
            len + 1
        };
        self.move_up(index, hi, value);
    }

    /// Removes position `index` of the array: what stood above `index` moves
    /// down by one. Returns what stood at `index`, nil if nothing did.
    pub fn array_remove(&mut self, index: i64) -> (removed: Nillable)
        ensures
            final(self)@.metatable == old(self)@.metatable,
            final(self)@.data == array_removed(old(self)@.data, index as int),
            removed@ == at(old(self)@.data, index as int),
    {
        let len: i64 = self.array_len();
        proof {
            lemma_array_len(self@.data);
        }
        self.move_down(index, len)
    }

    /// Inserts `value` at the position of the last element of the array.
    pub fn array_push(&mut self, value: Nillable)
        requires
            array_len(old(self)@.data) < i64::MAX,
        ensures
            final(self)@.metatable == old(self)@.metatable,
            final(self)@.data == array_pushed(old(self)@.data, value@),
    {
        let len: i64 = self.array_len();
        self.array_insert(len, value)
    }

    /// The length that the table declares as a tuple: the integer under key
    /// 0, `None` where key 0 is empty or holds something else.
    pub fn declared_len(&self) -> (len: Option<i64>)
        ensures
            len == declared_len(self@.data),
    {
        match self.get(&Value::Integer(0)) {
            Some(Value::Integer(len)) => Some(*len),
            _ => None,
        }
    }

    /// Whether the table is laid out as a tuple: key 0 holds an integer.
    pub fn is_tuple(&self) -> (tuple: bool)
        ensures
            tuple == is_tuple(self@.data),
    {
        self.declared_len().is_some()
    }

    /// The length that the tuple declares, read from key 0. Only a table
    /// that is laid out as a tuple has one.
    pub fn tuple_len(&self) -> (len: i64)
        requires
            is_tuple(self@.data),
        ensures
            Some(len) == declared_len(self@.data),
    {
        match self.declared_len() {
            Some(len) => len,
            None => unreached(),
        }
    }

    /// Inserts `value` at position `index` of the tuple: the declared length
    /// grows by one, then what stood at `index` and above moves up by one.
    pub fn tuple_insert(&mut self, index: i64, value: Nillable)
        requires
            is_tuple(old(self)@.data),
            declared_len(old(self)@.data)->0 < i64::MAX,
        ensures
            final(self)@.metatable == old(self)@.metatable,
            final(self)@.data == tuple_inserted(old(self)@.data, index as int, value@),
    {
        let len: i64 = self.tuple_len();
        self.insert(Value::Integer(0), Value::Integer(len + 1));
        let hi: i64 = if len < 1 {
            2
        } else {
            len + 1
        };
        self.move_up(index, hi, value);
    }

    /// The array with the given elements: element `i` stands at position
    /// `i + 1`, and a nil element leaves its position empty.
    pub fn array(elements: Vec<Nillable>) -> (table: Table)
        requires
            elements.len() <= i64::MAX,
        ensures
            table@.metatable is None,
            table@.data == array_of(elements_view(elements@)),
    {
        let ghost all = elements_view(elements@);
        let mut table = Table::new();
        let mut i: usize = 0;
        proof {
            lemma_same_lookups(table@.data, array_of(all.take(0)));
        }
        while i < elements.len()
            invariant
                i <= elements.len() <= i64::MAX,
                all == elements_view(elements@),
                table@.metatable is None,
                table@.data == array_of(all.take(i as int)),
            decreases elements.len() - i,
        {
            match &elements[i] {
                Nillable::NonNil(value) => {
                    table.insert(Value::Integer(i as i64 + 1), value.clone());
                },
                Nillable::Nil => {},
            }
            proof {
                lemma_same_lookups(table@.data, array_of(all.take(i + 1)));
            }
            i += 1;
        }
        proof {
            assert(all.take(elements.len() as int) == all);
        }
        table
    }

    /// The tuple with the given elements: the array of them, with their
    /// number under key 0.
    pub fn tuple(elements: Vec<Nillable>) -> (table: Table)
        requires
            elements.len() <= i64::MAX,
        ensures
            table@.metatable is None,
            table@.data == tuple_of(elements_view(elements@)),
            declared_len(table@.data) == Some(elements.len() as i64),
            lookup(table@.data, Val::Integer(0)) == Some(Val::Integer(elements.len() as i64)),
            tuple_elements(table@.data) == elements_view(elements@),
    {
        let len: i64 = elements.len() as i64;
        proof {
            lemma_tuple_of(elements_view(elements@));
        }
        let mut table = Table::array(elements);
        table.insert(Value::Integer(0), Value::Integer(len));
        table
    }
}

impl Default for Table {
    fn default() -> (table: Table)
        ensures
            table@.data == Map::<Val, Val>::empty(),
            table@.metatable is None,
    {
        Table::new()
    }
}

} // verus!
