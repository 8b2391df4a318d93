//! The heap: the home of everything that is shared and mutable.
//!
//! Tables, closures and promoted closure variables are reached through
//! handles. A handle is valid from the moment the heap hands it out; nothing
//! is ever freed, so an object that refers to itself or to another simply
//! stays. The heap is closed: every handle stored anywhere in it is valid.

use vstd::prelude::*;
use crate::function::{Function, FunctionView};
use crate::model::{
    array_inserted, array_len, array_pushed, array_removed, at, declared_len, is_tuple,
    lookup, shift_down, shift_end, shift_up, tuple_inserted,
};
use crate::table::{Table, TableView};
use crate::value::{FunctionRef, Nillable, TableRef, UpValueRef, Val, Value, view_of};

verus! {

/// What a [`Heap`] denotes: its tables, its closures and its shared closure
/// variables, each found at the position that its handle names.
pub struct HeapView {
    pub tables: Seq<TableView>,
    pub functions: Seq<FunctionView>,
    pub up_values: Seq<Option<Val>>,
}

impl HeapView {
    /// Whether `table` is a handle that this heap handed out.
    pub open spec fn has_table(self, table: TableRef) -> bool {
        table.id < self.tables.len()
    }

    /// Whether `function` is a handle that this heap handed out.
    pub open spec fn has_function(self, function: FunctionRef) -> bool {
        function.id < self.functions.len()
    }

    /// Whether `up_value` is a handle that this heap handed out.
    pub open spec fn has_up_value(self, up_value: UpValueRef) -> bool {
        up_value.id < self.up_values.len()
    }

    /// Whether every handle in `value` is valid in this heap.
    pub open spec fn admits(self, value: Val) -> bool {
        match value {
            Val::Table(table) => self.has_table(table),
            Val::Function(function) => self.has_function(function),
            Val::UserData { meta: Some(table), .. } => self.has_table(table),
            _ => true,
        }
    }

    /// Whether every handle in `value`, if it is not nil, is valid in this
    /// heap.
    pub open spec fn admits_nillable(self, value: Option<Val>) -> bool {
        match value {
            Some(value) => self.admits(value),
            None => true,
        }
    }

    /// Whether every handle in the keys and values of `data` is valid in this
    /// heap.
    pub open spec fn admits_data(self, data: Map<Val, Val>) -> bool {
        forall|key: Val| #[trigger]
            data.contains_key(key) ==> self.admits(key) && self.admits(data[key])
    }

    /// Whether every handle in `table` is valid in this heap.
    pub open spec fn admits_table(self, table: TableView) -> bool {
        &&& self.admits_data(table.data)
        &&& table.metatable matches Some(metatable) ==> self.has_table(metatable)
    }

    /// Whether every variable that `function` captured is valid in this heap.
    pub open spec fn admits_function(self, function: FunctionView) -> bool {
        forall|i: int|
            0 <= i < function.up_values.len() ==> self.has_up_value(
                #[trigger] function.up_values[i],
            )
    }

    /// Whether every handle stored in this heap is valid in it.
    pub open spec fn closed(self) -> bool {
        &&& forall|i: int|
            0 <= i < self.tables.len() ==> self.admits_table(#[trigger] self.tables[i])
        &&& forall|i: int|
            0 <= i < self.functions.len() ==> self.admits_function(#[trigger] self.functions[i])
        &&& forall|i: int|
            0 <= i < self.up_values.len() ==> self.admits_nillable(#[trigger] self.up_values[i])
    }

    /// The table behind `table`.
    pub open spec fn table(self, table: TableRef) -> TableView
        recommends
            self.has_table(table),
    {
        self.tables[table.id as int]
    }

    /// The entries of the table behind `table`.
    pub open spec fn data(self, table: TableRef) -> Map<Val, Val>
        recommends
            self.has_table(table),
    {
        self.tables[table.id as int].data
    }

    /// This heap with the entries of the table behind `table` replaced by
    /// `data`. The metatable stays, and so does everything else.
    pub open spec fn with_data(self, table: TableRef, data: Map<Val, Val>) -> HeapView
        recommends
            self.has_table(table),
    {
        HeapView {
            tables: self.tables.update(
                table.id as int,
                TableView { data, metatable: self.tables[table.id as int].metatable },
            ),
            ..self
        }
    }

    /// This heap with the metatable of the table behind `table` replaced by
    /// `metatable`. The entries stay, and so does everything else.
    pub open spec fn with_metatable(self, table: TableRef, metatable: Option<TableRef>) -> HeapView
        recommends
            self.has_table(table),
    {
        HeapView {
            tables: self.tables.update(
                table.id as int,
                TableView { data: self.tables[table.id as int].data, metatable },
            ),
            ..self
        }
    }

    /// The handle that the next new table gets. It is valid in no heap that
    /// came before.
    pub open spec fn next_table(self) -> TableRef {
        TableRef { id: self.tables.len() as usize }
    }

    /// This heap with `table` added as a new table, behind `next_table`.
    pub open spec fn with_new_table(self, table: TableView) -> HeapView {
        HeapView { tables: self.tables.push(table), ..self }
    }

    /// The handle that the next new closure gets.
    pub open spec fn next_function(self) -> FunctionRef {
        FunctionRef { id: self.functions.len() as usize }
    }

    /// This heap with `function` added as a new closure, behind
    /// `next_function`.
    pub open spec fn with_new_function(self, function: FunctionView) -> HeapView {
        HeapView { functions: self.functions.push(function), ..self }
    }

    /// The handle that the next new shared variable gets.
    pub open spec fn next_up_value(self) -> UpValueRef {
        UpValueRef { id: self.up_values.len() as usize }
    }

    /// This heap with a new shared variable that holds `value`, behind
    /// `next_up_value`.
    pub open spec fn with_new_up_value(self, value: Option<Val>) -> HeapView {
        HeapView { up_values: self.up_values.push(value), ..self }
    }

    /// This heap with `value` written to the shared variable behind
    /// `up_value`.
    pub open spec fn with_up_value(self, up_value: UpValueRef, value: Option<Val>) -> HeapView
        recommends
            self.has_up_value(up_value),
    {
        HeapView { up_values: self.up_values.update(up_value.id as int, value), ..self }
    }
}

/// Identity: a table is equal to itself and to no other table. The handle of
/// a new table differs from every handle that the heap handed out before, and
/// two tables made one after the other differ, whatever they hold.
pub proof fn lemma_new_tables_differ(heap: HeapView, first: TableView, second: TableView)
    requires
        heap.tables.len() < usize::MAX,
    ensures
        ({
            let a = heap.next_table();
            let b = heap.with_new_table(first).next_table();
            &&& Val::Table(a).equals(Val::Table(a))
            &&& Val::Table(b).equals(Val::Table(b))
            &&& !Val::Table(a).equals(Val::Table(b))
            &&& !Val::Table(b).equals(Val::Table(a))
            &&& forall|earlier: TableRef|
                heap.has_table(earlier) ==> !Val::Table(earlier).equals(Val::Table(a))
        }),
{
}

/// A closed heap stays closed when one table gets entries that the heap
/// admits.
proof fn lemma_with_data_closed(h: HeapView, table: TableRef, data: Map<Val, Val>)
    requires
        h.closed(),
        h.has_table(table),
        h.admits_data(data),
    ensures
        h.with_data(table, data).closed(),
{
    let g = h.with_data(table, data);
    assert forall|i: int| 0 <= i < g.tables.len() implies g.admits_table(
        #[trigger] g.tables[i],
    ) by {
        if i != table.id {
            assert(h.admits_table(h.tables[i]));
        } else {
            assert(h.admits_table(h.tables[i]));
            assert(g.admits_data(data));
        }
    }
    assert forall|i: int| 0 <= i < g.functions.len() implies g.admits_function(
        #[trigger] g.functions[i],
    ) by {
        assert(h.admits_function(h.functions[i]));
    }
    assert forall|i: int| 0 <= i < g.up_values.len() implies g.admits_nillable(
        #[trigger] g.up_values[i],
    ) by {
        assert(h.admits_nillable(h.up_values[i]));
    }
}

/// Moving positions up brings in no handle but those of the new value.
proof fn lemma_shift_up_admitted(
    h: HeapView,
    m: Map<Val, Val>,
    lo: int,
    hi: int,
    value: Option<Val>,
)
    requires
        h.admits_data(m),
        h.admits_nillable(value),
    ensures
        h.admits_data(shift_up(m, lo, hi, value)),
{
    let n = shift_up(m, lo, hi, value);
    assert forall|key: Val| #[trigger] n.contains_key(key) implies h.admits(key) && h.admits(
        n[key],
    ) by {
        if key is Integer && lo < key->Integer_0 <= hi {
            assert(m.contains_key(Val::Integer((key->Integer_0 - 1) as i64)));
        } else if key is Integer && lo == key->Integer_0 && lo <= hi {
        } else {
            assert(m.contains_key(key));
        }
    }
}

/// Moving positions down brings in no handle.
proof fn lemma_shift_down_admitted(h: HeapView, m: Map<Val, Val>, lo: int, hi: int)
    requires
        h.admits_data(m),
    ensures
        h.admits_data(shift_down(m, lo, hi)),
{
    let n = shift_down(m, lo, hi);
    assert forall|key: Val| #[trigger] n.contains_key(key) implies h.admits(key) && h.admits(
        n[key],
    ) by {
        if key is Integer && lo <= key->Integer_0 < hi {
            assert(m.contains_key(Val::Integer((key->Integer_0 + 1) as i64)));
        } else {
            assert(m.contains_key(key));
        }
    }
}

/// The three collections of a heap.
struct Store {
    tables: Vec<Table>,
    functions: Vec<Function>,
    up_values: Vec<Nillable>,
}

impl Store {
    spec fn model(&self) -> HeapView {
        HeapView {
            tables: Seq::new(self.tables.len() as nat, |i: int| self.tables[i]@),
            functions: Seq::new(self.functions.len() as nat, |i: int| self.functions[i]@),
            up_values: Seq::new(self.up_values.len() as nat, |i: int| self.up_values[i]@),
        }
    }

    fn empty() -> (store: Store)
        ensures
            store.tables.len() == 0,
            store.functions.len() == 0,
            store.up_values.len() == 0,
    {
        Store { tables: Vec::new(), functions: Vec::new(), up_values: Vec::new() }
    }
}

/// The tables, closures and shared closure variables of one interpreter.
pub struct Heap {
    store: Store,
}

impl View for Heap {
    type V = HeapView;

    closed spec fn view(&self) -> HeapView {
        self.store.model()
    }
}

impl Heap {
    #[verifier::type_invariant]
    spec fn well_formed(&self) -> bool {
        self.store.model().closed()
    }

    /// A heap that holds nothing.
    pub fn new() -> (heap: Heap)
        ensures
            heap@.tables.len() == 0,
            heap@.functions.len() == 0,
            heap@.up_values.len() == 0,
    {
        Heap { store: Store::empty() }
    }

    /// Whether `table` is a handle that this heap handed out.
    pub fn has_table(&self, table: TableRef) -> (valid: bool)
        ensures
            valid == self@.has_table(table),
    {
        table.id < self.store.tables.len()
    }

    /// Whether `function` is a handle that this heap handed out.
    pub fn has_function(&self, function: FunctionRef) -> (valid: bool)
        ensures
            valid == self@.has_function(function),
    {
        function.id < self.store.functions.len()
    }

    /// Whether `up_value` is a handle that this heap handed out.
    pub fn has_up_value(&self, up_value: UpValueRef) -> (valid: bool)
        ensures
            valid == self@.has_up_value(up_value),
    {
        up_value.id < self.store.up_values.len()
    }

    /// Whether every handle in `value` is valid in this heap.
    pub fn admits(&self, value: &Value) -> (valid: bool)
        ensures
            valid == self@.admits(value@),
    {
        match value {
            Value::Table(table) => self.has_table(*table),
            Value::Function(function) => self.has_function(*function),
            Value::UserData { meta: Some(table), .. } => self.has_table(*table),
            _ => true,
        }
    }

    /// The table behind `table`. Every handle in it is valid, as is every
    /// handle anywhere in the heap.
    pub fn table(&self, table: TableRef) -> (found: &Table)
        requires
            self@.has_table(table),
        ensures
            found@ == self@.table(table),
            self@.admits_table(found@),
            self@.closed(),
    {
        proof {
            use_type_invariant(self);
            assert(self@.admits_table(self@.tables[table.id as int]));
        }
        &self.store.tables[table.id]
    }

    /// Moves `table` into the heap and returns the handle of the new table,
    /// which no table had before.
    pub fn new_table(&mut self, table: Table) -> (handle: TableRef)
        requires
            old(self)@.admits_table(table@),
        ensures
            handle == old(self)@.next_table(),
            handle.id == old(self)@.tables.len(),
            final(self)@ == old(self)@.with_new_table(table@),
    {
        proof {
            use_type_invariant(&*self);
        }
        let ghost before = self@;
        let mut store = Store::empty();
        std::mem::swap(&mut store, &mut self.store);
        let handle = TableRef { id: store.tables.len() };
        store.tables.push(table);
        proof {
            let after = store.model();
            assert(after.tables =~= before.tables.push(table@));
            assert(after.up_values =~= before.up_values);
            assert(after == before.with_new_table(table@));
            assert forall|i: int| 0 <= i < after.tables.len() implies after.admits_table(
                #[trigger] after.tables[i],
            ) by {
                if i < before.tables.len() {
                    assert(before.admits_table(before.tables[i]));
                }
            }
            assert forall|i: int| 0 <= i < after.functions.len() implies after.admits_function(
                #[trigger] after.functions[i],
            ) by {
                assert(before.admits_function(before.functions[i]));
            }
            assert forall|i: int| 0 <= i < after.up_values.len() implies after.admits_nillable(
                #[trigger] after.up_values[i],
            ) by {
                assert(before.admits_nillable(before.up_values[i]));
            }
        }
        self.store = store;
        handle
    }

    /// Stores `value` under `key` in the table behind `table` and returns
    /// what was stored there before. A key that is a host value changes
    /// nothing.
    pub fn insert(&mut self, table: TableRef, key: Value, value: Value) -> (previous: Option<
        Value,
    >)
        requires
            old(self)@.has_table(table),
            old(self)@.admits(key@),
            old(self)@.admits(value@),
        ensures
            final(self)@ == old(self)@.with_data(
                table,
                if key@.comparable() {
                    old(self)@.data(table).insert(key@, value@)
                } else {
                    old(self)@.data(table)
                },
            ),
            view_of(previous) == lookup(old(self)@.data(table), key@),
    {
        proof {
            use_type_invariant(&*self);
        }
        let ghost before = self@;
        let ghost data = if key@.comparable() {
            before.data(table).insert(key@, value@)
        } else {
            before.data(table)
        };
        let mut store = Store::empty();
        std::mem::swap(&mut store, &mut self.store);
        let previous = store.tables[table.id].insert(key, value);
        proof {
            assert(before.admits_table(before.tables[table.id as int]));
            lemma_changed(before, store.model(), table, data);
        }
        self.store = store;
        previous
    }

    /// Removes the entry under `key` from the table behind `table` and
    /// returns what was stored there.
    pub fn remove(&mut self, table: TableRef, key: &Value) -> (previous: Option<Value>)
        requires
            old(self)@.has_table(table),
        ensures
            final(self)@ == old(self)@.with_data(table, old(self)@.data(table).remove(key@)),
            view_of(previous) == lookup(old(self)@.data(table), key@),
    {
        proof {
            use_type_invariant(&*self);
        }
        let ghost before = self@;
        let mut store = Store::empty();
        std::mem::swap(&mut store, &mut self.store);
        let previous = store.tables[table.id].remove(key);
        proof {
            assert(before.admits_table(before.tables[table.id as int]));
            lemma_changed(before, store.model(), table, before.data(table).remove(key@));
        }
        self.store = store;
        previous
    }

    /// `Table::array_insert` on the table behind `table`.
    pub fn array_insert(&mut self, table: TableRef, index: i64, value: Nillable)
        requires
            old(self)@.has_table(table),
            old(self)@.admits_nillable(value@),
            array_len(old(self)@.data(table)) < i64::MAX,
        ensures
            final(self)@ == old(self)@.with_data(
                table,
                array_inserted(old(self)@.data(table), index as int, value@),
            ),
    {
        proof {
            use_type_invariant(&*self);
        }
        let ghost before = self@;
        let mut store = Store::empty();
        std::mem::swap(&mut store, &mut self.store);
        proof {
            assert(before.admits_table(before.tables[table.id as int]));
            lemma_shift_up_admitted(
                before,
                before.data(table),
                index as int,
                shift_end(array_len(before.data(table))),
                value@,
            );
        }
        store.tables[table.id].array_insert(index, value);
        proof {
            lemma_changed(
                before,
                store.model(),
                table,
                array_inserted(before.data(table), index as int, value@),
            );
        }
        self.store = store;
    }

    /// `Table::array_remove` on the table behind `table`.
    pub fn array_remove(&mut self, table: TableRef, index: i64) -> (removed: Nillable)
        requires
            old(self)@.has_table(table),
        ensures
            final(self)@ == old(self)@.with_data(
                table,
                array_removed(old(self)@.data(table), index as int),
            ),
            removed@ == at(old(self)@.data(table), index as int),
            final(self)@.admits_nillable(removed@),
    {
        proof {
            use_type_invariant(&*self);
        }
        let ghost before = self@;
        let mut store = Store::empty();
        std::mem::swap(&mut store, &mut self.store);
        proof {
            assert(before.admits_table(before.tables[table.id as int]));
            lemma_shift_down_admitted(
                before,
                before.data(table),
                index as int,
                array_len(before.data(table)),
            );
        }
        let removed = store.tables[table.id].array_remove(index);
        proof {
            lemma_changed(
                before,
                store.model(),
                table,
                array_removed(before.data(table), index as int),
            );
            if removed@ is Some {
                assert(before.data(table).contains_key(Val::Integer(index)));
            }
        }
        self.store = store;
        removed
    }

    /// `Table::array_push` on the table behind `table`.
    pub fn array_push(&mut self, table: TableRef, value: Nillable)
        requires
            old(self)@.has_table(table),
            old(self)@.admits_nillable(value@),
            array_len(old(self)@.data(table)) < i64::MAX,
        ensures
            final(self)@ == old(self)@.with_data(
                table,
                array_pushed(old(self)@.data(table), value@),
            ),
    {
        let len: i64 = self.table(table).array_len();
        self.array_insert(table, len, value)
    }

    /// `Table::tuple_insert` on the table behind `table`.
    pub fn tuple_insert(&mut self, table: TableRef, index: i64, value: Nillable)
        requires
            old(self)@.has_table(table),
            old(self)@.admits_nillable(value@),
            is_tuple(old(self)@.data(table)),
            declared_len(old(self)@.data(table))->0 < i64::MAX,
        ensures
            final(self)@ == old(self)@.with_data(
                table,
                tuple_inserted(old(self)@.data(table), index as int, value@),
            ),
    {
        proof {
            use_type_invariant(&*self);
        }
        let ghost before = self@;
        let mut store = Store::empty();
        std::mem::swap(&mut store, &mut self.store);
        proof {
            let data = before.data(table);
            let len = declared_len(data)->0;
            assert(before.admits_table(before.tables[table.id as int]));
            let grown = data.insert(Val::Integer(0), Val::Integer((len + 1) as i64));
            assert(before.admits_data(grown));
            lemma_shift_up_admitted(before, grown, index as int, shift_end(len as int), value@);
        }
        store.tables[table.id].tuple_insert(index, value);
        proof {
            lemma_changed(
                before,
                store.model(),
                table,
                tuple_inserted(before.data(table), index as int, value@),
            );
        }
        self.store = store;
    }

    /// Attaches `metatable` to the table behind `table`, in place of any
    /// metatable that it had.
    pub fn set_metatable(&mut self, table: TableRef, metatable: Option<TableRef>)
        requires
            old(self)@.has_table(table),
            metatable matches Some(m) ==> old(self)@.has_table(m),
        ensures
            final(self)@ == old(self)@.with_metatable(table, metatable),
    {
        proof {
            use_type_invariant(&*self);
        }
        let ghost before = self@;
        let mut store = Store::empty();
        std::mem::swap(&mut store, &mut self.store);
        store.tables[table.id].set_metatable(metatable);
        proof {
            let after = store.model();
            assert(after.tables =~= before.with_metatable(table, metatable).tables);
            assert(after == before.with_metatable(table, metatable));
            assert forall|i: int| 0 <= i < after.tables.len() implies after.admits_table(
                #[trigger] after.tables[i],
            ) by {
                assert(before.admits_table(before.tables[i]));
            }
            assert forall|i: int| 0 <= i < after.functions.len() implies after.admits_function(
                #[trigger] after.functions[i],
            ) by {
                assert(before.admits_function(before.functions[i]));
            }
            assert forall|i: int| 0 <= i < after.up_values.len() implies after.admits_nillable(
                #[trigger] after.up_values[i],
            ) by {
                assert(before.admits_nillable(before.up_values[i]));
            }
        }
        self.store = store;
    }

    /// The closure behind `function`.
    pub fn function(&self, function: FunctionRef) -> (found: &Function)
        requires
            self@.has_function(function),
        ensures
            found@ == self@.functions[function.id as int],
            self@.admits_function(found@),
    {
        proof {
            use_type_invariant(self);
            assert(self@.admits_function(self@.functions[function.id as int]));
        }
        &self.store.functions[function.id]
    }

    /// Moves `function` into the heap and returns the handle of the new
    /// closure, which no closure had before.
    pub fn new_function(&mut self, function: Function) -> (handle: FunctionRef)
        requires
            old(self)@.admits_function(function@),
        ensures
            handle == old(self)@.next_function(),
            handle.id == old(self)@.functions.len(),
            final(self)@ == old(self)@.with_new_function(function@),
    {
        proof {
            use_type_invariant(&*self);
        }
        let ghost before = self@;
        let mut store = Store::empty();
        std::mem::swap(&mut store, &mut self.store);
        let handle = FunctionRef { id: store.functions.len() };
        store.functions.push(function);
        proof {
            let after = store.model();
            assert(after.functions =~= before.functions.push(function@));
            assert(after.tables =~= before.tables);
            assert(after.up_values =~= before.up_values);
            assert(after == before.with_new_function(function@));
            assert forall|i: int| 0 <= i < after.tables.len() implies after.admits_table(
                #[trigger] after.tables[i],
            ) by {
                assert(before.admits_table(before.tables[i]));
            }
            assert forall|i: int| 0 <= i < after.functions.len() implies after.admits_function(
                #[trigger] after.functions[i],
            ) by {
                if i < before.functions.len() {
                    assert(before.admits_function(before.functions[i]));
                }
            }
            assert forall|i: int| 0 <= i < after.up_values.len() implies after.admits_nillable(
                #[trigger] after.up_values[i],
            ) by {
                assert(before.admits_nillable(before.up_values[i]));
            }
        }
        self.store = store;
        handle
    }

    /// What the shared variable behind `up_value` holds.
    pub fn up_value(&self, up_value: UpValueRef) -> (value: Nillable)
        requires
            self@.has_up_value(up_value),
        ensures
            value@ == self@.up_values[up_value.id as int],
            self@.admits_nillable(value@),
    {
        proof {
            use_type_invariant(self);
            assert(self@.admits_nillable(self@.up_values[up_value.id as int]));
        }
        self.store.up_values[up_value.id].clone()
    }

    /// Writes `value` to the shared variable behind `up_value`. Every holder
    /// of the handle reads `value` from then on.
    pub fn set_up_value(&mut self, up_value: UpValueRef, value: Nillable)
        requires
            old(self)@.has_up_value(up_value),
            old(self)@.admits_nillable(value@),
        ensures
            final(self)@ == old(self)@.with_up_value(up_value, value@),
    {
        proof {
            use_type_invariant(&*self);
        }
        let ghost before = self@;
        let mut store = Store::empty();
        std::mem::swap(&mut store, &mut self.store);
        store.up_values.set(up_value.id, value);
        proof {
            let after = store.model();
            assert(after.up_values =~= before.up_values.update(up_value.id as int, value@));
            assert(after.tables =~= before.tables);
            assert(after == before.with_up_value(up_value, value@));
            assert forall|i: int| 0 <= i < after.tables.len() implies after.admits_table(
                #[trigger] after.tables[i],
            ) by {
                assert(before.admits_table(before.tables[i]));
            }
            assert forall|i: int| 0 <= i < after.functions.len() implies after.admits_function(
                #[trigger] after.functions[i],
            ) by {
                assert(before.admits_function(before.functions[i]));
            }
            assert forall|i: int| 0 <= i < after.up_values.len() implies after.admits_nillable(
                #[trigger] after.up_values[i],
            ) by {
                if i != up_value.id {
                    assert(before.admits_nillable(before.up_values[i]));
                }
            }
        }
        self.store = store;
    }

    /// Makes a new shared variable that holds `value` and returns its
    /// handle, which no variable had before.
    pub fn new_up_value(&mut self, value: Nillable) -> (handle: UpValueRef)
        requires
            old(self)@.admits_nillable(value@),
        ensures
            handle == old(self)@.next_up_value(),
            handle.id == old(self)@.up_values.len(),
            final(self)@ == old(self)@.with_new_up_value(value@),
    {
        proof {
            use_type_invariant(&*self);
        }
        let ghost before = self@;
        let mut store = Store::empty();
        std::mem::swap(&mut store, &mut self.store);
        let handle = UpValueRef { id: store.up_values.len() };
        store.up_values.push(value);
        proof {
            let after = store.model();
            assert(after.up_values =~= before.up_values.push(value@));
            assert(after.tables =~= before.tables);
            assert(after == before.with_new_up_value(value@));
            assert forall|i: int| 0 <= i < after.tables.len() implies after.admits_table(
                #[trigger] after.tables[i],
            ) by {
                assert(before.admits_table(before.tables[i]));
            }
            assert forall|i: int| 0 <= i < after.functions.len() implies after.admits_function(
                #[trigger] after.functions[i],
            ) by {
                assert(before.admits_function(before.functions[i]));
            }
            assert forall|i: int| 0 <= i < after.up_values.len() implies after.admits_nillable(
                #[trigger] after.up_values[i],
            ) by {
                if i < before.up_values.len() {
                    assert(before.admits_nillable(before.up_values[i]));
                }
            }
        }
        self.store = store;
        handle
    }
}

/// A closed heap in which the entries of one table were replaced by entries
/// that it admits is the heap `with_data`, and is closed.
proof fn lemma_changed(before: HeapView, after: HeapView, table: TableRef, data: Map<Val, Val>)
    requires
        before.closed(),
        before.has_table(table),
        before.admits_data(data),
        after.tables.len() == before.tables.len(),
        forall|i: int|
            0 <= i < before.tables.len() && i != table.id ==> #[trigger] after.tables[i]
                == before.tables[i],
        after.tables[table.id as int] == (TableView {
            data,
            metatable: before.tables[table.id as int].metatable,
        }),
        after.functions == before.functions,
        after.up_values == before.up_values,
    ensures
        after == before.with_data(table, data),
        after.closed(),
{
    assert(after.tables =~= before.with_data(table, data).tables);
    lemma_with_data_closed(before, table, data);
}

} // verus!
