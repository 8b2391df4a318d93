//! The native calling convention and the built-in functions.
//!
//! A native function takes a tuple table of arguments and gives back a tuple
//! table of results, or an error message. An error is an ordinary value: it
//! travels up through the results of the calls until a `pcall` turns it into
//! a result tuple.

use vstd::prelude::*;
use vstd::string::StringExecFns;
use crate::heap::{Heap, HeapView};
use crate::model::{
    array_of, array_removed, at, declared_len, is_tuple, lemma_same_lookups, lemma_tuple_inserted,
    lookup, tuple_elements, tuple_inserted, tuple_of,
};
use crate::table::{Table, TableView};
use crate::text::{join_text, line_parts, tabbed};
use crate::value::{
    elements_view, type_tag_of, FunctionRef, NativeFunction, Nillable, TableRef, Val, Value,
};

verus! {

/// The tuple table with the given elements and no metatable.
pub open spec fn tuple_table(elements: Seq<Option<Val>>) -> TableView {
    TableView { data: tuple_of(elements), metatable: None }
}

/// The models of a sequence of optional values.
pub open spec fn options_view(s: Seq<Option<Value>>) -> Seq<Option<Val>> {
    Seq::new(
        s.len(),
        |i: int|
            match s[i] {
                Some(value) => Some(value@),
                None => None,
            },
    )
}

/// The elements of the tuple `table`, as many as it declares.
pub fn table_to_vector(table: &Table) -> (vector: Vec<Nillable>)
    requires
        is_tuple(table@.data),
    ensures
        elements_view(vector@) == tuple_elements(table@.data),
{
    let end = table.tuple_len();
    let mut vector: Vec<Nillable> = Vec::new();
    if end < 1 {
        proof {
            assert(elements_view(vector@) =~= tuple_elements(table@.data));
        }
        return vector;
    }
    let mut index: i64 = 1;
    while index < end
        invariant
            1 <= index <= end,
            vector.len() == index - 1,
            forall|i: int| 0 <= i < vector.len() ==> (#[trigger] vector[i])@ == at(table@.data, i + 1),
        decreases end - index,
    {
        vector.push(table.index(&Value::Integer(index)));
        index = index + 1;
    }
    vector.push(table.index(&Value::Integer(end)));
    proof {
        assert(elements_view(vector@) =~= tuple_elements(table@.data));
    }
    vector
}

/// The array table of `vector`: element `i` stands at position `i + 1`, and
/// an element that is `None` leaves its position empty.
pub fn vector_to_table(vector: Vec<Option<Value>>) -> (table: Table)
    requires
        vector.len() <= i64::MAX,
    ensures
        table@.metatable is None,
        table@.data == array_of(options_view(vector@)),
{
    let ghost all = options_view(vector@);
    let mut table = Table::new();
    let mut i: usize = 0;
    proof {
        lemma_same_lookups(table@.data, array_of(all.take(0)));
    }
    while i < vector.len()
        invariant
            i <= vector.len() <= i64::MAX,
            all == options_view(vector@),
            table@.metatable is None,
            table@.data == array_of(all.take(i as int)),
        decreases vector.len() - i,
    {
        match &vector[i] {
            Some(value) => {
                table.insert(Value::Integer(i as i64 + 1), value.clone());
            },
            None => {},
        }
        proof {
            lemma_same_lookups(table@.data, array_of(all.take(i + 1)));
        }
        i += 1;
    }
    proof {
        assert(all.take(vector.len() as int) == all);
    }
    table
}

/// Makes the tuple of `elements` a new table of `heap`.
pub fn new_tuple(heap: &mut Heap, elements: Vec<Nillable>) -> (handle: TableRef)
    requires
        elements.len() <= i64::MAX,
        forall|i: int|
            0 <= i < elements.len() ==> old(heap)@.admits_nillable((#[trigger] elements[i])@),
    ensures
        handle == old(heap)@.next_table(),
        handle.id == old(heap)@.tables.len(),
        final(heap)@ == old(heap)@.with_new_table(tuple_table(elements_view(elements@))),
{
    let table = Table::tuple(elements);
    proof {
        assert forall|key: Val| #[trigger] table@.data.contains_key(key) implies heap@.admits(key)
            && heap@.admits(table@.data[key]) by {
            if key != Val::Integer(0) {
                assert(heap@.admits_nillable(elements[key->Integer_0 - 1]@));
            }
        }
    }
    heap.new_table(table)
}

/// The line that `print` writes for the argument tuple `arguments`: the text
/// of each element, with a tab between each two.
pub open spec fn print_line(arguments: Map<Val, Val>) -> Seq<char>
    recommends
        is_tuple(arguments),
{
    join_text(line_parts(tuple_elements(arguments)), "\t"@)
}

/// The built-in `print`, but for the writing: returns the line to write and
/// the result, an empty tuple. It always succeeds.
pub fn print(heap: &mut Heap, arguments: TableRef) -> (output: (String, TableRef))
    requires
        old(heap)@.has_table(arguments),
        is_tuple(old(heap)@.data(arguments)),
    ensures
        output.0@ == print_line(old(heap)@.data(arguments)),
        output.1 == old(heap)@.next_table(),
        final(heap)@ == old(heap)@.with_new_table(tuple_table(Seq::empty())),
{
    let vector = table_to_vector(heap.table(arguments));
    let line = tabbed(&vector);
    let result = new_tuple(heap, Vec::new());
    proof {
        assert(elements_view(Seq::<Nillable>::empty()) =~= Seq::<Option<Val>>::empty());
    }
    (line, result)
}

/// The message of `error` for the argument tuple `arguments`: the first
/// argument if it is a string, a fixed text otherwise.
pub open spec fn error_message(arguments: Map<Val, Val>) -> Seq<char> {
    match at(arguments, 1) {
        Some(Val::String(message)) => message,
        _ => "(non string errors are unsupported)"@,
    }
}

/// The built-in `error`: always fails. The failure carries the first
/// argument if it is a string, and a fixed text in place of anything else.
pub fn error(heap: &Heap, arguments: TableRef) -> (result: Result<TableRef, String>)
    requires
        heap@.has_table(arguments),
    ensures
        result is Err,
        result->Err_0@ == error_message(heap@.data(arguments)),
{
    match heap.table(arguments).index(&Value::Integer(1)) {
        Nillable::NonNil(Value::String(message)) => Err(message),
        _ => Err("(non string errors are unsupported)".to_owned()),
    }
}

/// The built-in `type`: a one-element tuple that holds the name of the
/// dynamic type of the first argument, `nil` where there is none.
pub fn type_of(heap: &mut Heap, arguments: TableRef) -> (result: Result<TableRef, String>)
    requires
        old(heap)@.has_table(arguments),
    ensures
        result == Ok::<TableRef, String>(old(heap)@.next_table()),
        final(heap)@ == old(heap)@.with_new_table(
            tuple_table(seq![Some(Val::String(type_tag_of(at(old(heap)@.data(arguments), 1))))]),
        ),
{
    let name = heap.table(arguments).index(&Value::Integer(1)).type_tag();
    let mut elements: Vec<Nillable> = Vec::new();
    elements.push(Nillable::NonNil(Value::new_string(name)));
    proof {
        assert(elements_view(elements@) =~= seq![
            Some(Val::String(type_tag_of(at(heap@.data(arguments), 1)))),
        ]);
    }
    Ok(new_tuple(heap, elements))
}

/// What `setmetatable` is asked to do: the table of the first argument and
/// the metatable of the second, where the tuple declares at least two
/// elements and both are tables.
pub open spec fn metatable_request(arguments: Map<Val, Val>) -> Option<(TableRef, TableRef)>
    recommends
        is_tuple(arguments),
{
    let elements = tuple_elements(arguments);
    if elements.len() >= 2 {
        match (elements[0], elements[1]) {
            (Some(Val::Table(table)), Some(Val::Table(metatable))) => Some((table, metatable)),
            _ => None,
        }
    } else {
        None
    }
}

/// The built-in `setmetatable`: attaches the table of the second argument
/// as metatable to the table of the first, in place of any metatable that
/// it had, and returns an empty tuple. Fails with `metatable error`, and
/// changes nothing, unless both arguments are tables.
pub fn setmetatable(heap: &mut Heap, arguments: TableRef) -> (result: Result<TableRef, String>)
    requires
        old(heap)@.has_table(arguments),
        is_tuple(old(heap)@.data(arguments)),
    ensures
        match metatable_request(old(heap)@.data(arguments)) {
            Some((table, metatable)) => {
                &&& result == Ok::<TableRef, String>(old(heap)@.next_table())
                &&& final(heap)@ == old(heap)@.with_metatable(table, Some(metatable)).with_new_table(
                    tuple_table(Seq::empty()),
                )
            },
            None => {
                &&& result is Err
                &&& result->Err_0@ == "metatable error"@
                &&& final(heap)@ == old(heap)@
            },
        },
{
    let vector = table_to_vector(heap.table(arguments));
    let ghost elements = tuple_elements(heap@.data(arguments));
    if vector.len() < 2 {
        return Err("metatable error".to_owned());
    }
    proof {
        assert(elements_view(vector@)[0] == vector[0]@);
        assert(elements_view(vector@)[1] == vector[1]@);
    }
    let metatable = match &vector[1] {
        Nillable::NonNil(Value::Table(metatable)) => *metatable,
        _ => {
            return Err("metatable error".to_owned());
        },
    };
    let table = match &vector[0] {
        Nillable::NonNil(Value::Table(table)) => *table,
        _ => {
            return Err("metatable error".to_owned());
        },
    };
    proof {
        lemma_elements_admitted(heap@, arguments);
        assert(heap@.admits_nillable(elements[0]));
        assert(heap@.admits_nillable(elements[1]));
    }
    heap.set_metatable(table, Some(metatable));
    let result = new_tuple(heap, Vec::new());
    proof {
        assert(elements_view(Seq::<Nillable>::empty()) =~= Seq::<Option<Val>>::empty());
    }
    Ok(result)
}

/// Every element of a tuple of a closed heap is admitted by the heap.
pub proof fn lemma_elements_admitted(heap: HeapView, arguments: TableRef)
    requires
        heap.closed(),
        heap.has_table(arguments),
    ensures
        forall|i: int|
            0 <= i < tuple_elements(heap.data(arguments)).len() ==> heap.admits_nillable(
                #[trigger] tuple_elements(heap.data(arguments))[i],
            ),
        forall|i: int| heap.admits_nillable(#[trigger] at(heap.data(arguments), i)),
{
    let data = heap.data(arguments);
    assert(heap.admits_table(heap.tables[arguments.id as int]));
    assert forall|i: int| heap.admits_nillable(#[trigger] at(data, i)) by {
        if at(data, i) is Some {
            assert(data.contains_key(Val::Integer(i as i64)));
        }
    }
    assert forall|i: int| 0 <= i < tuple_elements(data).len() implies heap.admits_nillable(
        #[trigger] tuple_elements(data)[i],
    ) by {
        assert(tuple_elements(data)[i] == at(data, i + 1));
    }
}

/// What `getmetatable` answers for the argument tuple `arguments`: nothing
/// unless the first argument is a table with a metatable; else the entry
/// `__metatable` of the metatable where it has one, and the metatable itself
/// where it has none.
pub open spec fn metatable_answer(heap: HeapView, arguments: Map<Val, Val>) -> Seq<Option<Val>>
    recommends
        is_tuple(arguments),
{
    let elements = tuple_elements(arguments);
    if elements.len() >= 1 {
        match elements[0] {
            Some(Val::Table(table)) => match heap.table(table).metatable {
                Some(metatable) => match lookup(
                    heap.data(metatable),
                    Val::String("__metatable"@),
                ) {
                    Some(fake) => seq![Some(fake)],
                    None => seq![Some(Val::Table(metatable))],
                },
                None => Seq::empty(),
            },
            _ => Seq::empty(),
        }
    } else {
        Seq::empty()
    }
}

/// The built-in `getmetatable`: an empty tuple unless the first argument is
/// a table with a metatable; else a one-element tuple. The element is the
/// metatable, unless the metatable has an entry `__metatable`: then it is
/// that entry, and the metatable itself is not handed out.
pub fn getmetatable(heap: &mut Heap, arguments: TableRef) -> (result: Result<TableRef, String>)
    requires
        old(heap)@.has_table(arguments),
        is_tuple(old(heap)@.data(arguments)),
    ensures
        result == Ok::<TableRef, String>(old(heap)@.next_table()),
        final(heap)@ == old(heap)@.with_new_table(
            tuple_table(metatable_answer(old(heap)@, old(heap)@.data(arguments))),
        ),
{
    let vector = table_to_vector(heap.table(arguments));
    let ghost elements = tuple_elements(heap@.data(arguments));
    let mut answer: Vec<Nillable> = Vec::new();
    proof {
        lemma_elements_admitted(heap@, arguments);
        assert(elements_view(answer@) =~= Seq::<Option<Val>>::empty());
    }
    if vector.len() >= 1 {
        proof {
            assert(elements_view(vector@)[0] == vector[0]@);
            assert(heap@.admits_nillable(elements[0]));
        }
        match &vector[0] {
            Nillable::NonNil(Value::Table(table)) => {
                match heap.table(*table).metatable() {
                    Some(metatable) => {
                        let found = heap.table(metatable).get(&Value::new_string("__metatable"));
                        let element = match found {
                            Some(fake) => {
                                proof {
                                    assert(heap@.data(metatable).contains_key(
                                        Val::String("__metatable"@),
                                    ));
                                }
                                Nillable::NonNil(fake.clone())
                            },
                            None => Nillable::NonNil(Value::Table(metatable)),
                        };
                        answer.push(element);
                        proof {
                            assert(elements_view(answer@) =~= metatable_answer(
                                heap@,
                                heap@.data(arguments),
                            ));
                        }
                    },
                    None => {},
                }
            },
            _ => {},
        }
    }
    Ok(new_tuple(heap, answer))
}

/// Something that can be called.
#[derive(Clone, Copy, PartialEq, Eq, Structural, Debug)]
pub enum Callee {
    Function(FunctionRef),
    NativeFunction(NativeFunction),
}

/// How far `pcall` got.
#[derive(Clone, Copy, PartialEq, Eq, Structural, Debug)]
pub enum PcallStep {
    /// The first argument can be called. The engine is to call `callee`
    /// with `arguments` and to hand the outcome to `pcall_return`.
    Call { callee: Callee, arguments: TableRef },
    /// The first argument cannot be called. Nothing is to be called, and
    /// this is the result of `pcall`.
    Done(TableRef),
}

/// The message of `pcall` for a first argument that cannot be called.
pub open spec fn not_callable_message(callee: Option<Val>) -> Seq<char> {
    "attempt to call a "@ + type_tag_of(callee) + " value"@
}

/// The result tuple of a protected call that failed with `message`.
pub open spec fn failure(message: Seq<char>) -> Seq<Option<Val>> {
    seq![Some(Val::Boolean(false)), Some(Val::String(message))]
}

/// The first half of the built-in `pcall`. It takes the first element out of
/// the argument tuple, so that the other elements move down by one, and
/// looks at it. A closure or a native function is to be called with what is
/// left of the arguments: that is for the engine. For anything else the
/// result is the new tuple `(false, message)`, and nothing is called.
pub fn pcall(heap: &mut Heap, arguments: TableRef) -> (step: PcallStep)
    requires
        old(heap)@.has_table(arguments),
    ensures
        ({
            let before = old(heap)@;
            let callee = at(before.data(arguments), 1);
            let taken = before.with_data(arguments, array_removed(before.data(arguments), 1));
            match callee {
                Some(Val::Function(function)) => {
                    &&& step == (PcallStep::Call { callee: Callee::Function(function), arguments })
                    &&& final(heap)@ == taken
                    &&& final(heap)@.has_function(function)
                },
                Some(Val::NativeFunction(function)) => {
                    &&& step == (PcallStep::Call {
                        callee: Callee::NativeFunction(function),
                        arguments,
                    })
                    &&& final(heap)@ == taken
                },
                _ => {
                    &&& step == PcallStep::Done(before.next_table())
                    &&& final(heap)@ == taken.with_new_table(
                        tuple_table(failure(not_callable_message(callee))),
                    )
                },
            }
        }),
{
    match heap.array_remove(arguments, 1) {
        Nillable::NonNil(Value::Function(function)) => PcallStep::Call {
            callee: Callee::Function(function),
            arguments,
        },
        Nillable::NonNil(Value::NativeFunction(function)) => PcallStep::Call {
            callee: Callee::NativeFunction(function),
            arguments,
        },
        value => {
            let mut message = "attempt to call a ".to_owned();
            message.append(value.type_tag());
            message.append(" value");
            let mut elements: Vec<Nillable> = Vec::new();
            elements.push(Nillable::NonNil(Value::Boolean(false)));
            elements.push(Nillable::NonNil(Value::String(message)));
            proof {
                assert(elements_view(elements@) =~= failure(not_callable_message(value@)));
            }
            PcallStep::Done(new_tuple(heap, elements))
        },
    }
}

/// The second half of the built-in `pcall`: what it returns once the call
/// has come back with `outcome`. After a success `true` is inserted in front
/// of the results, in the result tuple itself. After a failure the result is
/// the new tuple `(false, message)`.
pub fn pcall_return(heap: &mut Heap, outcome: Result<TableRef, String>) -> (result: TableRef)
    requires
        outcome matches Ok(results) ==> {
            &&& old(heap)@.has_table(results)
            &&& is_tuple(old(heap)@.data(results))
            &&& declared_len(old(heap)@.data(results))->0 < i64::MAX
        },
    ensures
        match outcome {
            Ok(results) => {
                &&& result == results
                &&& final(heap)@ == old(heap)@.with_data(
                    results,
                    tuple_inserted(old(heap)@.data(results), 1, Some(Val::Boolean(true))),
                )
            },
            Err(message) => {
                &&& result == old(heap)@.next_table()
                &&& final(heap)@ == old(heap)@.with_new_table(tuple_table(failure(message@)))
            },
        },
{
    match outcome {
        Ok(results) => {
            heap.tuple_insert(results, 1, Nillable::NonNil(Value::Boolean(true)));
            results
        },
        Err(message) => {
            let ghost text = message@;
            let mut elements: Vec<Nillable> = Vec::new();
            elements.push(Nillable::NonNil(Value::Boolean(false)));
            elements.push(Nillable::NonNil(Value::String(message)));
            proof {
                assert(elements_view(elements@) =~= failure(text));
            }
            new_tuple(heap, elements)
        },
    }
}

/// A protected call that succeeded returns `true` and then the results of
/// the call, as many as there were: after results `(a, b)` it returns
/// `(true, a, b)`.
pub proof fn lemma_pcall_success(results: Seq<Option<Val>>)
    requires
        results.len() < i64::MAX,
    ensures
        tuple_inserted(tuple_of(results), 1, Some(Val::Boolean(true))) == tuple_of(
            seq![Some(Val::Boolean(true))] + results,
        ),
{
    lemma_tuple_inserted(results, 1, Some(Val::Boolean(true)));
    assert(results.insert(0, Some(Val::Boolean(true))) =~= seq![Some(Val::Boolean(true))]
        + results);
}

/// A metatable with an entry `__metatable` is never handed out: for a table
/// with such a metatable, `getmetatable` answers with the entry alone.
pub proof fn lemma_protected_metatable(
    heap: HeapView,
    arguments: Map<Val, Val>,
    table: TableRef,
    metatable: TableRef,
    fake: Val,
)
    requires
        is_tuple(arguments),
        declared_len(arguments)->0 >= 1,
        at(arguments, 1) == Some(Val::Table(table)),
        heap.table(table).metatable == Some(metatable),
        lookup(heap.data(metatable), Val::String("__metatable"@)) == Some(fake),
    ensures
        metatable_answer(heap, arguments) == seq![Some(fake)],
{
    assert(tuple_elements(arguments)[0] == at(arguments, 1));
}

/// A table whose metatable has no entry `__metatable` reports the metatable
/// itself, the very handle that was attached.
pub proof fn lemma_plain_metatable(
    heap: HeapView,
    arguments: Map<Val, Val>,
    table: TableRef,
    metatable: TableRef,
)
    requires
        is_tuple(arguments),
        declared_len(arguments)->0 >= 1,
        at(arguments, 1) == Some(Val::Table(table)),
        heap.table(table).metatable == Some(metatable),
        lookup(heap.data(metatable), Val::String("__metatable"@)) is None,
    ensures
        metatable_answer(heap, arguments) == seq![Some(Val::Table(metatable))],
{
    assert(tuple_elements(arguments)[0] == at(arguments, 1));
}

/// The entries of the table of standard globals behind `globals`: the six
/// built-ins under their names, and the table itself under `_G`.
pub open spec fn standard_entries(globals: TableRef) -> Map<Val, Val> {
    Map::<Val, Val>::empty().insert(
        Val::String("print"@),
        Val::NativeFunction(NativeFunction::Print),
    ).insert(Val::String("type"@), Val::NativeFunction(NativeFunction::Type)).insert(
        Val::String("setmetatable"@),
        Val::NativeFunction(NativeFunction::SetMetatable),
    ).insert(
        Val::String("getmetatable"@),
        Val::NativeFunction(NativeFunction::GetMetatable),
    ).insert(Val::String("pcall"@), Val::NativeFunction(NativeFunction::Pcall)).insert(
        Val::String("error"@),
        Val::NativeFunction(NativeFunction::Error),
    ).insert(Val::String("_G"@), Val::Table(globals))
}

/// Makes the table of standard globals a new table of `heap`: it holds the
/// built-ins under their names and itself under `_G`.
pub fn standard_globals(heap: &mut Heap) -> (globals: TableRef)
    ensures
        globals == old(heap)@.next_table(),
        globals.id == old(heap)@.tables.len(),
        final(heap)@ == old(heap)@.with_new_table(
            TableView { data: standard_entries(globals), metatable: None },
        ),
{
    let ghost before = heap@;
    let mut table = Table::new();
    table.insert(Value::new_string("print"), Value::NativeFunction(NativeFunction::Print));
    table.insert(Value::new_string("type"), Value::NativeFunction(NativeFunction::Type));
    table.insert(
        Value::new_string("setmetatable"),
        Value::NativeFunction(NativeFunction::SetMetatable),
    );
    table.insert(
        Value::new_string("getmetatable"),
        Value::NativeFunction(NativeFunction::GetMetatable),
    );
    table.insert(Value::new_string("pcall"), Value::NativeFunction(NativeFunction::Pcall));
    table.insert(Value::new_string("error"), Value::NativeFunction(NativeFunction::Error));
    let ghost named = table@.data;
    proof {
        assert forall|key: Val| #[trigger] named.contains_key(key) implies heap@.admits(key)
            && heap@.admits(named[key]) by {}
    }
    let globals = heap.new_table(table);
    heap.insert(globals, Value::new_string("_G"), Value::Table(globals));
    proof {
        assert(heap@.tables =~= before.with_new_table(
            TableView { data: standard_entries(globals), metatable: None },
        ).tables);
    }
    globals
}

} // verus!
