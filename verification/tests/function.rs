use hematita_da_lua::function::{Chunk, Function, MaybeUpValue};
use hematita_da_lua::heap::Heap;
use hematita_da_lua::table::Table;
use hematita_da_lua::value::{Nillable, UpValueRef, Value};

fn number(i: i64) -> Nillable {
    Nillable::NonNil(Value::Integer(i))
}

fn same(a: &Nillable, b: &Nillable) -> bool {
    match (a, b) {
        (Nillable::NonNil(a), Nillable::NonNil(b)) => a == b,
        (Nillable::Nil, Nillable::Nil) => true,
        _ => false,
    }
}

fn is_shared(slot: &MaybeUpValue) -> bool {
    matches!(slot, MaybeUpValue::UpValue(_))
}

#[test]
fn default_slot_is_private_and_nil() {
    let heap = Heap::new();
    let slot = MaybeUpValue::default();
    assert!(!is_shared(&slot));
    assert!(slot.get(&heap).is_nil());
}

#[test]
fn promotion_moves_the_value_to_a_shared_variable() {
    let mut heap = Heap::new();
    let mut slot = MaybeUpValue::Normal(number(5));
    let handle = slot.up_value(&mut heap);
    assert!(is_shared(&slot));
    assert!(matches!(slot, MaybeUpValue::UpValue(shared) if shared == handle));
    assert!(same(&heap.up_value(handle), &number(5)));
    assert!(same(&slot.get(&heap), &number(5)));
}

#[test]
fn promotion_happens_once() {
    let mut heap = Heap::new();
    let mut slot = MaybeUpValue::Normal(number(5));
    let first = slot.up_value(&mut heap);
    heap.set_up_value(first, number(6));
    let second = slot.up_value(&mut heap);
    assert_eq!(first, second);
    assert!(same(&heap.up_value(second), &number(6)));
    let other = heap.new_up_value(Nillable::Nil);
    assert_eq!(other, UpValueRef { id: 1 });
}

#[test]
fn closures_that_share_a_slot_see_each_others_writes() {
    let mut heap = Heap::new();
    let mut outer = MaybeUpValue::Normal(number(1));
    let shared = outer.up_value(&mut heap);
    let mut inner = MaybeUpValue::UpValue(shared);
    inner.set(&mut heap, number(2));
    assert!(same(&outer.get(&heap), &number(2)));
    outer.set(&mut heap, number(3));
    assert!(same(&inner.get(&heap), &number(3)));
    assert!(is_shared(&outer));
    assert!(is_shared(&inner));
}

#[test]
fn closures_share_through_their_captured_variables() {
    let mut heap = Heap::new();
    let mut slot = MaybeUpValue::Normal(number(1));
    let shared = slot.up_value(&mut heap);
    let first = Function { up_values: vec![shared], chunk: Chunk { id: 1 } }.arc(&mut heap);
    let second = Function { up_values: vec![shared], chunk: Chunk { id: 2 } }.arc(&mut heap);
    assert_ne!(first, second);
    let written = heap.function(first).up_values[0];
    heap.set_up_value(written, number(9));
    let read = heap.function(second).up_values[0];
    assert!(same(&heap.up_value(read), &number(9)));
}

#[test]
fn separate_slots_do_not_share() {
    let mut heap = Heap::new();
    let mut first = MaybeUpValue::Normal(number(1));
    let mut second = MaybeUpValue::Normal(number(1));
    let a = first.up_value(&mut heap);
    let b = second.up_value(&mut heap);
    assert_ne!(a, b);
    first.set(&mut heap, number(2));
    assert!(same(&second.get(&heap), &number(1)));
}

#[test]
fn private_slot_is_never_promoted_by_reads_and_writes() {
    let mut heap = Heap::new();
    let mut slot = MaybeUpValue::Normal(number(1));
    assert!(same(&slot.get(&heap), &number(1)));
    slot.set(&mut heap, number(2));
    assert!(same(&slot.get(&heap), &number(2)));
    slot.set(&mut heap, Nillable::Nil);
    assert!(slot.get(&heap).is_nil());
    assert!(!is_shared(&slot));
    assert!(!heap.has_up_value(UpValueRef { id: 0 }));
}

#[test]
fn function_of_a_chunk_captures_nothing() {
    let function = Function::new(Chunk { id: 3 });
    assert!(function.up_values.is_empty());
    assert_eq!(function.chunk, Chunk { id: 3 });
}

#[test]
fn functions_get_handles_of_their_own() {
    let mut heap = Heap::new();
    let first = Function::new(Chunk { id: 1 }).arc(&mut heap);
    let second = Function::new(Chunk { id: 1 }).arc(&mut heap);
    assert_ne!(first, second);
    assert!(Value::Function(first) != Value::Function(second));
    assert!(Value::Function(first) == Value::Function(first));
    assert_eq!(heap.function(second).chunk, Chunk { id: 1 });
    assert!(heap.has_function(first));
}

#[test]
fn heap_operations_reach_the_table_behind_the_handle() {
    let mut heap = Heap::new();
    let first = Table::new().arc(&mut heap);
    let second = Table::new().arc(&mut heap);
    heap.array_insert(first, 1, number(1));
    heap.array_insert(first, 1, number(0));
    heap.array_push(first, number(5));
    assert_eq!(heap.table(first).array_len(), 3);
    assert!(same(&heap.table(first).index(&Value::Integer(1)), &number(0)));
    assert!(same(&heap.table(first).index(&Value::Integer(2)), &number(5)));
    assert!(same(&heap.table(first).index(&Value::Integer(3)), &number(1)));
    assert_eq!(heap.table(second).array_len(), 0);
    let removed = heap.array_remove(first, 1);
    assert!(same(&removed, &number(0)));
    assert!(same(&heap.table(first).index(&Value::Integer(1)), &number(5)));
    assert!(heap.remove(first, &Value::Integer(1)) == Some(Value::Integer(5)));
    assert!(heap.insert(second, Value::new_string("k"), Value::Table(first)).is_none());
    assert!(heap.table(second).index(&Value::new_string("k")).option() == Some(Value::Table(first)));
}

#[test]
fn heap_knows_its_handles() {
    let mut heap = Heap::new();
    let first = Table::new().arc(&mut heap);
    assert!(heap.has_table(first));
    assert!(!heap.has_table(hematita_da_lua::value::TableRef { id: 1 }));
    assert!(heap.admits(&Value::Table(first)));
    assert!(!heap.admits(&Value::Table(hematita_da_lua::value::TableRef { id: 1 })));
    assert!(heap.admits(&Value::Integer(1)));
    assert!(!heap.admits(&Value::Function(hematita_da_lua::value::FunctionRef { id: 0 })));
}

#[test]
fn heap_tuple_insert_changes_the_shared_table() {
    let mut heap = Heap::new();
    let tuple = Table::tuple(vec![number(1)]).arc(&mut heap);
    heap.tuple_insert(tuple, 1, number(0));
    assert_eq!(heap.table(tuple).tuple_len(), 2);
    assert!(same(&heap.table(tuple).index(&Value::Integer(1)), &number(0)));
    assert!(same(&heap.table(tuple).index(&Value::Integer(2)), &number(1)));
}
