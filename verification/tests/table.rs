use hematita_da_lua::table::Table;
use hematita_da_lua::value::{HostObject, Nillable, Value};

fn num(i: i64) -> Nillable {
    Nillable::NonNil(Value::Integer(i))
}

fn text(s: &str) -> Nillable {
    Nillable::NonNil(Value::new_string(s))
}

fn at(table: &Table, key: i64) -> Nillable {
    table.index(&Value::Integer(key))
}

fn same(a: &Nillable, b: &Nillable) -> bool {
    match (a, b) {
        (Nillable::NonNil(a), Nillable::NonNil(b)) => a == b,
        (Nillable::Nil, Nillable::Nil) => true,
        _ => false,
    }
}

fn holds(table: &Table, key: i64, expected: Nillable) -> bool {
    same(&at(table, key), &expected)
}

#[test]
fn new_table_is_empty() {
    let table = Table::new();
    assert!(at(&table, 1).is_nil());
    assert_eq!(table.array_len(), 0);
    assert!(table.metatable().is_none());
    assert!(!table.is_tuple());
}

#[test]
fn index_of_absent_key_is_nil() {
    let mut table = Table::new();
    table.insert(Value::new_string("name"), Value::Integer(1));
    assert!(table.index(&Value::new_string("other")).is_nil());
    assert!(same(&table.index(&Value::new_string("name")), &num(1)));
}

#[test]
fn insert_returns_previous_value() {
    let mut table = Table::new();
    assert!(table.insert(Value::Integer(1), Value::Integer(10)).is_none());
    let previous = table.insert(Value::Integer(1), Value::Integer(20));
    assert!(previous == Some(Value::Integer(10)));
    assert!(holds(&table, 1, num(20)));
}

#[test]
fn remove_returns_previous_value() {
    let mut table = Table::new();
    table.insert(Value::Boolean(true), Value::new_string("yes"));
    let previous = table.remove(&Value::Boolean(true));
    assert!(previous == Some(Value::new_string("yes")));
    assert!(table.remove(&Value::Boolean(true)).is_none());
    assert!(table.index(&Value::Boolean(true)).is_nil());
}

#[test]
fn remove_keeps_other_entries() {
    let mut table = Table::new();
    table.insert(Value::Integer(1), Value::Integer(10));
    table.insert(Value::Integer(2), Value::Integer(20));
    table.insert(Value::Integer(3), Value::Integer(30));
    table.remove(&Value::Integer(1));
    assert!(holds(&table, 1, Nillable::Nil));
    assert!(holds(&table, 2, num(20)));
    assert!(holds(&table, 3, num(30)));
}

#[test]
fn host_value_is_never_a_key() {
    let mut table = Table::new();
    let key = Value::UserData { data: HostObject { type_tag: "widget", id: 1 }, meta: None };
    assert!(table.insert(key.clone(), Value::Integer(1)).is_none());
    assert!(table.index(&key).is_nil());
    assert!(table.insert(key.clone(), Value::Integer(2)).is_none());
    assert!(table.remove(&key).is_none());
}

#[test]
fn array_insert_shifts_up() {
    let mut table = Table::array(vec![text("a"), text("b")]);
    table.array_insert(1, text("x"));
    assert!(holds(&table, 1, text("x")));
    assert!(holds(&table, 2, text("a")));
    assert!(holds(&table, 3, text("b")));
    assert!(holds(&table, 4, Nillable::Nil));
    assert_eq!(table.array_len(), 3);
}

#[test]
fn array_insert_in_the_middle() {
    let mut table = Table::array(vec![num(1), num(2), num(3)]);
    table.array_insert(2, num(9));
    assert!(holds(&table, 1, num(1)));
    assert!(holds(&table, 2, num(9)));
    assert!(holds(&table, 3, num(2)));
    assert!(holds(&table, 4, num(3)));
    assert_eq!(table.array_len(), 4);
}

#[test]
fn array_insert_one_past_the_end_appends() {
    let mut table = Table::array(vec![num(1), num(2)]);
    table.array_insert(3, num(3));
    assert!(holds(&table, 3, num(3)));
    assert_eq!(table.array_len(), 3);
}

#[test]
fn array_insert_into_empty_table() {
    let mut table = Table::new();
    table.array_insert(1, num(5));
    assert!(holds(&table, 1, num(5)));
    assert_eq!(table.array_len(), 1);
    let mut other = Table::new();
    other.array_insert(2, num(5));
    assert!(holds(&other, 2, num(5)));
    assert_eq!(other.array_len(), 2);
}

#[test]
fn array_insert_far_past_the_end_changes_nothing() {
    let mut table = Table::array(vec![num(1), num(2)]);
    table.array_insert(4, num(9));
    assert!(holds(&table, 4, Nillable::Nil));
    assert!(holds(&table, 1, num(1)));
    assert!(holds(&table, 2, num(2)));
    assert_eq!(table.array_len(), 2);
    let mut empty = Table::new();
    empty.array_insert(3, num(9));
    assert_eq!(empty.array_len(), 0);
}

#[test]
fn array_insert_of_nil_leaves_the_position_empty() {
    let mut table = Table::array(vec![num(1), num(2)]);
    table.array_insert(1, Nillable::Nil);
    assert!(holds(&table, 1, Nillable::Nil));
    assert!(holds(&table, 2, num(1)));
    assert!(holds(&table, 3, num(2)));
    assert_eq!(table.array_len(), 3);
}

#[test]
fn array_insert_leaves_other_keys_alone() {
    let mut table = Table::array(vec![num(1)]);
    table.insert(Value::new_string("name"), Value::Integer(7));
    table.insert(Value::Integer(-3), Value::Integer(8));
    table.array_insert(1, num(0));
    assert!(same(&table.index(&Value::new_string("name")), &num(7)));
    assert!(holds(&table, -3, num(8)));
    assert!(holds(&table, 1, num(0)));
    assert!(holds(&table, 2, num(1)));
}

#[test]
fn array_insert_at_negative_index_moves_every_position_above() {
    let mut table = Table::new();
    table.insert(Value::Integer(-1), Value::Integer(10));
    table.insert(Value::Integer(0), Value::Integer(20));
    table.insert(Value::Integer(1), Value::Integer(30));
    table.array_insert(-1, num(5));
    assert!(holds(&table, -1, num(5)));
    assert!(holds(&table, 0, num(10)));
    assert!(holds(&table, 1, num(20)));
    assert!(holds(&table, 2, num(30)));
}

#[test]
fn array_remove_shifts_down() {
    let mut table = Table::array(vec![text("a"), text("b"), text("c")]);
    let removed = table.array_remove(1);
    assert!(same(&removed, &text("a")));
    assert!(holds(&table, 1, text("b")));
    assert!(holds(&table, 2, text("c")));
    assert!(holds(&table, 3, Nillable::Nil));
    assert_eq!(table.array_len(), 2);
}

#[test]
fn array_remove_of_last_position() {
    let mut table = Table::array(vec![num(1), num(2)]);
    let removed = table.array_remove(2);
    assert!(same(&removed, &num(2)));
    assert!(holds(&table, 1, num(1)));
    assert_eq!(table.array_len(), 1);
}

#[test]
fn array_remove_of_empty_position_returns_nil() {
    let mut table = Table::array(vec![num(1), Nillable::Nil, num(3)]);
    let removed = table.array_remove(2);
    assert!(removed.is_nil());
    assert!(holds(&table, 1, num(1)));
    assert!(holds(&table, 2, num(3)));
    assert!(holds(&table, 3, Nillable::Nil));
}

#[test]
fn array_remove_past_the_end_changes_nothing() {
    let mut table = Table::array(vec![num(1), num(2)]);
    let removed = table.array_remove(3);
    assert!(removed.is_nil());
    assert!(holds(&table, 1, num(1)));
    assert!(holds(&table, 2, num(2)));
    assert_eq!(table.array_len(), 2);
    let mut empty = Table::new();
    assert!(empty.array_remove(1).is_nil());
}

#[test]
fn insert_then_remove_restores_the_array() {
    for index in -2..=6 {
        let mut table = Table::array(vec![num(10), num(20), Nillable::Nil, num(40)]);
        table.insert(Value::new_string("name"), Value::Integer(7));
        table.array_insert(index, text("x"));
        let removed = table.array_remove(index);
        if index <= 5 {
            assert!(same(&removed, &text("x")));
        } else {
            assert!(removed.is_nil());
        }
        assert!(holds(&table, 1, num(10)));
        assert!(holds(&table, 2, num(20)));
        assert!(holds(&table, 3, Nillable::Nil));
        assert!(holds(&table, 4, num(40)));
        assert!(holds(&table, 5, Nillable::Nil));
        assert!(holds(&table, 6, Nillable::Nil));
        assert!(holds(&table, 0, Nillable::Nil));
        assert!(holds(&table, -1, Nillable::Nil));
        assert!(same(&table.index(&Value::new_string("name")), &num(7)));
        assert_eq!(table.array_len(), 4);
    }
}

#[test]
fn insert_then_remove_restores_the_array_for_nil() {
    let mut table = Table::array(vec![num(10), num(20)]);
    table.array_insert(1, Nillable::Nil);
    let removed = table.array_remove(1);
    assert!(removed.is_nil());
    assert!(holds(&table, 1, num(10)));
    assert!(holds(&table, 2, num(20)));
    assert_eq!(table.array_len(), 2);
}

#[test]
fn array_push_inserts_at_the_last_position() {
    let mut table = Table::array(vec![text("a"), text("b")]);
    table.array_push(text("x"));
    assert!(holds(&table, 1, text("a")));
    assert!(holds(&table, 2, text("x")));
    assert!(holds(&table, 3, text("b")));
    assert_eq!(table.array_len(), 3);
}

#[test]
fn array_push_on_empty_table_fills_key_zero() {
    let mut table = Table::new();
    table.array_push(num(5));
    assert!(holds(&table, 0, num(5)));
    assert!(holds(&table, 1, Nillable::Nil));
    assert_eq!(table.array_len(), 0);
}

#[test]
fn array_len_is_the_highest_integer_key() {
    let mut table = Table::new();
    table.insert(Value::Integer(7), Value::Boolean(true));
    assert_eq!(table.array_len(), 7);
    table.insert(Value::Integer(3), Value::Boolean(true));
    assert_eq!(table.array_len(), 7);
    table.insert(Value::new_string("9"), Value::Boolean(true));
    assert_eq!(table.array_len(), 7);
}

#[test]
fn array_len_ignores_keys_below_one() {
    let mut table = Table::new();
    table.insert(Value::Integer(0), Value::Integer(3));
    table.insert(Value::Integer(-5), Value::Integer(3));
    assert_eq!(table.array_len(), 0);
}

#[test]
fn array_len_is_not_the_tuple_length() {
    let table = Table::tuple(vec![num(1), Nillable::Nil, Nillable::Nil]);
    assert_eq!(table.tuple_len(), 3);
    assert_eq!(table.array_len(), 1);
}

#[test]
fn array_is_empty_is_true_when_an_integer_key_exists() {
    let mut table = Table::new();
    assert!(!table.array_is_empty());
    table.insert(Value::new_string("name"), Value::Integer(1));
    assert!(!table.array_is_empty());
    table.insert(Value::Integer(-4), Value::Integer(1));
    assert!(table.array_is_empty());
    let array = Table::array(vec![num(1)]);
    assert!(array.array_is_empty());
}

#[test]
fn tuple_records_its_length_at_key_zero() {
    let table = Table::tuple(vec![text("a"), Nillable::Nil, num(3)]);
    assert!(table.is_tuple());
    assert_eq!(table.tuple_len(), 3);
    assert!(holds(&table, 0, num(3)));
    assert!(holds(&table, 1, text("a")));
    assert!(holds(&table, 2, Nillable::Nil));
    assert!(holds(&table, 3, num(3)));
}

#[test]
fn empty_tuple_has_length_zero() {
    let table = Table::tuple(vec![]);
    assert!(table.is_tuple());
    assert_eq!(table.tuple_len(), 0);
    assert!(holds(&table, 0, num(0)));
}

#[test]
fn tuple_of_every_small_length_declares_it() {
    for n in 0..20 {
        let mut elements = Vec::new();
        for i in 0..n {
            elements.push(num(i));
        }
        let table = Table::tuple(elements);
        assert_eq!(table.tuple_len(), n);
        assert!(holds(&table, 0, num(n)));
    }
}

#[test]
fn array_has_no_length_entry() {
    let table = Table::array(vec![num(1), num(2)]);
    assert!(!table.is_tuple());
    assert!(holds(&table, 0, Nillable::Nil));
    assert!(holds(&table, 1, num(1)));
    assert!(holds(&table, 2, num(2)));
}

#[test]
fn is_tuple_needs_an_integer_at_key_zero() {
    let mut table = Table::new();
    table.insert(Value::Integer(0), Value::new_string("3"));
    assert!(!table.is_tuple());
    table.insert(Value::Integer(0), Value::Integer(3));
    assert!(table.is_tuple());
}

#[test]
fn tuple_insert_grows_the_length_and_shifts() {
    let mut table = Table::tuple(vec![text("a"), text("b")]);
    table.tuple_insert(1, Nillable::NonNil(Value::Boolean(true)));
    assert_eq!(table.tuple_len(), 3);
    assert!(holds(&table, 1, Nillable::NonNil(Value::Boolean(true))));
    assert!(holds(&table, 2, text("a")));
    assert!(holds(&table, 3, text("b")));
}

#[test]
fn tuple_insert_keeps_trailing_nil() {
    let mut table = Table::tuple(vec![text("a"), Nillable::Nil]);
    table.tuple_insert(1, num(0));
    assert_eq!(table.tuple_len(), 3);
    assert!(holds(&table, 1, num(0)));
    assert!(holds(&table, 2, text("a")));
    assert!(holds(&table, 3, Nillable::Nil));
}

#[test]
fn tuple_insert_into_empty_tuple() {
    let mut table = Table::tuple(vec![]);
    table.tuple_insert(1, num(7));
    assert_eq!(table.tuple_len(), 1);
    assert!(holds(&table, 1, num(7)));
}

#[test]
fn tuple_insert_at_the_end() {
    let mut table = Table::tuple(vec![num(1), num(2)]);
    table.tuple_insert(3, num(3));
    assert_eq!(table.tuple_len(), 3);
    assert!(holds(&table, 3, num(3)));
    assert!(holds(&table, 2, num(2)));
}

#[test]
fn set_metatable_replaces_the_metatable() {
    let mut heap = hematita_da_lua::heap::Heap::new();
    let first = Table::new().arc(&mut heap);
    let second = Table::new().arc(&mut heap);
    let mut table = Table::array(vec![num(1)]);
    table.set_metatable(Some(first));
    assert!(table.metatable() == Some(first));
    table.set_metatable(Some(second));
    assert!(table.metatable() == Some(second));
    table.set_metatable(None);
    assert!(table.metatable().is_none());
    assert!(holds(&table, 1, num(1)));
}

#[test]
fn default_table_is_empty() {
    let table = Table::default();
    assert_eq!(table.array_len(), 0);
    assert!(!table.array_is_empty());
}
