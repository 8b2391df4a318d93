//! The dynamic value model: handles to shared objects, the tagged union of
//! runtime values, and the wrapper that makes nil explicit.
//!
//! Tables, closures and promoted closure variables are shared and mutable.
//! They live in a [`Heap`](crate::heap::Heap) and values hold handles to
//! them, so two values denote the same object exactly when their handles are
//! equal.

use vstd::prelude::*;
use vstd::std_specs::cmp::PartialEqSpecImpl;

verus! {

/// Handle to a table that lives in a heap. Equal handles are the same table.
#[derive(Clone, Copy, PartialEq, Eq, Structural, Hash, Debug)]
pub struct TableRef {
    pub id: usize,
}

/// Handle to a closure that lives in a heap. Equal handles are the same
/// closure.
#[derive(Clone, Copy, PartialEq, Eq, Structural, Hash, Debug)]
pub struct FunctionRef {
    pub id: usize,
}

/// Handle to a shared closure variable that lives in a heap.
#[derive(Clone, Copy, PartialEq, Eq, Structural, Hash, Debug)]
pub struct UpValueRef {
    pub id: usize,
}

/// A function implemented by the host. Every native function takes a tuple
/// table of arguments and gives back a tuple table of results or an error
/// message. The built-ins are named; any other host function is known by the
/// number under which the host registered it.
#[derive(Clone, Copy, PartialEq, Eq, Structural, Hash, Debug)]
pub enum NativeFunction {
    Print,
    Type,
    SetMetatable,
    GetMetatable,
    Pcall,
    Error,
    Host(u64),
}

/// A value defined by the host. The library never looks inside one; it only
/// asks for the name of its dynamic type.
pub trait UserData {
    /// Name of the dynamic type of this host value.
    fn type_tag(&self) -> &'static str;
}

/// What a value keeps of a host object: the name of its dynamic type and the
/// number by which the host finds the object again.
#[derive(Clone, Copy, Hash, Debug)]
pub struct HostObject {
    pub type_tag: &'static str,
    pub id: u64,
}

impl HostObject {
    /// The host object of the dynamic type `type_tag` that the host knows as
    /// `id`.
    pub fn named(type_tag: &'static str, id: u64) -> (object: HostObject)
        ensures
            object.type_tag == type_tag,
            object.id == id,
    {
        HostObject { type_tag, id }
    }

    /// Describes the host object `data`, which the host knows as `id`. The
    /// name of the dynamic type is whatever `data` gives for it.
    pub fn new(data: &dyn UserData, id: u64) -> (object: HostObject)
        ensures
            object.id == id,
    {
        HostObject::named(data.type_tag(), id)
    }
}

/// A runtime value. There are no floats and no implicit coercions.
///
/// Equality and hashing go by content for integers, strings and booleans and
/// by identity for tables, closures and native functions. A host value is
/// equal to nothing, itself included.
#[derive(Hash, Debug)]
pub enum Value {
    Integer(i64),
    String(String),
    Boolean(bool),
    Table(TableRef),
    UserData { data: HostObject, meta: Option<TableRef> },
    Function(FunctionRef),
    NativeFunction(NativeFunction),
}

/// What a [`Value`] denotes: the mathematical model that contracts speak of.
pub enum Val {
    Integer(i64),
    String(Seq<char>),
    Boolean(bool),
    Table(TableRef),
    UserData { type_tag: Seq<char>, id: u64, meta: Option<TableRef> },
    Function(FunctionRef),
    NativeFunction(NativeFunction),
}

impl Val {
    /// Name of the dynamic type.
    pub open spec fn type_tag(self) -> Seq<char> {
        match self {
            Val::Integer(_) => "number"@,
            Val::String(_) => "string"@,
            Val::Boolean(_) => "boolean"@,
            Val::Table(_) => "table"@,
            Val::UserData { type_tag, .. } => type_tag,
            Val::Function(_) | Val::NativeFunction(_) => "function"@,
        }
    }

    /// Truthiness of a value that is present: everything but `false` is true.
    pub open spec fn truthy(self) -> bool {
        match self {
            Val::Boolean(b) => b,
            _ => true,
        }
    }

    /// Whether the value is equal to itself and so can be found again when
    /// used as a table key. Host values have no equality.
    pub open spec fn comparable(self) -> bool {
        !(self is UserData)
    }

    /// Value equality: by content for integers, strings and booleans, by
    /// identity for tables, closures and native functions. A host value is
    /// equal to nothing.
    pub open spec fn equals(self, other: Val) -> bool {
        self.comparable() && self == other
    }
}

/// Name of the dynamic type of a value that may be nil.
pub open spec fn type_tag_of(v: Option<Val>) -> Seq<char> {
    match v {
        Some(v) => v.type_tag(),
        None => "nil"@,
    }
}

/// Truthiness of a value that may be nil: nil and `false` are false.
pub open spec fn truthy_of(v: Option<Val>) -> bool {
    match v {
        Some(v) => v.truthy(),
        None => false,
    }
}

impl View for Value {
    type V = Val;

    open spec fn view(&self) -> Val {
        match self {
            Value::Integer(i) => Val::Integer(*i),
            Value::String(s) => Val::String(s@),
            Value::Boolean(b) => Val::Boolean(*b),
            Value::Table(t) => Val::Table(*t),
            Value::UserData { data, meta } => Val::UserData {
                type_tag: data.type_tag@,
                id: data.id,
                meta: *meta,
            },
            Value::Function(f) => Val::Function(*f),
            Value::NativeFunction(f) => Val::NativeFunction(*f),
        }
    }
}

/// The model of an optional value.
pub open spec fn view_of(v: Option<Value>) -> Option<Val> {
    match v {
        Some(v) => Some(v@),
        None => None,
    }
}

/// The models of a sequence of values that may be nil.
pub open spec fn elements_view(s: Seq<Nillable>) -> Seq<Option<Val>> {
    Seq::new(s.len(), |i: int| s[i]@)
}

impl Value {
    /// The string value that holds a copy of `string`.
    pub fn new_string(string: &str) -> (value: Value)
        ensures
            value@ == Val::String(string@),
    {
        Value::String(string.to_owned())
    }

    /// Name of the dynamic type: `"number"`, `"string"`, `"boolean"`,
    /// `"table"`, `"function"`, or what the host says of its own value.
    pub fn type_tag(&self) -> (name: &'static str)
        ensures
            name@ == self@.type_tag(),
    {
        match self {
            Value::Integer(_) => "number",
            Value::String(_) => "string",
            Value::Boolean(_) => "boolean",
            Value::Table(_) => "table",
            Value::UserData { data, .. } => data.type_tag,
            Value::Function(_) | Value::NativeFunction(_) => "function",
        }
    }

    /// Coerces this value to a bool: a boolean is itself, anything else is
    /// true.
    pub fn coerce_to_bool(&self) -> (b: bool)
        ensures
            b == self@.truthy(),
    {
        match self {
            Value::Boolean(value) => *value,
            _ => true,
        }
    }

    /// Like `coerce_to_bool`, but wraps the result in a value.
    pub fn coerce_to_boolean(&self) -> (value: Value)
        ensures
            value@ == Val::Boolean(self@.truthy()),
    {
        Value::Boolean(self.coerce_to_bool())
    }

    /// The integer, if the value is one.
    pub fn integer(&self) -> (result: Option<i64>)
        ensures
            result == (match self@ {
                Val::Integer(i) => Some(i),
                _ => None,
            }),
    {
        match self {
            Value::Integer(integer) => Some(*integer),
            _ => None,
        }
    }

    /// The string, if the value is one.
    pub fn string(&self) -> (result: Option<&str>)
        ensures
            match self@ {
                Val::String(s) => result is Some && result->0@ == s,
                _ => result is None,
            },
    {
        match self {
            Value::String(string) => Some(string.as_str()),
            _ => None,
        }
    }

    /// The boolean, if the value is one.
    pub fn boolean(&self) -> (result: Option<bool>)
        ensures
            result == (match self@ {
                Val::Boolean(b) => Some(b),
                _ => None,
            }),
    {
        match self {
            Value::Boolean(boolean) => Some(*boolean),
            _ => None,
        }
    }

    /// The handle of the table, if the value is one.
    pub fn table(&self) -> (result: Option<TableRef>)
        ensures
            result == (match self@ {
                Val::Table(t) => Some(t),
                _ => None,
            }),
    {
        match self {
            Value::Table(table) => Some(*table),
            _ => None,
        }
    }

    /// The handle of the closure, if the value is one. A native function
    /// is no closure.
    pub fn function(&self) -> (result: Option<FunctionRef>)
        ensures
            result == (match self@ {
                Val::Function(f) => Some(f),
                _ => None,
            }),
    {
        match self {
            Value::Function(function) => Some(*function),
            _ => None,
        }
    }
}

impl Clone for Value {
    fn clone(&self) -> (copy: Self)
        ensures
            copy == *self,
    {
        match self {
            Value::Integer(i) => Value::Integer(*i),
            Value::String(s) => Value::String(s.clone()),
            Value::Boolean(b) => Value::Boolean(*b),
            Value::Table(t) => Value::Table(*t),
            Value::UserData { data, meta } => Value::UserData { data: *data, meta: *meta },
            Value::Function(f) => Value::Function(*f),
            Value::NativeFunction(f) => Value::NativeFunction(*f),
        }
    }
}

impl PartialEq for Value {
    fn eq(&self, other: &Self) -> (equal: bool)
    {
        match (self, other) {
            (Value::Integer(a), Value::Integer(b)) => *a == *b,
            (Value::String(a), Value::String(b)) => *a == *b,
            (Value::Boolean(a), Value::Boolean(b)) => *a == *b,
            (Value::Function(a), Value::Function(b)) => *a == *b,
            (Value::Table(a), Value::Table(b)) => *a == *b,
            (Value::NativeFunction(a), Value::NativeFunction(b)) => *a == *b,
            _ => false,
        }
    }
}

impl Eq for Value {

}

impl PartialEqSpecImpl for Value {
    open spec fn obeys_eq_spec() -> bool {
        true
    }

    open spec fn eq_spec(&self, other: &Self) -> bool {
        self@.equals(other@)
    }
}

/// A value that may be nil. A table never stores nil: an absent entry reads
/// as `Nil`, and every read of a table goes through this type.
#[derive(Hash, Debug)]
pub enum Nillable {
    /// The value is not nil.
    NonNil(Value),
    /// The value is nil.
    Nil,
}

impl View for Nillable {
    type V = Option<Val>;

    open spec fn view(&self) -> Option<Val> {
        match self {
            Nillable::NonNil(v) => Some(v@),
            Nillable::Nil => None,
        }
    }
}

impl Nillable {
    /// Name of the dynamic type; `"nil"` for nil.
    pub fn type_tag(&self) -> (name: &'static str)
        ensures
            name@ == type_tag_of(self@),
    {
        match self {
            Nillable::NonNil(value) => value.type_tag(),
            Nillable::Nil => "nil",
        }
    }

    /// The value, or `None` for nil.
    pub fn option(self) -> (result: Option<Value>)
        ensures
            result == (match self {
                Nillable::NonNil(v) => Some(v),
                Nillable::Nil => None,
            }),
    {
        match self {
            Nillable::NonNil(value) => Some(value),
            Nillable::Nil => None,
        }
    }

    /// Like `Value::coerce_to_bool`, but nil is false too.
    pub fn coerce_to_bool(&self) -> (b: bool)
        ensures
            b == truthy_of(self@),
    {
        match self {
            Nillable::NonNil(value) => value.coerce_to_bool(),
            Nillable::Nil => false,
        }
    }

    /// Like `coerce_to_bool`, but wraps the result in a value.
    pub fn coerce_to_boolean(&self) -> (value: Value)
        ensures
            value@ == Val::Boolean(truthy_of(self@)),
    {
        Value::Boolean(self.coerce_to_bool())
    }

    /// Whether the value is nil.
    pub fn is_nil(&self) -> (b: bool)
        ensures
            b == (self@ is None),
    {
        match self {
            Nillable::Nil => true,
            Nillable::NonNil(_) => false,
        }
    }

    /// Whether the value is not nil.
    pub fn is_non_nil(&self) -> (b: bool)
        ensures
            b == (self@ is Some),
    {
        match self {
            Nillable::NonNil(_) => true,
            Nillable::Nil => false,
        }
    }
}

impl Clone for Nillable {
    fn clone(&self) -> (copy: Self)
        ensures
            copy == *self,
    {
        match self {
            Nillable::NonNil(v) => Nillable::NonNil(v.clone()),
            Nillable::Nil => Nillable::Nil,
        }
    }
}

impl PartialEq for Nillable {
    fn eq(&self, other: &Self) -> (equal: bool)
    {
        match (self, other) {
            (Nillable::NonNil(a), Nillable::NonNil(b)) => *a == *b,
            (Nillable::Nil, Nillable::Nil) => true,
            _ => false,
        }
    }
}

impl Eq for Nillable {

}

impl PartialEqSpecImpl for Nillable {
    open spec fn obeys_eq_spec() -> bool {
        true
    }

    open spec fn eq_spec(&self, other: &Self) -> bool {
        match (self@, other@) {
            (Some(a), Some(b)) => a.equals(b),
            (None, None) => true,
            _ => false,
        }
    }
}

impl Default for Nillable {
    fn default() -> (nil: Self)
        ensures
            nil == Nillable::Nil,
    {
        Nillable::Nil
    }
}

} // verus!
