//! Conversions between plain values, [`Value`] and [`Nillable`]. Each one is
//! total and keeps what it is given.

use vstd::prelude::*;
use vstd::std_specs::convert::FromSpecImpl;
use crate::value::{Nillable, TableRef, Val, Value, view_of};

verus! {

impl From<i64> for Value {
    fn from(value: i64) -> (result: Value)
    {
        Value::Integer(value)
    }
}

impl FromSpecImpl<i64> for Value {
    open spec fn obeys_from_spec() -> bool {
        true
    }

    open spec fn from_spec(value: i64) -> Value {
        Value::Integer(value)
    }
}

impl From<String> for Value {
    fn from(value: String) -> (result: Value)
    {
        Value::String(value)
    }
}

impl FromSpecImpl<String> for Value {
    open spec fn obeys_from_spec() -> bool {
        true
    }

    open spec fn from_spec(value: String) -> Value {
        Value::String(value)
    }
}

impl From<bool> for Value {
    fn from(value: bool) -> (result: Value)
    {
        Value::Boolean(value)
    }
}

impl FromSpecImpl<bool> for Value {
    open spec fn obeys_from_spec() -> bool {
        true
    }

    open spec fn from_spec(value: bool) -> Value {
        Value::Boolean(value)
    }
}

impl From<TableRef> for Value {
    fn from(value: TableRef) -> (result: Value)
    {
        Value::Table(value)
    }
}

impl FromSpecImpl<TableRef> for Value {
    open spec fn obeys_from_spec() -> bool {
        true
    }

    open spec fn from_spec(value: TableRef) -> Value {
        Value::Table(value)
    }
}

impl From<Option<Value>> for Nillable {
    fn from(value: Option<Value>) -> (result: Nillable)
    {
        match value {
            Some(value) => Nillable::NonNil(value),
            None => Nillable::Nil,
        }
    }
}

impl FromSpecImpl<Option<Value>> for Nillable {
    open spec fn obeys_from_spec() -> bool {
        true
    }

    open spec fn from_spec(value: Option<Value>) -> Nillable {
        match value {
            Some(value) => Nillable::NonNil(value),
            None => Nillable::Nil,
        }
    }
}

impl From<Value> for Nillable {
    fn from(value: Value) -> (result: Nillable)
    {
        Nillable::NonNil(value)
    }
}

impl FromSpecImpl<Value> for Nillable {
    open spec fn obeys_from_spec() -> bool {
        true
    }

    open spec fn from_spec(value: Value) -> Nillable {
        Nillable::NonNil(value)
    }
}

impl From<i64> for Nillable {
    fn from(value: i64) -> (result: Nillable)
    {
        Nillable::NonNil(Value::Integer(value))
    }
}

impl FromSpecImpl<i64> for Nillable {
    open spec fn obeys_from_spec() -> bool {
        true
    }

    open spec fn from_spec(value: i64) -> Nillable {
        Nillable::NonNil(Value::Integer(value))
    }
}

impl From<String> for Nillable {
    fn from(value: String) -> (result: Nillable)
    {
        Nillable::NonNil(Value::String(value))
    }
}

impl FromSpecImpl<String> for Nillable {
    open spec fn obeys_from_spec() -> bool {
        true
    }

    open spec fn from_spec(value: String) -> Nillable {
        Nillable::NonNil(Value::String(value))
    }
}

impl From<bool> for Nillable {
    fn from(value: bool) -> (result: Nillable)
    {
        Nillable::NonNil(Value::Boolean(value))
    }
}

impl FromSpecImpl<bool> for Nillable {
    open spec fn obeys_from_spec() -> bool {
        true
    }

    open spec fn from_spec(value: bool) -> Nillable {
        Nillable::NonNil(Value::Boolean(value))
    }
}

impl From<TableRef> for Nillable {
    fn from(value: TableRef) -> (result: Nillable)
    {
        Nillable::NonNil(Value::Table(value))
    }
}

impl FromSpecImpl<TableRef> for Nillable {
    open spec fn obeys_from_spec() -> bool {
        true
    }

    open spec fn from_spec(value: TableRef) -> Nillable {
        Nillable::NonNil(Value::Table(value))
    }
}

impl From<()> for Nillable {
    fn from(value: ()) -> (result: Nillable)
    {
        Nillable::Nil
    }
}

impl FromSpecImpl<()> for Nillable {
    open spec fn obeys_from_spec() -> bool {
        true
    }

    open spec fn from_spec(value: ()) -> Nillable {
        Nillable::Nil
    }
}

impl From<Nillable> for Option<Value> {
    fn from(nillable: Nillable) -> (result: Option<Value>)
    {
        match nillable {
            Nillable::NonNil(value) => Some(value),
            Nillable::Nil => None,
        }
    }
}

impl FromSpecImpl<Nillable> for Option<Value> {
    open spec fn obeys_from_spec() -> bool {
        true
    }

    open spec fn from_spec(nillable: Nillable) -> Option<Value> {
        match nillable {
            Nillable::NonNil(value) => Some(value),
            Nillable::Nil => None,
        }
    }
}

/// What can be turned into a value that may be nil.
pub trait IntoNillable: Sized {
    /// What `nillable` makes of `self`.
    spec fn nillable_view(self) -> Option<Val>;

    fn nillable(self) -> (nillable: Nillable)
        ensures
            nillable@ == self.nillable_view(),
    ;
}

impl IntoNillable for Option<Value> {
    open spec fn nillable_view(self) -> Option<Val> {
        view_of(self)
    }

    fn nillable(self) -> (nillable: Nillable) {
        match self {
            Some(value) => Nillable::NonNil(value),
            None => Nillable::Nil,
        }
    }
}

impl<'r> IntoNillable for Option<&'r Value> {
    open spec fn nillable_view(self) -> Option<Val> {
        match self {
            Some(value) => Some(value@),
            None => None,
        }
    }

    fn nillable(self) -> (nillable: Nillable) {
        match self {
            Some(value) => Nillable::NonNil(value.clone()),
            None => Nillable::Nil,
        }
    }
}

impl IntoNillable for Nillable {
    open spec fn nillable_view(self) -> Option<Val> {
        self@
    }

    fn nillable(self) -> (nillable: Nillable) {
        self
    }
}

impl IntoNillable for Value {
    open spec fn nillable_view(self) -> Option<Val> {
        Some(self@)
    }

    fn nillable(self) -> (nillable: Nillable) {
        Nillable::NonNil(self)
    }
}

impl IntoNillable for i64 {
    open spec fn nillable_view(self) -> Option<Val> {
        Some(Val::Integer(self))
    }

    fn nillable(self) -> (nillable: Nillable) {
        Nillable::NonNil(Value::Integer(self))
    }
}

impl<'r> IntoNillable for &'r str {
    open spec fn nillable_view(self) -> Option<Val> {
        Some(Val::String(self@))
    }

    fn nillable(self) -> (nillable: Nillable) {
        Nillable::NonNil(Value::new_string(self))
    }
}

impl IntoNillable for String {
    open spec fn nillable_view(self) -> Option<Val> {
        Some(Val::String(self@))
    }

    fn nillable(self) -> (nillable: Nillable) {
        Nillable::NonNil(Value::String(self))
    }
}

impl IntoNillable for bool {
    open spec fn nillable_view(self) -> Option<Val> {
        Some(Val::Boolean(self))
    }

    fn nillable(self) -> (nillable: Nillable) {
        Nillable::NonNil(Value::Boolean(self))
    }
}

impl IntoNillable for TableRef {
    open spec fn nillable_view(self) -> Option<Val> {
        Some(Val::Table(self))
    }

    fn nillable(self) -> (nillable: Nillable) {
        Nillable::NonNil(Value::Table(self))
    }
}

impl IntoNillable for () {
    open spec fn nillable_view(self) -> Option<Val> {
        None
    }

    fn nillable(self) -> (nillable: Nillable) {
        Nillable::Nil
    }
}

} // verus!
