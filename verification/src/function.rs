//! Closures: a compiled chunk with the variables it captured, and the
//! variable slot that is shared only once a second closure needs it.

use vstd::prelude::*;
use crate::heap::{Heap, HeapView};
use crate::value::{FunctionRef, Nillable, UpValueRef, Val};

verus! {

/// Handle to a unit of compiled code. The compiler makes chunks and the
/// execution engine runs them; a closure only carries the handle.
#[derive(Clone, Copy, PartialEq, Eq, Structural, Debug)]
pub struct Chunk {
    pub id: u64,
}

/// A closure: a chunk and the shared variables that it captured.
#[derive(Debug)]
pub struct Function {
    pub up_values: Vec<UpValueRef>,
    pub chunk: Chunk,
}

/// What a [`Function`] denotes.
pub struct FunctionView {
    pub up_values: Seq<UpValueRef>,
    pub chunk: Chunk,
}

impl View for Function {
    type V = FunctionView;

    open spec fn view(&self) -> FunctionView {
        FunctionView { up_values: self.up_values@, chunk: self.chunk }
    }
}

impl Function {
    /// The closure of `chunk` that captures nothing.
    pub fn new(chunk: Chunk) -> (function: Function)
        ensures
            function@ == (FunctionView { up_values: Seq::empty(), chunk }),
    {
        Function { chunk, up_values: Vec::new() }
    }

    /// Moves the closure into `heap`, where it can be shared, and returns
    /// its handle, which no closure had before.
    pub fn arc(self, heap: &mut Heap) -> (handle: FunctionRef)
        requires
            old(heap)@.admits_function(self@),
        ensures
            handle == old(heap)@.next_function(),
            handle.id == old(heap)@.functions.len(),
            final(heap)@ == old(heap)@.with_new_function(self@),
    {
        heap.new_function(self)
    }
}

/// The slot of a variable that a closure may capture. The slot starts
/// private, holding the value itself. `up_value` promotes it: the value moves
/// to a shared variable in the heap and the slot keeps the handle. A
/// promoted slot never becomes private again.
#[derive(Debug)]
pub enum MaybeUpValue {
    UpValue(UpValueRef),
    Normal(Nillable),
}

impl MaybeUpValue {
    /// Whether the slot fits `heap`: a shared slot names one of its
    /// variables, a private slot holds a value that it admits.
    pub open spec fn fits(self, heap: HeapView) -> bool {
        match self {
            MaybeUpValue::UpValue(shared) => heap.has_up_value(shared),
            MaybeUpValue::Normal(value) => heap.admits_nillable(value@),
        }
    }

    /// What the variable holds, wherever it is kept.
    pub open spec fn value(self, heap: HeapView) -> Option<Val>
        recommends
            self.fits(heap),
    {
        match self {
            MaybeUpValue::UpValue(shared) => heap.up_values[shared.id as int],
            MaybeUpValue::Normal(value) => value@,
        }
    }

    /// The shared variable of this slot. A private slot is promoted first:
    /// its value moves to a new shared variable. A slot that is shared
    /// already is left alone, and so is the heap.
    pub fn up_value(&mut self, heap: &mut Heap) -> (handle: UpValueRef)
        requires
            old(self).fits(old(heap)@),
        ensures
            *final(self) == MaybeUpValue::UpValue(handle),
            final(heap)@.has_up_value(handle),
            final(self).value(final(heap)@) == old(self).value(old(heap)@),
            match *old(self) {
                MaybeUpValue::UpValue(shared) => handle == shared && final(heap)@ == old(heap)@,
                MaybeUpValue::Normal(value) => {
                    &&& handle == old(heap)@.next_up_value()
                    &&& final(heap)@ == old(heap)@.with_new_up_value(value@)
                },
            },
    {
        let mut slot = MaybeUpValue::Normal(Nillable::Nil);
        std::mem::swap(&mut slot, self);
        let handle = match slot {
            MaybeUpValue::UpValue(shared) => shared,
            MaybeUpValue::Normal(value) => {
                let ghost held = value@;
                let handle = heap.new_up_value(value);
                assert(heap@.up_values[handle.id as int] == held);
                handle
            },
        };
        *self = MaybeUpValue::UpValue(handle);
        handle
    }

    /// Reads the variable. The slot stays as it is, private or shared.
    pub fn get(&self, heap: &Heap) -> (value: Nillable)
        requires
            self.fits(heap@),
        ensures
            value@ == self.value(heap@),
            heap@.admits_nillable(value@),
    {
        match self {
            MaybeUpValue::UpValue(shared) => heap.up_value(*shared),
            MaybeUpValue::Normal(value) => value.clone(),
        }
    }

    /// Writes the variable. The slot stays as it is, private or shared: a
    /// write never promotes. Writing to a shared slot changes the one shared
    /// variable, so every closure that holds it reads the new value.
    pub fn set(&mut self, heap: &mut Heap, value: Nillable)
        requires
            old(self).fits(old(heap)@),
            old(heap)@.admits_nillable(value@),
        ensures
            final(self).fits(final(heap)@),
            final(self).value(final(heap)@) == value@,
            match *old(self) {
                MaybeUpValue::UpValue(shared) => {
                    &&& *final(self) == *old(self)
                    &&& final(heap)@ == old(heap)@.with_up_value(shared, value@)
                },
                MaybeUpValue::Normal(_) => {
                    &&& *final(self) == MaybeUpValue::Normal(value)
                    &&& final(heap)@ == old(heap)@
                },
            },
    {
        let mut slot = MaybeUpValue::Normal(Nillable::Nil);
        std::mem::swap(&mut slot, self);
        match slot {
            MaybeUpValue::UpValue(shared) => {
                heap.set_up_value(shared, value);
                *self = MaybeUpValue::UpValue(shared);
            },
            MaybeUpValue::Normal(_) => {
                *self = MaybeUpValue::Normal(value);
            },
        }
    }
}

impl Clone for MaybeUpValue {
    /// A copy of the slot. The copy of a shared slot shares the same
    /// variable; the copy of a private slot holds a value of its own.
    fn clone(&self) -> (copy: Self)
        ensures
            copy == *self,
    {
        match self {
            MaybeUpValue::UpValue(shared) => MaybeUpValue::UpValue(*shared),
            MaybeUpValue::Normal(value) => MaybeUpValue::Normal(value.clone()),
        }
    }
}

impl Default for MaybeUpValue {
    /// A private slot that holds nil.
    fn default() -> (slot: Self)
        ensures
            slot == MaybeUpValue::Normal(Nillable::Nil),
    {
        MaybeUpValue::Normal(Nillable::Nil)
    }
}

/// Two slots that share one variable see each other's writes: after a write
/// through one handle, a read through an equal handle gives what was
/// written, and every other shared variable holds what it held.
pub proof fn lemma_shared_write(heap: HeapView, written: UpValueRef, value: Option<Val>)
    requires
        heap.has_up_value(written),
    ensures
        MaybeUpValue::UpValue(written).value(heap.with_up_value(written, value)) == value,
        forall|other: UpValueRef|
            heap.has_up_value(other) && other != written ==> MaybeUpValue::UpValue(other).value(
                heap.with_up_value(written, value),
            ) == MaybeUpValue::UpValue(other).value(heap),
{
}

} // verus!
