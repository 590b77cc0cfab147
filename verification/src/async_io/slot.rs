use vstd::prelude::*;

verus! {

/// A cell for one value that is handed from its writer to its reader: it is
/// either empty or holds the value that was written last. Its view is the
/// value it holds, if any.
pub struct Slot<T> {
    value: Option<T>,
}

impl<T> View for Slot<T> {
    type V = Option<T>;

    closed spec fn view(&self) -> Option<T> {
        self.value
    }
}

/// One access to a slot.
pub enum Access<T> {
    /// An attempt to write this value.
    Put(T),
    /// An attempt to take the value out.
    Take,
}

/// What a slot holds after one access: a write to a full slot and a read of
/// an empty one change nothing.
pub open spec fn after<T>(slot: Option<T>, access: Access<T>) -> Option<T> {
    match access {
        Access::Put(v) => if slot is None {
            Some(v)
        } else {
            slot
        },
        Access::Take => None,
    }
}

/// What a slot holds after a history of accesses, taken in order.
pub open spec fn after_all<T>(slot: Option<T>, history: Seq<Access<T>>) -> Option<T>
    decreases history.len(),
{
    if history.len() == 0 {
        slot
    } else {
        after(after_all(slot, history.drop_last()), history.last())
    }
}

/// The values that a history of accesses has written into a slot, in order:
/// those of the writes that found it empty.
pub open spec fn written<T>(slot: Option<T>, history: Seq<Access<T>>) -> Seq<T>
    decreases history.len(),
{
    if history.len() == 0 {
        Seq::empty()
    } else {
        let before = written(slot, history.drop_last());
        match history.last() {
            Access::Put(v) => if after_all(slot, history.drop_last()) is None {
                before.push(v)
            } else {
                before
            },
            Access::Take => before,
        }
    }
}

/// The values that a history of accesses has taken out of a slot, in order.
pub open spec fn consumed<T>(slot: Option<T>, history: Seq<Access<T>>) -> Seq<T>
    decreases history.len(),
{
    if history.len() == 0 {
        Seq::empty()
    } else {
        let before = consumed(slot, history.drop_last());
        match (history.last(), after_all(slot, history.drop_last())) {
            (Access::Take, Some(v)) => before.push(v),
            _ => before,
        }
    }
}

/// Single write, single read: whatever the history of accesses to a slot
/// that started empty, the values taken out are the values written, each
/// once and in the order of writing, but for the one that the slot still
/// holds. No value is lost and none is handed out twice.
pub proof fn lemma_single_write_single_read<T>(history: Seq<Access<T>>)
    ensures
        match after_all(None::<T>, history) {
            Some(v) => written(None::<T>, history) == consumed(None::<T>, history).push(v),
            None => written(None::<T>, history) == consumed(None::<T>, history),
        },
    decreases history.len(),
{
    if history.len() > 0 {
        lemma_single_write_single_read(history.drop_last());
    }
}

impl<T> Slot<T> {
    /// An empty slot.
    pub fn new() -> (slot: Slot<T>)
        ensures
            slot@ is None,
    {
        Slot { value: None }
    }

    /// Whether the slot holds no value.
    pub fn is_empty(&self) -> (b: bool)
        ensures
            b == (self@ is None),
    {
        self.value.is_none()
    }

    /// What the slot holds, left in place.
    pub fn peek(&self) -> (r: Option<&T>)
        ensures
            match r {
                Some(v) => self@ == Some(*v),
                None => self@ is None,
            },
    {
        self.value.as_ref()
    }

    /// Writes `value` into the slot if it is empty. A full slot keeps what
    /// it holds and hands `value` back.
    pub fn put(&mut self, value: T) -> (r: Result<(), T>)
        ensures
            final(self)@ == after(old(self)@, Access::Put(value)),
            old(self)@ is None ==> r is Ok,
            old(self)@ is Some ==> r == Err::<(), T>(value),
    {
        if self.value.is_none() {
            self.value = Some(value);
            Ok(())
        } else {
            Err(value)
        }
    }

    /// Takes out what the slot holds and leaves it empty.
    pub fn take(&mut self) -> (r: Option<T>)
        ensures
            r == old(self)@,
            final(self)@ == after(old(self)@, Access::<T>::Take),
    {
        self.value.take()
    }
}

} // verus!
