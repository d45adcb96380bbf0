//! The typed attribute cell: an owned value with a codec, the handle the
//! host stack assigned, and the pending update notification.
//!
//! The update stream of an attribute is a channel of capacity one with
//! drop-oldest semantics: a fresh update replaces an unconsumed one.  It is a
//! notification channel, not a durable log.

use vstd::prelude::*;
use crate::codec::Attribute;
use crate::error::Error;
use crate::types::Handle;

verus! {

/// One published change of an attribute value: the value before the change
/// and the value after it.
pub struct AttributeUpdate<T> {
    pub previous: T,
    pub current: T,
}

/// A typed attribute cell.  The handle is absent until the host stack
/// accepts the attribute, is set exactly once, and is immutable afterwards.
pub struct AttributeInner<T: Attribute> {
    pub value: T,
    pub handle: Option<Handle>,
    pub pending: Option<AttributeUpdate<T>>,
}

impl<T: Attribute> AttributeInner<T> {
    /// A fresh cell: no handle yet, no pending notification.
    pub fn new(value: T) -> (r: Self)
        ensures
            r.value == value,
            r.handle is None,
            r.pending is None,
    {
        AttributeInner { value, handle: None, pending: None }
    }

    /// The current value's byte encoding.
    pub fn get_bytes(&self) -> (r: Vec<u8>)
        ensures
            r@ == T::spec_encode(self.value@),
    {
        self.value.get_bytes()
    }

    /// Borrow the current value.
    pub fn get_value(&self) -> (r: &T)
        ensures
            r == self.value,
    {
        &self.value
    }

    /// Replace the value and publish an update notification.  The
    /// notification is published on every call, also when the new value
    /// equals the old one; an unconsumed older notification is dropped.
    pub fn update(&mut self, new_value: T)
        ensures
            final(self).value@ == new_value@,
            final(self).handle == old(self).handle,
            final(self).pending matches Some(u)
                && u.previous@ == old(self).value@
                && u.current@ == new_value@,
    {
        let current_copy = new_value.duplicate();
        let mut previous = new_value;
        core::mem::swap(&mut self.value, &mut previous);
        self.pending = Some(AttributeUpdate { previous, current: current_copy });
    }

    /// Drain the pending update notification, if any.
    pub fn take_update(&mut self) -> (r: Option<AttributeUpdate<T>>)
        ensures
            r == old(self).pending,
            final(self).pending is None,
            final(self).value == old(self).value,
            final(self).handle == old(self).handle,
    {
        self.pending.take()
    }

    /// Record the handle the host stack assigned.  The handle is set exactly
    /// once; a second assignment is refused.
    pub fn set_handle(&mut self, handle: Handle) -> (r: Result<(), Error>)
        ensures
            old(self).handle is None ==> r is Ok && final(self).handle == Some(handle),
            old(self).handle is Some ==> (r matches Err(e) && e == Error::HandleAlreadySet)
                && final(self).handle == old(self).handle,
            final(self).value == old(self).value,
            final(self).pending == old(self).pending,
    {
        if self.handle.is_some() {
            Err(Error::HandleAlreadySet)
        } else {
            self.handle = Some(handle);
            Ok(())
        }
    }

    /// The assigned handle; absence outside of the registration window is a
    /// caller error.
    pub fn handle(&self) -> (r: Result<Handle, Error>)
        ensures
            match self.handle {
                Some(h) => r == Ok::<Handle, Error>(h),
                None => (r matches Err(e) && e == Error::HandleNotSet),
            },
    {
        match self.handle {
            Some(h) => Ok(h),
            None => Err(Error::HandleNotSet),
        }
    }
}

} // verus!
