//! An owned pointer.

use vstd::prelude::*;

verus! {

/// An owned smart pointer.
pub struct P<T> {
    ptr: Box<T>,
}

impl<T> View for P<T> {
    type V = T;

    /// The value that the pointer owns.
    closed spec fn view(&self) -> T {
        *self.ptr
    }
}

/// A pointer that owns `value`.
#[allow(non_snake_case)]
pub fn P<T>(value: T) -> (p: P<T>)
    ensures
        p@ == value,
{
    P { ptr: Box::new(value) }
}

impl<T> P<T> {
    /// The value, out of the pointer.
    pub fn into_inner(self) -> (value: T)
        ensures
            value == self@,
    {
        *self.ptr
    }

    /// The pointer with `f` of its value in place of the value.
    pub fn map<F: FnOnce(T) -> T>(self, f: F) -> (p: P<T>)
        requires
            f.requires((self@,)),
        ensures
            f.ensures((self@,), p@),
    {
        let x = f(*self.ptr);
        P { ptr: Box::new(x) }
    }

    /// The value, borrowed.
    pub fn deref(&self) -> (value: &T)
        ensures
            *value == self@,
    {
        &*self.ptr
    }
}

impl<T: Clone> Clone for P<T> {
    fn clone(&self) -> (p: P<T>)
        ensures
            cloned(self@, p@),
    {
        P { ptr: Box::new((*self.ptr).clone()) }
    }
}

} // verus!
