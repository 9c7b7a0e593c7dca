//! Shared access to one value that is checked while the program runs:
//! `std::cell::RefCell`, as far as the connection uses it.
//!
//! A cell's content can change behind a shared reference, so nothing here
//! speaks of what a cell holds.

use vstd::prelude::*;
use std::cell::{BorrowMutError, RefCell, RefMut};
use crate::error::ConnError;

verus! {

/// `std::cell::RefCell`, opaque.
#[verifier::external_type_specification]
#[verifier::external_body]
#[verifier::reject_recursive_types(T)]
pub struct ExRefCell<T: ?Sized>(RefCell<T>);

/// `std::cell::RefMut`, the handle for exclusive access to a cell's content;
/// the access ends when the handle goes out of use. Opaque.
#[verifier::external_type_specification]
#[verifier::external_body]
#[verifier::reject_recursive_types(T)]
pub struct ExRefMut<'b, T: ?Sized + 'b>(RefMut<'b, T>);

/// `std::cell::BorrowMutError`, what `try_borrow_mut` returns while the
/// content is handed out. Opaque.
#[verifier::external_type_specification]
#[verifier::external_body]
pub struct ExBorrowMutError(BorrowMutError);

/// `RefCell::new` puts a value into a new cell. It always returns; nothing is
/// claimed of the cell.
pub assume_specification<T>[ RefCell::<T>::new ](value: T) -> (cell: RefCell<T>);

/// `RefCell::try_borrow_mut` hands out exclusive access to the content, or an
/// error while the content is handed out already. It never panics. Which of
/// the two comes back depends on how the cell is used at that moment, so
/// nothing is claimed of it.
pub assume_specification<'a, T: ?Sized>[ RefCell::<T>::try_borrow_mut ](cell: &'a RefCell<T>) -> (r:
    Result<RefMut<'a, T>, BorrowMutError>);

/// What a caller gets for an attempt to borrow from a cell: the handle that
/// was handed out, or `Busy` while the content is with someone else.
pub fn granted<'a, T>(attempt: Result<RefMut<'a, T>, BorrowMutError>) -> (r: Result<
    RefMut<'a, T>,
    ConnError,
>)
    ensures
        attempt matches Ok(handle) ==> r == Ok::<RefMut<'a, T>, ConnError>(handle),
        attempt is Err ==> r matches Err(ConnError::Busy),
{
    match attempt {
        Ok(handle) => Ok(handle),
        Err(_) => Err(ConnError::Busy),
    }
}

/// `DerefMut::deref_mut` of `RefMut`: the content that the handle gives
/// access to. It always returns; nothing is claimed of the content.
#[verifier::external_body]
pub(crate) fn content<'a, 'b, T: ?Sized>(handle: &'a mut RefMut<'b, T>) -> (r: &'a mut T) {
    &mut **handle
}

} // verus!
