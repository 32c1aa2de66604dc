//! Edits of a bulk update request.
use vstd::prelude::*;

verus! {

/// One edit of one object in a bulk update.
#[derive(Clone, Debug)]
pub enum Operation<T> {
    /// Create an object that must not exist.
    Create(T),
    /// Update an object that must exist.
    Update(T),
    /// Create or update, whichever applies.
    CreateOrUpdate(T),
    /// Remove an object that must exist.
    Remove,
}

impl<T: View> View for Operation<T> {
    type V = Operation<T::V>;

    open spec fn view(&self) -> Operation<T::V> {
        match self {
            Operation::Create(v) => Operation::Create(v@),
            Operation::Update(v) => Operation::Update(v@),
            Operation::CreateOrUpdate(v) => Operation::CreateOrUpdate(v@),
            Operation::Remove => Operation::Remove,
        }
    }
}

/// Why an edit of a bulk update was refused.
#[derive(Clone, Copy, Debug, PartialEq, Eq, Structural)]
pub enum OpFailure {
    AlreadyExists,
    DoesNotExist,
}

} // verus!
