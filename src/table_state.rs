//! The state of one table slot of the registry.
use vstd::prelude::*;

use crate::error::Error;

verus! {

/// How a table versions its objects.
#[derive(Clone, Copy, Debug, PartialEq, Eq, Structural)]
pub enum VersioningType {
    Timestamped,
    SingleTimeline,
    DualTimeline,
}

/// State a table slot is in while a schema change holds it.
#[derive(Clone, Copy, Debug, PartialEq, Eq, Structural)]
pub enum TableNonOperationalState {
    Registering,
    Updating,
    Reloading,
    Reindexing,
    Unregistering,
}

impl TableNonOperationalState {
    /// The state's name, as messages show it.
    pub fn name(&self) -> (r: &'static str)
        ensures
            r@ == table_state_name(*self),
    {
        match self {
            TableNonOperationalState::Registering => "registering",
            TableNonOperationalState::Updating => "updating",
            TableNonOperationalState::Reloading => "reloading",
            TableNonOperationalState::Reindexing => "reindexing",
            TableNonOperationalState::Unregistering => "unregistering",
        }
    }
}

pub open spec fn table_state_name(s: TableNonOperationalState) -> Seq<char> {
    match s {
        TableNonOperationalState::Registering => "registering"@,
        TableNonOperationalState::Updating => "updating"@,
        TableNonOperationalState::Reloading => "reloading"@,
        TableNonOperationalState::Reindexing => "reindexing"@,
        TableNonOperationalState::Unregistering => "unregistering"@,
    }
}

/// A table slot: ready to serve with its operational state, or held in a
/// transitional state.
#[derive(Debug)]
pub enum TableState<T> {
    Operational(T),
    NonOperational(TableNonOperationalState),
}

impl<T> TableState<T> {
    pub fn new(oper_state: T) -> (r: Self)
        ensures
            r == TableState::Operational(oper_state),
    {
        TableState::Operational(oper_state)
    }

    /// Takes the operational state out, leaving the slot in `non_oper_state`;
    /// a slot that is already transitional is left as it is and reported
    /// not ready.
    pub fn take(&mut self, table_id: &String, non_oper_state: TableNonOperationalState) -> (r: Result<T, Error>)
        ensures
            match *old(self) {
                TableState::Operational(o) => r == Ok::<T, Error>(o) && *final(self) == TableState::<T>::NonOperational(
                    non_oper_state,
                ),
                TableState::NonOperational(s) => *final(self) == *old(self) && r == Err::<T, Error>(
                    Error::TableNotReady(*table_id, s),
                ),
            },
    {
        let mut this = TableState::NonOperational(non_oper_state);
        std::mem::swap(self, &mut this);
        match this {
            TableState::Operational(oper_state) => Ok(oper_state),
            TableState::NonOperational(s) => {
                *self = TableState::NonOperational(s);
                Err(Error::TableNotReady(table_id.clone(), s))
            },
        }
    }

    /// The operational state; a transitional slot is reported not ready.
    pub fn read(&self, table_id: &String) -> (r: Result<&T, Error>)
        ensures
            match *self {
                TableState::Operational(o) => r == Ok::<&T, Error>(&o),
                TableState::NonOperational(s) => r == Err::<&T, Error>(Error::TableNotReady(*table_id, s)),
            },
    {
        match self {
            TableState::Operational(state) => Ok(state),
            TableState::NonOperational(s) => Err(Error::TableNotReady(table_id.clone(), *s)),
        }
    }
}

} // verus!
