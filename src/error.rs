//! Errors of the table engine.
use vstd::prelude::*;

use crate::ids::{ElasticId, ObjectId};
use crate::table_state::{TableNonOperationalState, VersioningType};

verus! {

#[derive(Debug)]
pub enum Error {
    TableNotFound(String),
    TableNotReady(String, TableNonOperationalState),
    ObjectIdAlreadyExists(String, ObjectId),
    ObjectDoesNotExist(String, ObjectId),
    InconsistentData(String, ElasticId),
    /// A method for versioned tables was called on a table of another kind:
    /// the method, then the table.
    NoTimeline(String, String),
    /// A request for a table of one kind reached a table of another: the
    /// table, its kind, and the kind the request is for.
    WrongVersioningType(String, VersioningType, VersioningType),
    /// No verification run has this id.
    NoSuchVerificationWorker(u128),
}

} // verus!
