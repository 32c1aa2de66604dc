//! Stored documents as the engines hold them, and the data of one table.
use vstd::prelude::*;

use crate::dual_versioned_data::DualVersionedData;
use crate::error::Error;
use crate::ids::{ElasticId, ObjectId};
use crate::single_versioned_data::SingleVersionedData;
use crate::table_state::VersioningType;

verus! {

/// A record together with the document id and store version it lives under.
#[derive(Debug)]
pub struct ElasticDoc<T> {
    pub elastic_id: ElasticId,
    pub version: u64,
    pub value: T,
}

/// A record as it is written: the value with the object it belongs to.
#[derive(Debug)]
pub struct Identified<T> {
    pub object_id: ObjectId,
    pub value: T,
}

impl<T: View> View for ElasticDoc<T> {
    type V = ElasticDoc<T::V>;

    open spec fn view(&self) -> ElasticDoc<T::V> {
        ElasticDoc { elastic_id: self.elastic_id, version: self.version, value: self.value@ }
    }
}

impl<T> ElasticDoc<T> {
    /// A new document under a fresh random id, at version 0.
    pub fn new(value: T) -> (r: Self)
        ensures
            r.version == 0,
            r.value == value,
    {
        ElasticDoc { elastic_id: ElasticId::new(), version: 0, value }
    }

    /// A new document under the given id, at version 0.
    pub fn with_id(elastic_id: ElasticId, value: T) -> (r: Self)
        ensures
            r.elastic_id == elastic_id,
            r.version == 0,
            r.value == value,
    {
        ElasticDoc { elastic_id, version: 0, value }
    }

    /// The next version of this document, with its value transformed by `f`.
    pub fn update<F>(self, f: F) -> (r: Self) where F: FnOnce(T) -> T
        requires
            self.version < u64::MAX,
            f.requires((self.value,)),
        ensures
            r.elastic_id == self.elastic_id,
            r.version == self.version + 1,
            f.ensures((self.value,), r.value),
    {
        ElasticDoc { elastic_id: self.elastic_id, version: self.version + 1, value: f(self.value) }
    }

    /// Splits this document in two: its next version, transformed by `prev`,
    /// and a new document (fresh id, version 0) made by `new` from a copy of the value.
    pub fn update_new<F, G>(self, prev: F, new: G) -> (r: (Self, Self)) where
        T: Clone,
        F: FnOnce(T) -> T,
        G: FnOnce(T) -> T,
        requires
            self.version < u64::MAX,
            prev.requires((self.value,)),
            forall|c: T| vstd::pervasive::cloned(self.value, c) ==> new.requires((c,)),
        ensures
            r.0.elastic_id == self.elastic_id,
            r.0.version == self.version + 1,
            prev.ensures((self.value,), r.0.value),
            r.1.version == 0,
            exists|c: T| vstd::pervasive::cloned(self.value, c) && new.ensures((c,), r.1.value),
    {
        let c = self.value.clone();
        assert(vstd::pervasive::cloned(self.value, c));
        let new = Self::new(new(c));
        let prev = self.update(prev);
        (prev, new)
    }
}

/// The in-memory data of a table, by the kind of versioning it uses.
pub enum TableData {
    Timestamped,
    SingleTimeline(SingleVersionedData),
    DualTimeline(DualVersionedData),
}

impl TableData {
    /// Empty data of a table that versions its objects as `versioning` says.
    pub fn new(versioning: VersioningType) -> (r: Self)
        ensures
            match versioning {
                VersioningType::Timestamped => r is Timestamped,
                VersioningType::SingleTimeline => r is SingleTimeline && r->SingleTimeline_0.wf()
                    && r->SingleTimeline_0.bounded() && r->SingleTimeline_0@.is_empty(),
                VersioningType::DualTimeline => r is DualTimeline && r->DualTimeline_0.wf()
                    && r->DualTimeline_0.bounded() && r->DualTimeline_0@.is_empty(),
            },
    {
        match versioning {
            VersioningType::Timestamped => TableData::Timestamped,
            VersioningType::SingleTimeline => TableData::SingleTimeline(SingleVersionedData::new()),
            VersioningType::DualTimeline => TableData::DualTimeline(DualVersionedData::new()),
        }
    }

    pub fn single_versioned(&self) -> (r: Option<&SingleVersionedData>)
        ensures
            match self {
                TableData::SingleTimeline(d) => r == Some(d),
                _ => r.is_none(),
            },
    {
        match self {
            TableData::SingleTimeline(data) => Some(data),
            _ => None,
        }
    }

    /// The single-timeline data, for `method` on table `table_id`; a table
    /// of another kind has no such timeline.
    pub fn single_versioned_for(&self, method: &str, table_id: &String) -> (r: Result<&SingleVersionedData, Error>)
        ensures
            match self {
                TableData::SingleTimeline(d) => r == Ok::<&SingleVersionedData, Error>(d),
                _ => match r {
                    Err(Error::NoTimeline(m, t)) => m@ == method@ && t == *table_id,
                    _ => false,
                },
            },
    {
        match self {
            TableData::SingleTimeline(data) => Ok(data),
            _ => Err(Error::NoTimeline(method.to_owned(), table_id.clone())),
        }
    }

    /// The dual-timeline data, for `method` on table `table_id`; a table of
    /// another kind has no such timelines.
    pub fn dual_versioned_for(&self, method: &str, table_id: &String) -> (r: Result<&DualVersionedData, Error>)
        ensures
            match self {
                TableData::DualTimeline(d) => r == Ok::<&DualVersionedData, Error>(d),
                _ => match r {
                    Err(Error::NoTimeline(m, t)) => m@ == method@ && t == *table_id,
                    _ => false,
                },
            },
    {
        match self {
            TableData::DualTimeline(data) => Ok(data),
            _ => Err(Error::NoTimeline(method.to_owned(), table_id.clone())),
        }
    }

    pub fn dual_versioned(&self) -> (r: Option<&DualVersionedData>)
        ensures
            match self {
                TableData::DualTimeline(d) => r == Some(d),
                _ => r.is_none(),
            },
    {
        match self {
            TableData::DualTimeline(data) => Some(data),
            _ => None,
        }
    }
}

} // verus!
