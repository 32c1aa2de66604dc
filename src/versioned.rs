//! Version records of both kinds of versioned tables, and the pure record
//! transforms that the transaction engines build their writes from.
use vstd::prelude::*;

use crate::ids::Timestamp;

verus! {

/// One segment of one timeline: `from` is inclusive, `to` exclusive, and an
/// absent `to` means the segment is still open.
#[derive(Clone, Copy, Debug, PartialEq, Eq, Structural)]
pub struct Anchor {
    pub created: Timestamp,
    pub from: Timestamp,
    pub to: Option<Timestamp>,
}

/// Copies a payload; the copy holds the same bytes.
pub fn copy_payload(v: &Vec<u8>) -> (r: Vec<u8>)
    ensures
        r@ == v@,
{
    let mut r: Vec<u8> = Vec::new();
    let mut i: usize = 0;
    while i < v.len()
        invariant
            i <= v.len(),
            r@ == v@.take(i as int),
        decreases v.len() - i,
    {
        r.push(v[i]);
        i = i + 1;
        assert(r@ =~= v@.take(i as int));
    }
    assert(v@.take(v.len() as int) =~= v@);
    r
}

/// A value that can be duplicated; the duplicate has the same view.
pub trait Record: View + Sized {
    fn duplicate(&self) -> (r: Self)
        ensures
            r@ == self@,
    ;
}

/// A record of a single-timeline table.
#[derive(Debug)]
pub struct SingleVersionedValue {
    pub version: Anchor,
    pub value: Vec<u8>,
}

/// What a single-timeline record holds, with its payload as a sequence.
pub ghost struct SingleRecord {
    pub version: Anchor,
    pub value: Seq<u8>,
}

impl View for SingleVersionedValue {
    type V = SingleRecord;

    open spec fn view(&self) -> SingleRecord {
        SingleRecord { version: self.version, value: self.value@ }
    }
}

impl SingleRecord {
    /// A record that opens at `now`.
    pub open spec fn created(now: Timestamp, value: Seq<u8>) -> SingleRecord {
        SingleRecord { version: Anchor { created: now, from: now, to: None }, value }
    }

    /// The record that follows this one from `now` on, with a new payload.
    pub open spec fn updated(self, now: Timestamp, value: Seq<u8>) -> SingleRecord {
        SingleRecord {
            version: Anchor { created: self.version.created, from: now, to: None },
            value,
        }
    }

    /// This record, closed at `now`.
    pub open spec fn removed(self, now: Timestamp) -> SingleRecord {
        SingleRecord { version: Anchor { to: Some(now), ..self.version }, value: self.value }
    }
}

impl Record for SingleVersionedValue {
    fn duplicate(&self) -> (r: Self) {
        SingleVersionedValue { version: self.version, value: copy_payload(&self.value) }
    }
}

impl Clone for SingleVersionedValue {
    fn clone(&self) -> (r: Self)
        ensures
            r@ == self@,
    {
        SingleVersionedValue { version: self.version, value: copy_payload(&self.value) }
    }
}

impl SingleVersionedValue {
    pub fn new(now: Timestamp, value: Vec<u8>) -> (r: Self)
        ensures
            r@ == SingleRecord::created(now, value@),
    {
        SingleVersionedValue { version: Anchor { created: now, from: now, to: None }, value }
    }

    pub fn update(self, now: Timestamp, value: Vec<u8>) -> (r: Self)
        ensures
            r@ == self@.updated(now, value@),
    {
        SingleVersionedValue {
            version: Anchor { created: self.version.created, from: now, to: None },
            value,
        }
    }

    pub fn remove(self, now: Timestamp) -> (r: Self)
        ensures
            r@ == self@.removed(now),
    {
        SingleVersionedValue {
            version: Anchor { created: self.version.created, from: self.version.from, to: Some(now) },
            value: self.value,
        }
    }
}

/// Version information of a dual-timeline record.
#[derive(Clone, Copy, Debug, PartialEq, Eq, Structural)]
pub struct DualVersionInfo {
    pub current: Anchor,
    pub committed: Option<Timestamp>,
    pub active: Option<Anchor>,
}

/// A record of a dual-timeline table.
#[derive(Debug)]
pub struct DualVersionedValue {
    pub version: DualVersionInfo,
    pub value: Vec<u8>,
}

/// What a dual-timeline record holds, with its payload as a sequence.
pub ghost struct DualRecord {
    pub version: DualVersionInfo,
    pub value: Seq<u8>,
}

impl View for DualVersionedValue {
    type V = DualRecord;

    open spec fn view(&self) -> DualRecord {
        DualRecord { version: self.version, value: self.value@ }
    }
}

/// `Some(now)` for a committed payload, `None` otherwise.
pub open spec fn commit_time(now: Timestamp, commit: bool) -> Option<Timestamp> {
    if commit {
        Some(now)
    } else {
        None
    }
}

impl DualRecord {
    /// A record that opens on the current timeline at `now`.
    pub open spec fn created(now: Timestamp, value: Seq<u8>, commit: bool) -> DualRecord {
        DualRecord {
            version: DualVersionInfo {
                current: Anchor { created: now, from: now, to: None },
                committed: commit_time(now, commit),
                active: None,
            },
            value,
        }
    }

    /// The record that follows this one on the current timeline from `now` on.
    pub open spec fn updated(self, now: Timestamp, value: Seq<u8>, commit: bool) -> DualRecord {
        DualRecord {
            version: DualVersionInfo {
                current: Anchor { created: self.version.current.created, from: now, to: None },
                committed: commit_time(now, commit),
                active: None,
            },
            value,
        }
    }

    /// This (uncommitted) record with its payload and commit state replaced in place.
    pub open spec fn updated_uncommitted(self, now: Timestamp, value: Seq<u8>, commit: bool) -> DualRecord {
        DualRecord {
            version: DualVersionInfo { committed: commit_time(now, commit), ..self.version },
            value,
        }
    }

    /// This record, closed on the current timeline at `now`.
    pub open spec fn removed(self, now: Timestamp) -> DualRecord {
        DualRecord {
            version: DualVersionInfo {
                current: Anchor { to: Some(now), ..self.version.current },
                ..self.version
            },
            value: self.value,
        }
    }

    /// This record, opened on the active timeline at `now`; the segment keeps
    /// the creation time of the previous active segment, if there is one.
    pub open spec fn activated(self, now: Timestamp, prev_active: Option<Anchor>) -> DualRecord {
        DualRecord {
            version: DualVersionInfo {
                active: Some(
                    Anchor {
                        created: match prev_active {
                            Some(a) => a.created,
                            None => now,
                        },
                        from: now,
                        to: None,
                    },
                ),
                ..self.version
            },
            value: self.value,
        }
    }

    /// This record, closed on the active timeline at `now`.
    pub open spec fn activate_removed(self, now: Timestamp) -> DualRecord {
        DualRecord {
            version: DualVersionInfo {
                active: match self.version.active {
                    Some(a) => Some(Anchor { to: Some(now), ..a }),
                    None => None,
                },
                ..self.version
            },
            value: self.value,
        }
    }
}

fn commit_stamp(now: Timestamp, commit: bool) -> (r: Option<Timestamp>)
    ensures
        r == commit_time(now, commit),
{
    if commit {
        Some(now)
    } else {
        None
    }
}

impl Record for DualVersionedValue {
    fn duplicate(&self) -> (r: Self) {
        DualVersionedValue { version: self.version, value: copy_payload(&self.value) }
    }
}

impl Clone for DualVersionedValue {
    fn clone(&self) -> (r: Self)
        ensures
            r@ == self@,
    {
        DualVersionedValue { version: self.version, value: copy_payload(&self.value) }
    }
}

impl DualVersionedValue {
    pub fn new(now: Timestamp, value: Vec<u8>, commit: bool) -> (r: Self)
        ensures
            r@ == DualRecord::created(now, value@, commit),
    {
        DualVersionedValue {
            version: DualVersionInfo {
                current: Anchor { created: now, from: now, to: None },
                committed: commit_stamp(now, commit),
                active: None,
            },
            value,
        }
    }

    pub fn update(self, now: Timestamp, value: Vec<u8>, commit: bool) -> (r: Self)
        ensures
            r@ == self@.updated(now, value@, commit),
    {
        DualVersionedValue {
            version: DualVersionInfo {
                current: Anchor { created: self.version.current.created, from: now, to: None },
                committed: commit_stamp(now, commit),
                active: None,
            },
            value,
        }
    }

    pub fn update_uncommitted(self, now: Timestamp, value: Vec<u8>, commit: bool) -> (r: Self)
        ensures
            r@ == self@.updated_uncommitted(now, value@, commit),
    {
        DualVersionedValue {
            version: DualVersionInfo {
                current: self.version.current,
                committed: commit_stamp(now, commit),
                active: self.version.active,
            },
            value,
        }
    }

    pub fn remove(self, now: Timestamp) -> (r: Self)
        ensures
            r@ == self@.removed(now),
    {
        let c = self.version.current;
        DualVersionedValue {
            version: DualVersionInfo {
                current: Anchor { created: c.created, from: c.from, to: Some(now) },
                committed: self.version.committed,
                active: self.version.active,
            },
            value: self.value,
        }
    }

    pub fn activate(self, now: Timestamp, prev_active: Option<Anchor>) -> (r: Self)
        ensures
            r@ == self@.activated(now, prev_active),
    {
        let created = match prev_active {
            Some(a) => a.created,
            None => now,
        };
        DualVersionedValue {
            version: DualVersionInfo {
                current: self.version.current,
                committed: self.version.committed,
                active: Some(Anchor { created, from: now, to: None }),
            },
            value: self.value,
        }
    }

    pub fn activate_remove(self, now: Timestamp) -> (r: Self)
        ensures
            r@ == self@.activate_removed(now),
    {
        let active = match self.version.active {
            Some(a) => Some(Anchor { created: a.created, from: a.from, to: Some(now) }),
            None => None,
        };
        DualVersionedValue {
            version: DualVersionInfo {
                current: self.version.current,
                committed: self.version.committed,
                active,
            },
            value: self.value,
        }
    }
}

} // verus!
