//! The scan of stored history for records of one object whose active
//! segments overlap, or leave a gap.
use vstd::prelude::*;

use crate::ids::{ElasticId, ObjectId, Timestamp};
use crate::object_map::ObjectMap;
use crate::versioned::Anchor;

verus! {

/// Two consecutive records of one object whose active segments do not join.
#[derive(Clone, Copy, Debug, PartialEq, Eq, Structural)]
pub struct VersionProblem {
    pub object_id: ObjectId,
    pub prev_version_id: ElasticId,
    pub cur_version_id: ElasticId,
    pub prev_to: Option<Timestamp>,
    pub cur_from: Timestamp,
}

/// A message of a verification run.
#[derive(Debug)]
pub enum VerificationMsg {
    /// The previous record is still open, or ends after this one starts.
    Overlap(VersionProblem),
    /// The previous record ends before this one starts.
    Gap(VersionProblem),
    /// The number of records scanned so far.
    Progress(u64),
    /// The scan failed.
    Error(String),
}

/// The last record seen of an object: its id and where its active segment ends.
pub type LastSeen = (ElasticId, Option<Timestamp>);

/// The message for record `id` of `oid`, active from `from`, following `prev`.
pub open spec fn check_spec(prev: LastSeen, oid: ObjectId, id: ElasticId, from: Timestamp) -> Option<VerificationMsg> {
    let problem = VersionProblem {
        object_id: oid,
        prev_version_id: prev.0,
        cur_version_id: id,
        prev_to: prev.1,
        cur_from: from,
    };
    match prev.1 {
        None => Some(VerificationMsg::Overlap(problem)),
        Some(to) => if to > from {
            Some(VerificationMsg::Overlap(problem))
        } else if to < from {
            Some(VerificationMsg::Gap(problem))
        } else {
            None
        },
    }
}

/// One record as the scan reads it: document id, object id, active segment.
pub type ScanRecord = (ElasticId, ObjectId, Anchor);

/// The last-seen records and the messages after scanning `docs` in order
/// from `seen`.
pub open spec fn scan_spec(seen: Map<ObjectId, LastSeen>, docs: Seq<ScanRecord>) -> (Map<ObjectId, LastSeen>, Seq<VerificationMsg>)
    decreases docs.len(),
{
    if docs.len() == 0 {
        (seen, Seq::empty())
    } else {
        let (m, msgs) = scan_spec(seen, docs.drop_last());
        let (id, oid, a) = docs.last();
        let msgs2 = if m.contains_key(oid) {
            match check_spec(m[oid], oid, id, a.from) {
                Some(msg) => msgs.push(msg),
                None => msgs,
            }
        } else {
            msgs
        };
        (m.insert(oid, (id, a.to)), msgs2)
    }
}

/// The state of a verification run: the last record seen of each object,
/// and how many records were scanned.
pub struct VerificationScan {
    seen: ObjectMap<LastSeen>,
    count: u64,
}

impl VerificationScan {
    pub closed spec fn wf(&self) -> bool {
        self.seen.wf()
    }

    pub closed spec fn seen(&self) -> Map<ObjectId, LastSeen> {
        self.seen@
    }

    pub closed spec fn count(&self) -> u64 {
        self.count
    }

    pub fn new() -> (r: Self)
        ensures
            r.wf(),
            r.seen() == Map::<ObjectId, LastSeen>::empty(),
            r.count() == 0,
    {
        VerificationScan { seen: ObjectMap::new(), count: 0 }
    }

    /// How many records were scanned so far.
    pub fn scanned(&self) -> (r: u64)
        ensures
            r == self.count(),
    {
        self.count
    }

    /// The message for record `id` of `oid`, active from `from`, following `prev`.
    pub fn check(prev: &LastSeen, oid: ObjectId, id: ElasticId, from: Timestamp) -> (r: Option<VerificationMsg>)
        ensures
            r == check_spec(*prev, oid, id, from),
    {
        let problem = VersionProblem {
            object_id: oid,
            prev_version_id: prev.0,
            cur_version_id: id,
            prev_to: prev.1,
            cur_from: from,
        };
        match prev.1 {
            None => Some(VerificationMsg::Overlap(problem)),
            Some(to) => if to > from {
                Some(VerificationMsg::Overlap(problem))
            } else if to < from {
                Some(VerificationMsg::Gap(problem))
            } else {
                None
            },
        }
    }

    /// Scans one batch of records, sorted by the start of their active
    /// segment: the messages for the batch, ending with the progress count.
    pub fn process_batch(&mut self, docs: Vec<ScanRecord>) -> (r: Vec<VerificationMsg>)
        requires
            old(self).wf(),
            old(self).count() + docs@.len() <= u64::MAX,
        ensures
            final(self).wf(),
            final(self).count() == old(self).count() + docs@.len(),
            final(self).seen() == scan_spec(old(self).seen(), docs@).0,
            r@ == scan_spec(old(self).seen(), docs@).1.push(VerificationMsg::Progress(final(self).count())),
    {
        let ghost all = docs@;
        let mut rest = docs;
        let n = rest.len();
        let mut msgs: Vec<VerificationMsg> = Vec::new();
        let mut i: usize = 0;
        assert(all.take(0) =~= Seq::<ScanRecord>::empty());
        while i < n
            invariant
                n == all.len(),
                i <= n,
                rest@ == all.subrange(i as int, n as int),
                self.wf(),
                self.count == old(self).count,
                (self.seen@, msgs@) == scan_spec(old(self).seen@, all.take(i as int)),
            decreases n - i,
        {
            assert(rest@[0] == all[i as int]);
            let (id, oid, a) = rest.remove(0);
            proof {
                assert(all.take(i + 1).drop_last() =~= all.take(i as int));
                assert(rest@ =~= all.subrange(i + 1, n as int));
            }
            match self.seen.get(&oid) {
                Some(prev) => {
                    match Self::check(prev, oid, id, a.from) {
                        Some(msg) => msgs.push(msg),
                        None => {},
                    }
                },
                None => {},
            }
            self.seen.insert(oid, (id, a.to));
            i = i + 1;
        }
        assert(all.take(n as int) =~= all);
        self.count = self.count + n as u64;
        msgs.push(VerificationMsg::Progress(self.count));
        msgs
    }
}

} // verus!
