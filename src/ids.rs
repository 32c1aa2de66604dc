use vstd::prelude::*;

verus! {

/// A point in time: nanoseconds since the Unix epoch.
pub type Timestamp = i64;

/// Identifier of an object, stable across all of its versions.
#[derive(Clone, Copy, Debug, PartialEq, Eq, Hash, PartialOrd, Ord, Structural)]
pub struct ObjectId {
    pub id: u128,
}

/// Identifier of one stored version record (a document of the store).
#[derive(Clone, Copy, Debug, PartialEq, Eq, Hash, PartialOrd, Ord, Structural)]
pub struct ElasticId {
    pub id: u128,
}

/// Relies on uuid::Uuid::new_v4 (read as its 128-bit value): a random token.
/// Nothing is known of the value drawn.
#[verifier::external_body]
fn random_token() -> (r: u128) {
    uuid::Uuid::new_v4().as_u128()
}

impl ObjectId {
    /// A fresh random object id.
    pub fn new() -> (r: ObjectId) {
        ObjectId { id: random_token() }
    }

    pub fn from_u128(id: u128) -> (r: ObjectId)
        ensures
            r.id == id,
    {
        ObjectId { id }
    }
}

impl ElasticId {
    /// A fresh random document id.
    pub fn new() -> (r: ElasticId) {
        ElasticId { id: random_token() }
    }

    pub fn from_u128(id: u128) -> (r: ElasticId)
        ensures
            r.id == id,
    {
        ElasticId { id }
    }
}

/// `drawn`, unless it is one of the ids to avoid; then the first of
/// 0, 1, 2, 3 that is none of them.
pub fn fresh_id(drawn: ElasticId, a: Option<ElasticId>, b: Option<ElasticId>, c: Option<ElasticId>) -> (r: ElasticId)
    ensures
        a != Some(r),
        b != Some(r),
        c != Some(r),
        (a != Some(drawn) && b != Some(drawn) && c != Some(drawn)) ==> r == drawn,
{
    if avoids(drawn, a, b, c) {
        return drawn;
    }
    let mut n: u128 = 0;
    while n < 3
        invariant
            n <= 3,
            !(a != Some(drawn) && b != Some(drawn) && c != Some(drawn)),
            forall|m: u128| m < n ==> !(a != Some(ElasticId { id: m }) && b != Some(ElasticId { id: m }) && c != Some(ElasticId { id: m })),
        decreases 3 - n,
    {
        if avoids(ElasticId { id: n }, a, b, c) {
            return ElasticId { id: n };
        }
        n = n + 1;
    }
    assert(!(a != Some(ElasticId { id: 0 }) && b != Some(ElasticId { id: 0 }) && c != Some(ElasticId { id: 0 })));
    assert(!(a != Some(ElasticId { id: 1 }) && b != Some(ElasticId { id: 1 }) && c != Some(ElasticId { id: 1 })));
    assert(!(a != Some(ElasticId { id: 2 }) && b != Some(ElasticId { id: 2 }) && c != Some(ElasticId { id: 2 })));
    ElasticId { id: 3 }
}

fn avoids(x: ElasticId, a: Option<ElasticId>, b: Option<ElasticId>, c: Option<ElasticId>) -> (r: bool)
    ensures
        r == (a != Some(x) && b != Some(x) && c != Some(x)),
{
    let ok_a = match a {
        Some(y) => y.id != x.id,
        None => true,
    };
    let ok_b = match b {
        Some(y) => y.id != x.id,
        None => true,
    };
    let ok_c = match c {
        Some(y) => y.id != x.id,
        None => true,
    };
    ok_a && ok_b && ok_c
}

} // verus!
