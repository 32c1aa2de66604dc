//! What the engine reads from the document store's responses, and the
//! naming of the store's collections.
use vstd::prelude::*;

verus! {

/// Connection settings of the document store.
#[derive(Clone, Debug)]
pub struct DatabaseConfig {
    pub url: String,
    pub username: Option<String>,
    pub password: Option<String>,
    pub cert: Option<String>,
    pub key: Option<String>,
    pub ca: Option<String>,
    /// Prefix of all collection names, so that several instances can share one store.
    pub index_prefix: String,
}

#[derive(Clone, Copy, Debug, PartialEq, Eq, Structural)]
pub enum WebProtocol {
    Http,
    Https,
}

#[derive(Clone, Copy, Debug, PartialEq, Eq, Structural)]
pub enum ClusterDistribution {
    Elasticsearch,
    OpenSearch,
}

#[derive(Clone, Copy, Debug, PartialEq, Eq, Structural)]
pub enum DocumentResult {
    Created,
    Updated,
}

#[derive(Clone, Copy, Debug, PartialEq, Eq, Structural)]
pub struct IndexSettings {
    pub total_fields_limit: Option<u64>,
    pub nested_fields_limit: Option<u64>,
}

#[derive(Clone, Debug)]
pub struct Pit {
    pub id: String,
    pub keep_alive: String,
}

#[derive(Clone, Debug)]
pub struct ErrorDescription {
    pub typ: String,
    pub reason: String,
}

#[derive(Clone, Debug)]
pub struct ErrorResponse {
    pub status: u16,
    pub error: ErrorDescription,
}

#[derive(Clone, Copy, Debug, PartialEq, Eq, Structural)]
pub struct Shards {
    pub failed: u32,
    pub skipped: Option<u32>,
    pub successful: u32,
    pub total: u32,
}

#[derive(Clone, Copy, Debug, PartialEq, Eq, Structural)]
pub struct RefreshResponse {
    pub shards: Shards,
}

#[derive(Clone, Copy, Debug, PartialEq, Eq, Structural)]
pub struct UpdateByQueryResponse {
    pub took: u64,
    pub timed_out: bool,
    pub total: u64,
    pub updated: u64,
    pub deleted: u64,
    pub batches: u64,
    pub version_conflicts: u64,
    pub noops: u64,
    pub retries: u64,
    pub throttled_millis: u64,
    pub requests_per_second: u64,
    pub throttled_until_millis: u64,
}

#[derive(Clone, Debug)]
pub struct PitResponse {
    pub id: String,
}

#[derive(Clone, Debug)]
pub struct Total {
    pub relation: String,
    pub value: usize,
}

/// The outcome of one write of a bulk request.
#[derive(Clone, Debug)]
pub struct BulkItemResult {
    pub id: String,
    pub index: String,
    pub primary_term: u64,
    pub seq_no: u64,
    pub shards: Shards,
    pub version: u64,
    pub result: DocumentResult,
    pub status: u64,
}

#[derive(Clone, Debug)]
pub enum BulkItem {
    Index(BulkItemResult),
}

/// The response to a bulk request.
#[derive(Clone, Debug)]
pub struct BulkReponse {
    pub errors: bool,
    pub items: Vec<BulkItem>,
    pub took: u64,
}

pub open spec fn item_status(i: BulkItem) -> u64 {
    match i {
        BulkItem::Index(r) => r.status,
    }
}

/// A write that the store applied (200), or that it had applied already: a
/// version conflict (409) under external versioning means that an equal or
/// newer version is stored.
pub open spec fn status_ok(s: u64) -> bool {
    s == 200 || s == 409
}

impl BulkItem {
    pub fn status(&self) -> (r: u64)
        ensures
            r == item_status(*self),
    {
        match self {
            BulkItem::Index(res) => res.status,
        }
    }
}

/// How a bulk request failed.
#[derive(Clone, Copy, Debug, PartialEq, Eq, Structural)]
pub enum BulkError {
    /// No write of the request was applied.
    BulkUpdateComplete,
    /// Some writes were applied and some were not.
    BulkUpdatePartial,
}

/// The outcome of a bulk request with per-write statuses `st`: success
/// where every write was applied or had been applied already; otherwise a
/// complete failure where none was, and a partial one where some were.
pub open spec fn bulk_outcome(st: Seq<u64>) -> Result<(), BulkError> {
    if forall|i: int| 0 <= i < st.len() ==> status_ok(#[trigger] st[i]) {
        Ok(())
    } else if forall|i: int| 0 <= i < st.len() ==> !status_ok(#[trigger] st[i]) {
        Err(BulkError::BulkUpdateComplete)
    } else {
        Err(BulkError::BulkUpdatePartial)
    }
}

/// The outcome of a bulk request: success where every write was applied or
/// had been applied already; otherwise a complete failure where none was,
/// and a partial one where some were.
pub fn check_bulk_response(res: &BulkReponse) -> (r: Result<(), BulkError>)
    ensures
        r == bulk_outcome(res.items@.map_values(|i: BulkItem| item_status(i))),
{
    let mut any_ok = false;
    let mut any_failed = false;
    let mut i: usize = 0;
    while i < res.items.len()
        invariant
            i <= res.items@.len(),
            any_ok == exists|j: int| 0 <= j < i && status_ok(item_status(#[trigger] res.items@[j])),
            any_failed == exists|j: int| 0 <= j < i && !status_ok(item_status(#[trigger] res.items@[j])),
        decreases res.items@.len() - i,
    {
        let s = res.items[i].status();
        if s == 200 || s == 409 {
            any_ok = true;
        } else {
            any_failed = true;
        }
        i = i + 1;
    }
    let ghost st = res.items@.map_values(|i: BulkItem| item_status(i));
    assert(forall|j: int| 0 <= j < res.items@.len() ==> st[j] == item_status(#[trigger] res.items@[j]));
    if !any_failed {
        assert forall|j: int| 0 <= j < st.len() implies status_ok(#[trigger] st[j]) by {
            assert(st[j] == item_status(res.items@[j]));
        }
        Ok(())
    } else if !any_ok {
        assert forall|j: int| 0 <= j < st.len() implies !status_ok(#[trigger] st[j]) by {
            assert(st[j] == item_status(res.items@[j]));
        }
        Err(BulkError::BulkUpdateComplete)
    } else {
        proof {
            let ja = choose|j: int| 0 <= j < res.items@.len() && status_ok(item_status(#[trigger] res.items@[j]));
            let jf = choose|j: int| 0 <= j < res.items@.len() && !status_ok(item_status(#[trigger] res.items@[j]));
            assert(status_ok(st[ja]));
            assert(!status_ok(st[jf]));
        }
        Err(BulkError::BulkUpdatePartial)
    }
}

/// Relies on char::to_lowercase, collected: the lowercase mapping of a
/// character, one or more characters; an ASCII character maps to its ASCII
/// lowercase.
pub uninterp spec fn lower_of(c: char) -> Seq<char>;

/// Relies on char::to_lowercase: the characters of the lowercase mapping of `c`.
#[verifier::external_body]
fn lowercase(c: char) -> (r: Vec<char>)
    ensures
        r@ == lower_of(c),
        ('A' <= c <= 'Z') ==> r@ == seq![((c as u32) + 32) as char],
        (c as u32) < 128 && !('A' <= c <= 'Z') ==> r@ == seq![c],
{
    c.to_lowercase().collect()
}

/// Relies on str::chars, collected: the characters of a string.
#[verifier::external_body]
fn chars_of(s: &str) -> (r: Vec<char>)
    ensures
        r@ == s@,
{
    s.chars().collect()
}

/// Relies on String::push: appends one character.
#[verifier::external_body]
fn push_char(s: &mut String, c: char)
    ensures
        final(s)@ == old(s)@.push(c),
{
    s.push(c)
}

/// What a lowercased character becomes in a collection name: letters,
/// digits, `-` and `.` stay, a space or `_` becomes `-`, anything else goes.
pub open spec fn index_char(c: char) -> Option<char> {
    if ('a' <= c <= 'z') || ('0' <= c <= '9') || c == '-' || c == '.' {
        Some(c)
    } else if c == ' ' || c == '_' {
        Some('-')
    } else {
        None
    }
}

/// The characters that lowercased characters become in a collection name.
pub open spec fn index_chars(cs: Seq<char>) -> Seq<char>
    decreases cs.len(),
{
    if cs.len() == 0 {
        Seq::empty()
    } else {
        match index_char(cs.last()) {
            Some(c) => index_chars(cs.drop_last()).push(c),
            None => index_chars(cs.drop_last()),
        }
    }
}

/// A string made a name for a collection: lowercased, then filtered by character.
pub open spec fn sanitized(s: Seq<char>) -> Seq<char>
    decreases s.len(),
{
    if s.len() == 0 {
        Seq::empty()
    } else {
        sanitized(s.drop_last()) + index_chars(lower_of(s.last()))
    }
}

/// Appends to `out` what the lowercased characters `lowered` become in a
/// collection name.
pub fn push_index_chars(out: &mut String, lowered: &Vec<char>)
    ensures
        final(out)@ == old(out)@ + index_chars(lowered@),
{
    let mut i: usize = 0;
    assert(lowered@.take(0) =~= Seq::<char>::empty());
    assert(old(out)@ + Seq::<char>::empty() =~= old(out)@);
    while i < lowered.len()
        invariant
            i <= lowered@.len(),
            out@ == old(out)@ + index_chars(lowered@.take(i as int)),
        decreases lowered@.len() - i,
    {
        let c = lowered[i];
        assert(lowered@.take(i + 1).drop_last() =~= lowered@.take(i as int));
        if ('a' <= c && c <= 'z') || ('0' <= c && c <= '9') || c == '-' || c == '.' {
            push_char(out, c);
        } else if c == ' ' || c == '_' {
            push_char(out, '-');
        }
        assert(out@ =~= old(out)@ + index_chars(lowered@.take(i + 1)));
        i = i + 1;
    }
    assert(lowered@.take(lowered@.len() as int) =~= lowered@);
}

/// Turns a string into a readable (part of a) collection name. Not meant to
/// be reversible nor to keep ids apart that differ only in case or punctuation.
pub fn sanitize_index_id(id: &str) -> (r: String)
    ensures
        r@ == sanitized(id@),
{
    let chars = chars_of(id);
    let mut out = String::new();
    let mut i: usize = 0;
    assert(chars@.take(0) =~= Seq::<char>::empty());
    while i < chars.len()
        invariant
            i <= chars@.len(),
            chars@ == id@,
            out@ == sanitized(chars@.take(i as int)),
        decreases chars@.len() - i,
    {
        let lowered = lowercase(chars[i]);
        push_index_chars(&mut out, &lowered);
        assert(chars@.take(i + 1).drop_last() =~= chars@.take(i as int));
        i = i + 1;
    }
    assert(chars@.take(chars@.len() as int) =~= chars@);
    out
}

} // verus!
