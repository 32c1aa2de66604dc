//! The lines of a bulk request to the document store: for each write, a
//! header line naming the operation, document and external version, then
//! the document itself on a line of its own. Strings and numbers in the
//! header are encoded by serde_json.
use vstd::prelude::*;

verus! {

/// One operation of a bulk request. `value` is the document, already encoded
/// as JSON on one line.
#[derive(Clone, Debug)]
pub enum BulkOp {
    Create { index: Option<String>, id: String, version: u64, value: Vec<u8> },
    Index { index: Option<String>, id: String, version: u64, value: Vec<u8> },
    Delete { index: Option<String>, id: String, version: u64 },
}

/// Relies on serde_json::to_vec on a string: the JSON string literal of the
/// text, quotes included.
pub uninterp spec fn json_string_of(s: Seq<char>) -> Seq<u8>;

/// Relies on serde_json::to_vec: the JSON string literal of `s`. Encoding a
/// string cannot fail.
#[verifier::external_body]
fn json_string_bytes(s: &str) -> (r: Vec<u8>)
    ensures
        r@ == json_string_of(s@),
{
    serde_json::to_vec(s).unwrap_or_default()
}

/// Relies on serde_json::to_vec: a `u64` is written as its decimal digits.
/// Encoding an integer cannot fail.
#[verifier::external_body]
fn json_u64_bytes(n: u64) -> (r: Vec<u8>)
    ensures
        r@ == decimal(n as nat),
{
    serde_json::to_vec(&n).unwrap_or_default()
}

/// The decimal digits of `n`.
pub open spec fn decimal(n: nat) -> Seq<u8>
    decreases n,
{
    if n < 10 {
        seq![(48 + n) as u8]
    } else {
        decimal(n / 10).push((48 + n % 10) as u8)
    }
}

/// The bytes of the ASCII text `s`.
pub open spec fn ascii(s: Seq<char>) -> Seq<u8> {
    s.map_values(|c: char| c as u8)
}

/// The header line of an operation named `name`.
pub open spec fn header(name: Seq<char>, index: Option<String>, id: String, version: u64) -> Seq<u8> {
    ascii("{\""@) + ascii(name) + ascii("\":{\"_id\":"@) + json_string_of(id@) + ascii(",\"_index\":"@) + match index {
        Some(i) => json_string_of(i@),
        None => ascii("null"@),
    } + ascii(",\"version\":"@) + decimal(version as nat) + ascii(",\"version_type\":\"external\"}}\n"@)
}

/// The lines of an operation.
pub open spec fn bulk_op_bytes(op: BulkOp) -> Seq<u8> {
    match op {
        BulkOp::Create { index, id, version, value } => header("create"@, index, id, version) + value@ + seq![10u8],
        BulkOp::Index { index, id, version, value } => header("index"@, index, id, version) + value@ + seq![10u8],
        BulkOp::Delete { index, id, version } => header("delete"@, index, id, version),
    }
}

/// Appends `s` to `out`.
pub fn push_all(out: &mut Vec<u8>, s: &[u8])
    ensures
        final(out)@ == old(out)@ + s@,
{
    let mut i: usize = 0;
    while i < s.len()
        invariant
            i <= s@.len(),
            out@ == old(out)@ + s@.take(i as int),
        decreases s@.len() - i,
    {
        out.push(s[i]);
        i = i + 1;
        assert(out@ =~= old(out)@ + s@.take(i as int));
    }
    assert(s@.take(s@.len() as int) =~= s@);
}

/// Appends the ASCII text `s` to `out`.
fn push_ascii(out: &mut Vec<u8>, s: &str)
    requires
        vstd::string::is_ascii(s),
    ensures
        final(out)@ == old(out)@ + ascii(s@),
{
    let b = s.as_bytes();
    proof {
        vstd::string::is_ascii_spec_bytes(s);
        assert(b@ =~= ascii(s@));
    }
    push_all(out, b);
}

/// Appends the JSON string literal of `s` to `out`.
pub fn push_json_string(out: &mut Vec<u8>, s: &str)
    ensures
        final(out)@ == old(out)@ + json_string_of(s@),
{
    let b = json_string_bytes(s);
    push_all(out, b.as_slice());
}

/// Appends the decimal digits of `n` to `out`.
pub fn push_decimal(out: &mut Vec<u8>, n: u64)
    ensures
        final(out)@ == old(out)@ + decimal(n as nat),
{
    let b = json_u64_bytes(n);
    push_all(out, b.as_slice());
}

impl BulkOp {
    fn push_header(out: &mut Vec<u8>, name: &str, index: &Option<String>, id: &String, version: u64)
        requires
            vstd::string::is_ascii(name),
        ensures
            final(out)@ == old(out)@ + header(name@, *index, *id, version),
    {
        proof {
            reveal_strlit("{\"");
            reveal_strlit("\":{\"_id\":");
            reveal_strlit(",\"_index\":");
            reveal_strlit("null");
            reveal_strlit(",\"version\":");
            reveal_strlit(",\"version_type\":\"external\"}}\n");
        }
        push_ascii(out, "{\"");
        push_ascii(out, name);
        push_ascii(out, "\":{\"_id\":");
        push_json_string(out, id.as_str());
        push_ascii(out, ",\"_index\":");
        match index {
            Some(i) => push_json_string(out, i.as_str()),
            None => push_ascii(out, "null"),
        }
        push_ascii(out, ",\"version\":");
        push_decimal(out, version);
        push_ascii(out, ",\"version_type\":\"external\"}}\n");
        assert(out@ =~= old(out)@ + header(name@, *index, *id, version));
    }

    /// Appends the lines of this operation to `out`.
    pub fn write(&self, out: &mut Vec<u8>)
        ensures
            final(out)@ == old(out)@ + bulk_op_bytes(*self),
    {
        proof {
            reveal_strlit("create");
            reveal_strlit("index");
            reveal_strlit("delete");
        }
        match self {
            BulkOp::Create { index, id, version, value } => {
                Self::push_header(out, "create", index, id, *version);
                push_all(out, value.as_slice());
                out.push(10);
            },
            BulkOp::Index { index, id, version, value } => {
                Self::push_header(out, "index", index, id, *version);
                push_all(out, value.as_slice());
                out.push(10);
            },
            BulkOp::Delete { index, id, version } => {
                Self::push_header(out, "delete", index, id, *version);
            },
        }
        assert(out@ =~= old(out)@ + bulk_op_bytes(*self));
    }
}

} // verus!
