//! Fresh identifiers.
use vstd::prelude::*;

use crate::text;

verus! {

/// A lower-case hexadecimal digit.
pub open spec fn is_hex(c: char) -> bool {
    '0' <= c <= '9' || 'a' <= c <= 'f'
}

/// A random identifier in its simple form: 32 hexadecimal digits.
pub open spec fn is_simple_uuid(s: Seq<char>) -> bool {
    s.len() == 32 && forall|i: int| 0 <= i < s.len() ==> is_hex(#[trigger] s[i])
}

/// `uuid::Uuid::new_v4`, written by `simple`: 32 lower-case hexadecimal digits. Which ones
/// they are is left to chance.
#[verifier::external_body]
pub(crate) fn new_uuid() -> (r: String)
    ensures
        is_simple_uuid(r@),
{
    uuid::Uuid::new_v4().simple().to_string()
}

/// `n` random identifiers.
pub open spec fn are_uuids(ids: Seq<Seq<char>>, n: nat) -> bool {
    ids.len() == n && forall|i: int| 0 <= i < ids.len() ==> is_simple_uuid(#[trigger] ids[i])
}

/// A random identifier.
pub fn fresh_id() -> (r: String)
    ensures
        is_simple_uuid(r@),
{
    new_uuid()
}

/// `n` random identifiers.
pub fn fresh_ids(n: usize) -> (r: Vec<String>)
    ensures
        are_uuids(text::texts(r@), n as nat),
{
    let mut out: Vec<String> = Vec::new();
    let mut i: usize = 0;
    while i < n
        invariant
            i <= n,
            are_uuids(text::texts(out@), i as nat),
        decreases n - i,
    {
        let id = new_uuid();
        proof {
            text::texts_push(out@, id);
        }
        out.push(id);
        i = i + 1;
    }
    out
}

} // verus!
