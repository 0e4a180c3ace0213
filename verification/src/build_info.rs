//! The build stamp shown on the chat page: the build date and the short
//! digests of the back end's and the front end's commits.

use vstd::prelude::*;
use vstd::slice::slice_subrange;
use crate::bytes::append_bytes;

verus! {

/// The byte `.`.
pub const DOT: u8 = 46;

/// The byte `-`.
pub const DASH: u8 = 45;

/// The date part of an RFC 3339 timestamp: its first ten bytes.
pub open spec fn date_of(timestamp: Seq<u8>) -> Seq<u8> {
    timestamp.take(10)
}

/// The first `n` bytes of each commit hash, joined by `-`.
pub open spec fn digest_of(git_hash: Seq<u8>, front_hash: Seq<u8>, n: int) -> Seq<u8> {
    git_hash.take(n) + seq![DASH] + front_hash.take(n)
}

/// The stamp `date.digest` that the chat page shows.
pub open spec fn build_label_of(timestamp: Seq<u8>, git_hash: Seq<u8>, front_hash: Seq<u8>) -> Seq<u8> {
    date_of(timestamp) + seq![DOT] + digest_of(git_hash, front_hash, 4)
}

/// The build stamp is laid out as the first ten bytes of the timestamp, a
/// `.`, the first four bytes of the back end's commit hash, a `-`, and the
/// first four bytes of the front end's commit hash.
pub proof fn lemma_build_stamp_layout(timestamp: Seq<u8>, git_hash: Seq<u8>, front_hash: Seq<u8>)
    requires
        timestamp.len() >= 10,
        git_hash.len() >= 4,
        front_hash.len() >= 4,
    ensures
        build_label_of(timestamp, git_hash, front_hash).len() == 20,
        forall|i: int| 0 <= i < 10 ==> #[trigger] build_label_of(timestamp, git_hash, front_hash)[i] == timestamp[i],
        build_label_of(timestamp, git_hash, front_hash)[10] == 46,
        forall|i: int| 0 <= i < 4 ==> #[trigger] build_label_of(timestamp, git_hash, front_hash)[11 + i] == git_hash[i],
        build_label_of(timestamp, git_hash, front_hash)[15] == 45,
        forall|i: int| 0 <= i < 4 ==> #[trigger] build_label_of(timestamp, git_hash, front_hash)[16 + i] == front_hash[i],
{
}

/// The build date: the first ten bytes of the build timestamp.
pub fn date(timestamp: &[u8]) -> (r: Vec<u8>)
    requires
        timestamp@.len() >= 10,
    ensures
        r@ == date_of(timestamp@),
{
    let mut r: Vec<u8> = Vec::new();
    append_bytes(&mut r, slice_subrange(timestamp, 0, 10));
    assert(r@ =~= date_of(timestamp@));
    r
}

fn short_digest(git_hash: &[u8], front_hash: &[u8], n: usize) -> (r: Vec<u8>)
    requires
        git_hash@.len() >= n,
        front_hash@.len() >= n,
    ensures
        r@ == digest_of(git_hash@, front_hash@, n as int),
{
    let mut r: Vec<u8> = Vec::new();
    append_bytes(&mut r, slice_subrange(git_hash, 0, n));
    r.push(DASH);
    append_bytes(&mut r, slice_subrange(front_hash, 0, n));
    assert(r@ =~= digest_of(git_hash@, front_hash@, n as int));
    r
}

/// The short digest: four bytes of each commit hash, joined by `-`.
pub fn digest(git_hash: &[u8], front_hash: &[u8]) -> (r: Vec<u8>)
    requires
        git_hash@.len() >= 4,
        front_hash@.len() >= 4,
    ensures
        r@ == digest_of(git_hash@, front_hash@, 4),
{
    short_digest(git_hash, front_hash, 4)
}

/// The longer digest: eight bytes of each commit hash, joined by `-`.
pub fn digest2(git_hash: &[u8], front_hash: &[u8]) -> (r: Vec<u8>)
    requires
        git_hash@.len() >= 8,
        front_hash@.len() >= 8,
    ensures
        r@ == digest_of(git_hash@, front_hash@, 8),
{
    short_digest(git_hash, front_hash, 8)
}

/// The stamp `date.digest` that the chat page shows.
pub fn build_label(timestamp: &[u8], git_hash: &[u8], front_hash: &[u8]) -> (r: Vec<u8>)
    requires
        timestamp@.len() >= 10,
        git_hash@.len() >= 4,
        front_hash@.len() >= 4,
    ensures
        r@ == build_label_of(timestamp@, git_hash@, front_hash@),
{
    let mut r = date(timestamp);
    r.push(DOT);
    let d = digest(git_hash, front_hash);
    append_bytes(&mut r, d.as_slice());
    r
}

} // verus!
