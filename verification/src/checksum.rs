//! Content digests and the checks that rest on them.

use vstd::prelude::*;
use vstd::slice::*;
use crate::error::{ErrorKind, TransferError};
use crate::types::{Digest, same_digest};

verus! {

/// The SHA-1 digest of a byte sequence.
pub uninterp spec fn sha1_of(data: Seq<u8>) -> Seq<u8>;

/// Calls `sha1::Sha1::digest` (the `Digest` trait's one-shot function) on
/// `data` and copies the output array into a vector. Trusted: the result is
/// the SHA-1 digest of exactly the bytes of `data`.
#[verifier::external_body]
fn sha1_digest(data: &[u8]) -> (out: Vec<u8>)
    ensures
        out@ == sha1_of(data@),
{
    <sha1::Sha1 as sha1::Digest>::digest(data).to_vec()
}

/// The digest of `data`.
pub fn digest_of(data: &[u8]) -> (digest: Digest)
    ensures
        digest@ == sha1_of(data@),
{
    Digest { bytes: sha1_digest(data) }
}

/// Whether two optional digests agree: both absent, or both present with the
/// same bytes.
pub fn digests_agree(a: &Option<Digest>, b: &Option<Digest>) -> (r: bool)
    ensures
        r == same_digest(*a, *b),
{
    match (a, b) {
        (None, None) => true,
        (Some(x), Some(y)) => x.matches(y),
        _ => false,
    }
}

/// What a source looked like when the transfer was planned: the baseline
/// against which later drift is detected.
#[derive(Debug)]
pub struct ChecksumManager {
    pub size: u64,
    pub checksum: Option<Digest>,
}

impl ChecksumManager {
    /// Records the size and the checksum the source reported when it was
    /// opened.
    pub fn snapshot(size: u64, checksum: Option<Digest>) -> (manager: ChecksumManager)
        ensures
            manager.size == size,
            manager.checksum == checksum,
    {
        ChecksumManager { size, checksum }
    }

    /// The source is as it was: same size, same checksum.
    pub open spec fn unchanged(&self, current_size: u64, current_checksum: Option<Digest>) -> bool {
        self.size == current_size && same_digest(self.checksum, current_checksum)
    }

    /// Holds the source's current size and checksum against the snapshot.
    /// Any drift fails the transfer as `SourceMutated`.
    pub fn validate(&self, current_size: u64, current_checksum: &Option<Digest>) -> (r: Result<
        (),
        TransferError,
    >)
        ensures
            r is Ok <==> self.unchanged(current_size, *current_checksum),
            r matches Err(e) ==> e == (TransferError {
                kind: ErrorKind::SourceMutated,
                part_number: None,
            }),
    {
        if self.size == current_size && digests_agree(&self.checksum, current_checksum) {
            Ok(())
        } else {
            Err(TransferError::whole(ErrorKind::SourceMutated))
        }
    }

    /// Holds the digest the transport reported for a part against the one
    /// computed locally for the same byte range. A transport that reports no
    /// digest is taken at its word; a digest that differs fails the part as
    /// `PartChecksumMismatch`, which may be retried.
    pub fn verify_part(part_number: u32, local: &Digest, reported: &Option<Digest>) -> (r: Result<
        (),
        TransferError,
    >)
        ensures
            r is Ok <==> (reported matches Some(d) ==> d@ == local@),
            r matches Err(e) ==> e == (TransferError {
                kind: ErrorKind::PartChecksumMismatch,
                part_number: Some(part_number),
            }),
    {
        match reported {
            None => Ok(()),
            Some(digest) => {
                if digest.matches(local) {
                    Ok(())
                } else {
                    Err(TransferError::of_part(ErrorKind::PartChecksumMismatch, part_number))
                }
            },
        }
    }

    /// Computes the digest of the bytes read for a part and holds the digest
    /// the transport reported against it; answers with the local digest.
    pub fn check_part(part_number: u32, data: &[u8], reported: &Option<Digest>) -> (r: Result<
        Digest,
        TransferError,
    >)
        ensures
            r is Ok <==> (reported matches Some(d) ==> d@ == sha1_of(data@)),
            r matches Ok(local) ==> local@ == sha1_of(data@),
            r matches Err(e) ==> e == (TransferError {
                kind: ErrorKind::PartChecksumMismatch,
                part_number: Some(part_number),
            }),
    {
        let local = digest_of(data);
        match ChecksumManager::verify_part(part_number, &local, reported) {
            Ok(()) => Ok(local),
            Err(e) => Err(e),
        }
    }
}

} // verus!
