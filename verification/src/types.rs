//! Plain values shared by the components of the engine.

use vstd::prelude::*;
use crate::error::{ErrorKind, TransferError};

verus! {

/// Bounds on the number of bytes a source holds.
#[derive(Clone, Copy, Debug)]
pub struct SizeHint {
    lower_bound: u64,
    upper_bound: Option<u64>,
}

impl SizeHint {
    #[verifier::type_invariant]
    spec fn ordered(self) -> bool {
        self.upper_bound matches Some(upper) ==> self.lower_bound <= upper
    }

    /// The least number of bytes the source holds.
    pub closed spec fn spec_lower(self) -> u64 {
        self.lower_bound
    }

    /// The greatest number of bytes the source holds, where one is known.
    pub closed spec fn spec_upper(self) -> Option<u64> {
        self.upper_bound
    }

    /// A hint for a source of exactly `size` bytes.
    pub fn exact(size: u64) -> (hint: SizeHint)
        ensures
            hint.spec_lower() == size,
            hint.spec_upper() == Some(size),
    {
        SizeHint { lower_bound: size, upper_bound: Some(size) }
    }

    /// A hint for a source of at least `lower_bound` bytes and no known end.
    pub fn at_least(lower_bound: u64) -> (hint: SizeHint)
        ensures
            hint.spec_lower() == lower_bound,
            hint.spec_upper() == None::<u64>,
    {
        SizeHint { lower_bound, upper_bound: None }
    }

    /// A hint for a source of `lower_bound` to `upper_bound` bytes; refused
    /// as `InvalidConfiguration` where the bounds are out of order.
    pub fn bounded(lower_bound: u64, upper_bound: u64) -> (r: Result<SizeHint, TransferError>)
        ensures
            lower_bound <= upper_bound ==> r is Ok && r->Ok_0.spec_lower() == lower_bound
                && r->Ok_0.spec_upper() == Some(upper_bound),
            lower_bound > upper_bound ==> r == Err::<SizeHint, TransferError>(
                TransferError { kind: ErrorKind::InvalidConfiguration, part_number: None },
            ),
    {
        if lower_bound <= upper_bound {
            Ok(SizeHint { lower_bound, upper_bound: Some(upper_bound) })
        } else {
            Err(TransferError::whole(ErrorKind::InvalidConfiguration))
        }
    }

    /// The lower bound.
    pub fn lower(&self) -> (r: u64)
        ensures
            r == self.spec_lower(),
            self.spec_upper() matches Some(upper) ==> r <= upper,
    {
        proof {
            use_type_invariant(self);
        }
        self.lower_bound
    }

    /// The upper bound, where one is known.
    pub fn upper(&self) -> (r: Option<u64>)
        ensures
            r == self.spec_upper(),
    {
        self.upper_bound
    }
}

/// A content digest: the bytes a hash function produced.
#[derive(Debug)]
pub struct Digest {
    pub bytes: Vec<u8>,
}

impl View for Digest {
    type V = Seq<u8>;

    open spec fn view(&self) -> Seq<u8> {
        self.bytes@
    }
}

impl Clone for Digest {
    fn clone(&self) -> (r: Digest)
        ensures
            r@ == self@,
    {
        let bytes = self.bytes.clone();
        assert(bytes@ =~= self.bytes@);
        Digest { bytes }
    }
}

impl Digest {
    /// Whether two digests hold the same bytes.
    pub fn matches(&self, other: &Digest) -> (r: bool)
        ensures
            r == (self@ == other@),
    {
        if self.bytes.len() != other.bytes.len() {
            return false;
        }
        let mut index: usize = 0;
        while index < self.bytes.len()
            invariant
                index <= self.bytes.len(),
                self.bytes.len() == other.bytes.len(),
                forall|k: int| 0 <= k < index ==> self.bytes@[k] == other.bytes@[k],
            decreases self.bytes.len() - index,
        {
            if self.bytes[index] != other.bytes[index] {
                return false;
            }
            index = index + 1;
        }
        assert(self@ =~= other@);
        true
    }
}

/// Two optional digests agree when both are absent or both hold the same bytes.
pub open spec fn same_digest(a: Option<Digest>, b: Option<Digest>) -> bool {
    match (a, b) {
        (None, None) => true,
        (Some(x), Some(y)) => x@ == y@,
        _ => false,
    }
}

/// What the transport reported for one part that was moved.
#[derive(Debug)]
pub struct PartResult {
    pub part_number: u32,
    /// The opaque token the remote side gave the part.
    pub remote_identifier: String,
    /// The digest of the part's bytes, where one was computed.
    pub checksum: Option<Digest>,
    pub bytes_transferred: u64,
}

} // verus!
