//! Part jobs: one attempt at moving one part.

use vstd::prelude::*;
use crate::error::{ErrorKind, TransferError};
use crate::planner::PartSpec;
use crate::scheduler::Action;
use crate::stream::{InputStream, RangeReader, SourceDescriptor, bytes_content};

verus! {

/// One attempt at moving one part: the part, the number of the attempt, and
/// a reader of the part's bytes that no other attempt has read from.
#[derive(Debug)]
pub struct PartJob {
    pub spec: PartSpec,
    pub attempt: u32,
    pub reader: RangeReader,
}

/// The reader is a fresh one for exactly the part's range of the stream.
pub open spec fn reads_part(reader: RangeReader, stream: InputStream, spec: PartSpec) -> bool {
    &&& reader.coherent()
    &&& reader.spec_length() == spec.length
    &&& reader.spec_position() == 0
    &&& match stream.descriptor() {
        SourceDescriptor::InMemoryBuffer { bytes } => reader.spec_start() == spec.offset
            && reader.spec_bytes() == Some(
            bytes_content(bytes).subrange(spec.offset as int, spec.offset + spec.length),
        ),
        SourceDescriptor::FileRegion { start_offset, .. } => reader.spec_start() == start_offset
            + spec.offset && reader.spec_bytes() is None,
    }
}

impl PartJob {
    /// Makes the job for the `attempt`-th attempt at `spec`, with a fresh
    /// reader at the part's range. A part that does not lie within the
    /// stream cannot be read: the job fails as `SourceUnreadable`.
    pub fn create(stream: &InputStream, spec: PartSpec, attempt: u32) -> (r: Result<
        PartJob,
        TransferError,
    >)
        ensures
            r is Ok <==> spec.offset + spec.length <= stream.spec_length(),
            r matches Ok(job) ==> job.spec == spec && job.attempt == attempt && reads_part(
                job.reader,
                *stream,
                spec,
            ),
            r matches Err(e) ==> e == (TransferError {
                kind: ErrorKind::SourceUnreadable,
                part_number: Some(spec.part_number),
            }),
    {
        match stream.read_range(spec.offset, spec.length) {
            Some(reader) => Ok(PartJob { spec, attempt, reader }),
            None => Err(TransferError::of_part(ErrorKind::SourceUnreadable, spec.part_number)),
        }
    }

    /// Makes the job a submission asks for; any other action asks for none.
    pub fn for_action(stream: &InputStream, action: Action) -> (r: Option<
        Result<PartJob, TransferError>,
    >)
        ensures
            r is Some <==> action is Dispatch,
            action matches Action::Dispatch { part, attempt } ==> {
                &&& r->Some_0 is Ok <==> part.offset + part.length <= stream.spec_length()
                &&& r->Some_0 matches Ok(job) ==> job.spec == part && job.attempt == attempt
                    && reads_part(job.reader, *stream, part)
                &&& r->Some_0 matches Err(e) ==> e == (TransferError {
                    kind: ErrorKind::SourceUnreadable,
                    part_number: Some(part.part_number),
                })
            },
    {
        match action {
            Action::Dispatch { part, attempt } => Some(PartJob::create(stream, part, attempt)),
            _ => None,
        }
    }
}

} // verus!
