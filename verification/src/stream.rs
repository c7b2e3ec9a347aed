//! Sources of binary data: an in-memory buffer or a region of a file.

use vstd::prelude::*;
use vstd::slice::*;
use bytes::Bytes;
use crate::checksum::{digest_of, sha1_of};
use crate::error::{ErrorKind, TransferError};
use crate::types::{Digest, SizeHint};

verus! {

/// `bytes::Bytes`: a cheaply cloneable handle to a stretch of memory. Nothing
/// is known of a value but what `bytes_content` names.
#[verifier::external_type_specification]
#[verifier::external_body]
pub struct ExBytes(bytes::Bytes);

/// The bytes a `Bytes` handle gives access to.
pub uninterp spec fn bytes_content(buffer: Bytes) -> Seq<u8>;

/// `Bytes::new`: an empty handle.
pub assume_specification[ Bytes::new ]() -> (buffer: Bytes)
    ensures
        bytes_content(buffer) == Seq::<u8>::empty(),
;

/// `Bytes::from_static`: a handle that points at the static slice itself.
pub assume_specification[ Bytes::from_static ](bytes: &'static [u8]) -> (buffer: Bytes)
    ensures
        bytes_content(buffer) == bytes@,
;

/// `Bytes::len`: the number of bytes the handle gives access to.
pub assume_specification[ Bytes::len ](buffer: &Bytes) -> (len: usize)
    ensures
        len == bytes_content(*buffer).len(),
;

/// `Bytes::slice` with a half-open range: a handle to the bytes from `begin`
/// up to `end` of the same memory. The outside function panics unless
/// `begin <= end <= len`.
#[verifier::external_body]
fn bytes_slice(buffer: &Bytes, begin: usize, end: usize) -> (part: Bytes)
    requires
        begin <= end <= bytes_content(*buffer).len(),
    ensures
        bytes_content(part) == bytes_content(*buffer).subrange(begin as int, end as int),
{
    buffer.slice(begin..end)
}

/// `Bytes::from(Vec<u8>)`: a handle that takes over the vector's bytes.
#[verifier::external_body]
fn bytes_from_vec(data: Vec<u8>) -> (buffer: Bytes)
    ensures
        bytes_content(buffer) == data@,
{
    Bytes::from(data)
}

/// `Bytes::as_ref`: the handle's bytes as a slice.
#[verifier::external_body]
fn bytes_as_slice(buffer: &Bytes) -> (slice: &[u8])
    ensures
        slice@ == bytes_content(*buffer),
{
    buffer.as_ref()
}

/// Where the bytes of a transfer come from.
#[derive(Debug)]
pub enum SourceDescriptor {
    /// Bytes held in memory.
    InMemoryBuffer { bytes: Bytes },
    /// A region of a file: from `start_offset`, for `explicit_length` bytes
    /// where given, else to the end of the file.
    FileRegion { path: String, start_offset: u64, explicit_length: Option<u64> },
}

/// Source of binary data, opened: its length is fixed and its checksum, where
/// it has one, is the one taken when it was opened.
#[derive(Debug)]
pub struct InputStream {
    inner: SourceDescriptor,
    length: u64,
    checksum: Option<Digest>,
}

/// The length of a file region: the explicit length where one was given,
/// else what the file holds past the start offset.
pub open spec fn region_length(
    start_offset: u64,
    explicit_length: Option<u64>,
    probed_size: Option<u64>,
) -> Option<u64> {
    match explicit_length {
        Some(length) => if start_offset + length <= u64::MAX {
            Some(length)
        } else {
            None
        },
        None => match probed_size {
            Some(size) => if start_offset <= size {
                Some((size - start_offset) as u64)
            } else {
                None
            },
            None => None,
        },
    }
}

impl InputStream {
    #[verifier::type_invariant]
    spec fn well_formed(&self) -> bool {
        self.coherent()
    }

    /// What the stream reads from.
    pub closed spec fn descriptor(&self) -> SourceDescriptor {
        self.inner
    }

    /// The number of bytes the stream holds.
    pub closed spec fn spec_length(&self) -> u64 {
        self.length
    }

    /// The checksum taken when the stream was opened.
    pub closed spec fn spec_checksum(&self) -> Option<Digest> {
        self.checksum
    }

    /// What holds of every stream: a buffer's length and checksum are those
    /// of its bytes, a file region ends within the range of offsets and has
    /// the explicit length where one was given.
    pub open spec fn coherent(&self) -> bool {
        match self.descriptor() {
            SourceDescriptor::InMemoryBuffer { bytes } => {
                &&& self.spec_length() == bytes_content(bytes).len()
                &&& self.spec_checksum() matches Some(digest) && digest@ == sha1_of(
                    bytes_content(bytes),
                )
            },
            SourceDescriptor::FileRegion { start_offset, explicit_length, .. } => {
                &&& start_offset + self.spec_length() <= u64::MAX
                &&& explicit_length matches Some(length) ==> self.spec_length() == length
            },
        }
    }

    /// Opens a buffer: its length is exact and its checksum is taken in one
    /// pass over all of it.
    pub fn from_bytes(bytes: Bytes) -> (stream: InputStream)
        ensures
            stream.descriptor() == (SourceDescriptor::InMemoryBuffer { bytes }),
            stream.spec_length() == bytes_content(bytes).len(),
            stream.coherent(),
    {
        let len = bytes.len();
        let checksum = digest_of(bytes_as_slice(&bytes));
        InputStream {
            inner: SourceDescriptor::InMemoryBuffer { bytes },
            length: len as u64,
            checksum: Some(checksum),
        }
    }

    /// Create a new `InputStream` from a static byte slice.
    pub fn from_static(bytes: &'static [u8]) -> (stream: InputStream)
        ensures
            stream.coherent(),
            stream.spec_length() == bytes@.len(),
            stream.descriptor() matches SourceDescriptor::InMemoryBuffer { bytes: held }
                && bytes_content(held) == bytes@,
    {
        InputStream::from_bytes(Bytes::from_static(bytes))
    }

    /// Create a new `InputStream` that takes over the bytes of a vector.
    pub fn from_vec(data: Vec<u8>) -> (stream: InputStream)
        ensures
            stream.coherent(),
            stream.spec_length() == data@.len(),
            stream.descriptor() matches SourceDescriptor::InMemoryBuffer { bytes: held }
                && bytes_content(held) == data@,
    {
        InputStream::from_bytes(bytes_from_vec(data))
    }

    /// Return the bounds on the length of the `InputStream`: always exact.
    pub fn size_hint(&self) -> (hint: SizeHint)
        ensures
            hint.spec_lower() == self.spec_length(),
            hint.spec_upper() == Some(self.spec_length()),
    {
        SizeHint::exact(self.length)
    }

    /// The number of bytes the stream holds.
    pub fn length(&self) -> (r: u64)
        ensures
            r == self.spec_length(),
            self.coherent(),
    {
        proof {
            use_type_invariant(self);
        }
        self.length
    }

    /// The checksum taken when the stream was opened, if one was.
    pub fn checksum(&self) -> (r: &Option<Digest>)
        ensures
            *r == self.spec_checksum(),
            self.coherent(),
    {
        proof {
            use_type_invariant(self);
        }
        &self.checksum
    }

    /// Returns a [`PathBodyBuilder`], allowing you to build an `InputStream`
    /// with full control over how the file is read (the length of the region
    /// or the offset to start reading from).
    pub fn read_from() -> (builder: PathBodyBuilder)
        ensures
            builder == (PathBodyBuilder { path: None, offset: None, length: None }),
    {
        PathBodyBuilder::new()
    }

    /// Create a new `InputStream` that reads the file at `path` from its
    /// start to its end. `probed_size` is what the file system reported as
    /// the file's size, `None` where it could not be asked; `checksum` is the
    /// digest of the file's bytes, where one was taken.
    ///
    /// The contents of the file must not change: its length and checksum are
    /// cached here, and a transfer fails once they no longer hold.
    pub fn from_path(path: String, probed_size: Option<u64>, checksum: Option<Digest>) -> (r: Result<
        InputStream,
        TransferError,
    >)
        ensures
            r is Ok <==> probed_size is Some,
            r matches Ok(stream) ==> stream.coherent() && stream.descriptor() == (
            SourceDescriptor::FileRegion { path, start_offset: 0, explicit_length: None })
                && stream.spec_length() == probed_size->Some_0 && stream.spec_checksum()
                == checksum,
            r matches Err(e) ==> e == (TransferError {
                kind: ErrorKind::SourceUnreadable,
                part_number: None,
            }),
    {
        InputStream::read_from().path(path).build(probed_size, checksum)
    }
}

impl Default for InputStream {
    /// An empty in-memory stream.
    fn default() -> (stream: InputStream)
        ensures
            stream.coherent(),
            stream.spec_length() == 0,
            stream.descriptor() matches SourceDescriptor::InMemoryBuffer { bytes: held }
                && bytes_content(held) == Seq::<u8>::empty(),
    {
        InputStream::from_bytes(Bytes::new())
    }
}

/// Describes the region of a file to read.
#[derive(Debug)]
pub struct PathBodyBuilder {
    pub path: Option<String>,
    pub offset: Option<u64>,
    pub length: Option<u64>,
}

impl PathBodyBuilder {
    /// A builder with nothing set.
    pub fn new() -> (builder: PathBodyBuilder)
        ensures
            builder == (PathBodyBuilder { path: None, offset: None, length: None }),
    {
        PathBodyBuilder { path: None, offset: None, length: None }
    }

    /// Sets the path to read from.
    pub fn path(self, path: String) -> (builder: PathBodyBuilder)
        ensures
            builder == (PathBodyBuilder { path: Some(path), ..self }),
    {
        PathBodyBuilder { path: Some(path), offset: self.offset, length: self.length }
    }

    /// Sets the offset to start reading from; zero where it is not set.
    pub fn offset(self, offset: u64) -> (builder: PathBodyBuilder)
        ensures
            builder == (PathBodyBuilder { offset: Some(offset), ..self }),
    {
        PathBodyBuilder { path: self.path, offset: Some(offset), length: self.length }
    }

    /// Sets the number of bytes to read. With the length given, the file
    /// system is not asked for the file's size.
    pub fn length(self, length: u64) -> (builder: PathBodyBuilder)
        ensures
            builder == (PathBodyBuilder { length: Some(length), ..self }),
    {
        PathBodyBuilder { path: self.path, offset: self.offset, length: Some(length) }
    }

    /// The offset the region starts at.
    pub open spec fn start_offset(&self) -> u64 {
        match self.offset {
            Some(offset) => offset,
            None => 0,
        }
    }

    /// Whether the file system has to be asked for the file's size before
    /// `build`: only where no length was given.
    pub fn needs_probe(&self) -> (r: bool)
        ensures
            r == (self.length is None),
    {
        self.length.is_none()
    }

    /// Opens the region. `probed_size` is what the file system reported as
    /// the file's size, `None` where it was not or could not be asked; it is
    /// not looked at where a length was given. `checksum` is the digest of
    /// the region's bytes, where one was taken.
    ///
    /// Without a path the builder is refused as `InvalidConfiguration`. A
    /// region whose length cannot be told, that starts past the end of the
    /// file, or that ends past the largest offset is `SourceUnreadable`.
    pub fn build(self, probed_size: Option<u64>, checksum: Option<Digest>) -> (r: Result<
        InputStream,
        TransferError,
    >)
        ensures
            r is Ok <==> self.path is Some && region_length(
                self.start_offset(),
                self.length,
                probed_size,
            ) is Some,
            r matches Ok(stream) ==> stream.coherent() && stream.descriptor() == (
            SourceDescriptor::FileRegion {
                path: self.path->Some_0,
                start_offset: self.start_offset(),
                explicit_length: self.length,
            }) && Some(stream.spec_length()) == region_length(
                self.start_offset(),
                self.length,
                probed_size,
            ) && stream.spec_checksum() == checksum,
            r matches Err(e) ==> e == (TransferError {
                kind: if self.path is None {
                    ErrorKind::InvalidConfiguration
                } else {
                    ErrorKind::SourceUnreadable
                },
                part_number: None,
            }),
    {
        let start_offset: u64 = match self.offset {
            Some(offset) => offset,
            None => 0,
        };
        let path = match self.path {
            Some(path) => path,
            None => {
                return Err(TransferError::whole(ErrorKind::InvalidConfiguration));
            },
        };
        let length: u64 = match self.length {
            Some(length) => {
                if length > u64::MAX - start_offset {
                    return Err(TransferError::whole(ErrorKind::SourceUnreadable));
                }
                length
            },
            None => match probed_size {
                Some(size) => {
                    if start_offset > size {
                        return Err(TransferError::whole(ErrorKind::SourceUnreadable));
                    }
                    size - start_offset
                },
                None => {
                    return Err(TransferError::whole(ErrorKind::SourceUnreadable));
                },
            },
        };
        Ok(
            InputStream {
                inner: SourceDescriptor::FileRegion {
                    path,
                    start_offset,
                    explicit_length: self.length,
                },
                length,
                checksum,
            },
        )
    }
}

/// A stretch of a source to read next: where it starts and how long it is.
#[derive(Clone, Copy, Debug, PartialEq, Eq, Structural)]
pub struct Chunk {
    pub offset: u64,
    pub length: u64,
}

/// A bounded, restartable view of one byte range of a source, made once per
/// attempt of a part.
#[derive(Debug)]
pub struct RangeReader {
    start: u64,
    length: u64,
    position: u64,
    buffer: Option<Bytes>,
}

impl RangeReader {
    #[verifier::type_invariant]
    spec fn well_formed(&self) -> bool {
        self.coherent()
    }

    /// Where the range starts: for a file, the offset within the file; for a
    /// buffer, the offset within the buffer.
    pub closed spec fn spec_start(&self) -> u64 {
        self.start
    }

    /// The number of bytes in the range.
    pub closed spec fn spec_length(&self) -> u64 {
        self.length
    }

    /// The number of bytes of the range that were handed out.
    pub closed spec fn spec_position(&self) -> u64 {
        self.position
    }

    /// For a buffer, the bytes of the range; for a file, nothing.
    pub closed spec fn spec_bytes(&self) -> Option<Seq<u8>> {
        match self.buffer {
            Some(bytes) => Some(bytes_content(bytes)),
            None => None,
        }
    }

    /// What holds of every reader: it has handed out no more than its range
    /// holds, the range ends within the range of offsets, and a buffer's view
    /// is as long as the range.
    pub open spec fn coherent(&self) -> bool {
        &&& self.spec_position() <= self.spec_length()
        &&& self.spec_start() + self.spec_length() <= u64::MAX
        &&& self.spec_bytes() matches Some(bytes) ==> bytes.len() == self.spec_length()
    }

    /// The number of bytes of the range still to read.
    pub fn remaining(&self) -> (r: u64)
        ensures
            r == self.spec_length() - self.spec_position(),
            self.coherent(),
    {
        proof {
            use_type_invariant(self);
        }
        self.length - self.position
    }

    /// Where the range starts.
    pub fn start(&self) -> (r: u64)
        ensures
            r == self.spec_start(),
    {
        self.start
    }

    /// The number of bytes in the range.
    pub fn length(&self) -> (r: u64)
        ensures
            r == self.spec_length(),
    {
        self.length
    }

    /// Starts over at the beginning of the range, as a retry does.
    pub fn rewind(&mut self)
        ensures
            final(self).spec_position() == 0,
            final(self).spec_start() == old(self).spec_start(),
            final(self).spec_length() == old(self).spec_length(),
            final(self).spec_bytes() == old(self).spec_bytes(),
    {
        proof {
            use_type_invariant(&*self);
        }
        self.position = 0;
    }

    /// The next stretch to read, of at most `max` bytes, and never past the
    /// end of the range. The reader moves on by the stretch's length.
    pub fn next_chunk(&mut self, max: u64) -> (chunk: Chunk)
        ensures
            chunk.offset == old(self).spec_start() + old(self).spec_position(),
            chunk.length == (if max <= old(self).spec_length() - old(self).spec_position() {
                max as int
            } else {
                old(self).spec_length() - old(self).spec_position()
            }),
            chunk.offset + chunk.length <= old(self).spec_start() + old(self).spec_length(),
            final(self).spec_position() == old(self).spec_position() + chunk.length,
            final(self).spec_start() == old(self).spec_start(),
            final(self).spec_length() == old(self).spec_length(),
            final(self).spec_bytes() == old(self).spec_bytes(),
    {
        proof {
            use_type_invariant(&*self);
        }
        let left: u64 = self.length - self.position;
        let length: u64 = if max <= left {
            max
        } else {
            left
        };
        let offset: u64 = self.start + self.position;
        self.position = self.position + length;
        Chunk { offset, length }
    }

    /// For a buffer, the next stretch of at most `max` bytes as a view of the
    /// same memory; the reader moves on by its length. For a file, nothing:
    /// the driver reads the stretch `next_chunk` names.
    pub fn read(&mut self, max: usize) -> (r: Option<Bytes>)
        ensures
            r is Some <==> old(self).spec_bytes() is Some,
            r matches Some(bytes) ==> {
                let from = old(self).spec_position() as int;
                let left = old(self).spec_length() - old(self).spec_position();
                let taken = if max <= left {
                    max as int
                } else {
                    left
                };
                &&& bytes_content(bytes) == old(self).spec_bytes()->Some_0.subrange(
                    from,
                    from + taken,
                )
                &&& final(self).spec_position() == from + taken
            },
            r is None ==> final(self).spec_position() == old(self).spec_position(),
            final(self).spec_start() == old(self).spec_start(),
            final(self).spec_length() == old(self).spec_length(),
            final(self).spec_bytes() == old(self).spec_bytes(),
    {
        proof {
            use_type_invariant(&*self);
        }
        let left: u64 = self.length - self.position;
        let taken: u64 = if max as u64 <= left {
            max as u64
        } else {
            left
        };
        let part = match &self.buffer {
            Some(bytes) => {
                let held: usize = bytes.len();
                let from: usize = self.position as usize;
                let to: usize = (self.position + taken) as usize;
                Some(bytes_slice(bytes, from, to))
            },
            None => None,
        };
        if part.is_some() {
            self.position = self.position + taken;
        }
        part
    }
}

impl InputStream {
    /// A reader for `length` bytes from `offset` of the stream, where the
    /// stream holds that range. For a buffer the reader views the buffer's
    /// memory; for a file region it names offsets within the file.
    pub fn read_range(&self, offset: u64, length: u64) -> (r: Option<RangeReader>)
        ensures
            r is Some <==> offset + length <= self.spec_length(),
            r matches Some(reader) ==> {
                &&& reader.coherent()
                &&& reader.spec_length() == length
                &&& reader.spec_position() == 0
                &&& match self.descriptor() {
                    SourceDescriptor::InMemoryBuffer { bytes } => reader.spec_start() == offset
                        && reader.spec_bytes() == Some(
                        bytes_content(bytes).subrange(offset as int, offset + length),
                    ),
                    SourceDescriptor::FileRegion { start_offset, .. } => reader.spec_start()
                        == start_offset + offset && reader.spec_bytes() is None,
                }
            },
    {
        proof {
            use_type_invariant(self);
        }
        if offset > self.length || length > self.length - offset {
            return None;
        }
        match &self.inner {
            SourceDescriptor::InMemoryBuffer { bytes } => {
                let held: usize = bytes.len();
                let view = bytes_slice(bytes, offset as usize, (offset + length) as usize);
                Some(RangeReader { start: offset, length, position: 0, buffer: Some(view) })
            },
            SourceDescriptor::FileRegion { start_offset, .. } => {
                Some(
                    RangeReader {
                        start: *start_offset + offset,
                        length,
                        position: 0,
                        buffer: None,
                    },
                )
            },
        }
    }
}

} // verus!
