use transfer_manager::checksum::{digest_of, digests_agree, ChecksumManager};
use transfer_manager::error::{ErrorKind, TransferError};
use transfer_manager::stream::{Chunk, InputStream, PathBodyBuilder};
use transfer_manager::types::{Digest, SizeHint};

fn hex(bytes: &[u8]) -> String {
    bytes.iter().map(|b| format!("{b:02x}")).collect()
}

fn whole(kind: ErrorKind) -> TransferError {
    TransferError { kind, part_number: None }
}

#[test]
fn digest_is_sha1() {
    assert_eq!(hex(&digest_of(b"").bytes), "da39a3ee5e6b4b0d3255bfef95601890afd80709");
    assert_eq!(hex(&digest_of(b"abc").bytes), "a9993e364706816aba3e25717850c26c9cd0d89d");
    assert_eq!(
        hex(&digest_of(b"hello world").bytes),
        "2aae6c35c94fcfb415dbe95f408b9ce91ee846ed"
    );
}

#[test]
fn static_buffer_has_exact_size_and_checksum_of_all_its_bytes() {
    let stream = InputStream::from_static(b"hello world");
    assert_eq!(stream.length(), 11);
    let hint = stream.size_hint();
    assert_eq!(hint.lower(), 11);
    assert_eq!(hint.upper(), Some(11));
    let checksum = stream.checksum().as_ref().unwrap();
    assert_eq!(hex(&checksum.bytes), "2aae6c35c94fcfb415dbe95f408b9ce91ee846ed");
}

#[test]
fn vector_and_bytes_buffers_open_like_static_ones() {
    let from_vec = InputStream::from_vec(b"abc".to_vec());
    assert_eq!(from_vec.length(), 3);
    assert_eq!(
        hex(&from_vec.checksum().as_ref().unwrap().bytes),
        "a9993e364706816aba3e25717850c26c9cd0d89d"
    );
    let from_bytes = InputStream::from_bytes(bytes::Bytes::from_static(b"abc"));
    assert!(digests_agree(from_vec.checksum(), from_bytes.checksum()));
    let mut reader = from_vec.read_range(1, 2).unwrap();
    assert_eq!(&reader.read(8).unwrap()[..], b"bc");
}

#[test]
fn default_stream_is_empty() {
    let stream = InputStream::default();
    assert_eq!(stream.length(), 0);
    assert_eq!(stream.size_hint().upper(), Some(0));
    assert_eq!(
        hex(&stream.checksum().as_ref().unwrap().bytes),
        "da39a3ee5e6b4b0d3255bfef95601890afd80709"
    );
    let mut reader = stream.read_range(0, 0).unwrap();
    assert_eq!(reader.remaining(), 0);
    assert_eq!(&reader.read(4).unwrap()[..], b"");
}

#[test]
fn buffer_reader_views_exactly_its_range() {
    let stream = InputStream::from_static(b"hello world");
    let mut reader = stream.read_range(6, 5).unwrap();
    assert_eq!(reader.start(), 6);
    assert_eq!(reader.length(), 5);
    assert_eq!(reader.remaining(), 5);
    assert_eq!(&reader.read(3).unwrap()[..], b"wor");
    assert_eq!(reader.remaining(), 2);
    // Asking for more than is left never reads past the range.
    assert_eq!(&reader.read(100).unwrap()[..], b"ld");
    assert_eq!(reader.remaining(), 0);
    assert_eq!(&reader.read(100).unwrap()[..], b"");
}

#[test]
fn rewound_reader_reads_the_same_bytes_again() {
    let stream = InputStream::from_static(b"hello world");
    let mut reader = stream.read_range(0, 5).unwrap();
    let first = reader.read(5).unwrap();
    reader.rewind();
    assert_eq!(reader.remaining(), 5);
    let second = reader.read(5).unwrap();
    assert_eq!(first, second);
    assert_eq!(&second[..], b"hello");
}

#[test]
fn ranges_outside_the_stream_give_no_reader() {
    let stream = InputStream::from_static(b"hello world");
    assert!(stream.read_range(0, 11).is_some());
    assert!(stream.read_range(11, 0).is_some());
    assert!(stream.read_range(0, 12).is_none());
    assert!(stream.read_range(12, 0).is_none());
    assert!(stream.read_range(6, 6).is_none());
    assert!(stream.read_range(u64::MAX, 1).is_none());
    assert!(stream.read_range(1, u64::MAX).is_none());
}

#[test]
fn file_reader_names_chunks_within_its_range() {
    let stream = InputStream::read_from()
        .path("docs/some-large-file.csv".to_owned())
        .offset(1000)
        .length(123_456)
        .build(None, None)
        .unwrap();
    assert_eq!(stream.length(), 123_456);
    assert!(stream.checksum().is_none());
    let mut reader = stream.read_range(100, 250).unwrap();
    assert_eq!(reader.start(), 1100);
    // A file reader holds no bytes itself.
    assert!(reader.read(10).is_none());
    assert_eq!(reader.next_chunk(100), Chunk { offset: 1100, length: 100 });
    assert_eq!(reader.next_chunk(100), Chunk { offset: 1200, length: 100 });
    assert_eq!(reader.next_chunk(100), Chunk { offset: 1300, length: 50 });
    assert_eq!(reader.next_chunk(100), Chunk { offset: 1350, length: 0 });
    reader.rewind();
    assert_eq!(reader.next_chunk(u64::MAX), Chunk { offset: 1100, length: 250 });
}

#[test]
fn explicit_length_skips_the_probe() {
    let builder = PathBodyBuilder::new().path("a".to_owned()).length(10);
    assert!(!builder.needs_probe());
    // The probed size is not looked at, whatever it says.
    let stream = builder.build(Some(3), None).unwrap();
    assert_eq!(stream.length(), 10);
    assert!(PathBodyBuilder::new().path("a".to_owned()).needs_probe());
}

#[test]
fn probed_size_gives_the_length_past_the_offset() {
    let stream =
        PathBodyBuilder::new().path("a".to_owned()).offset(40).build(Some(100), None).unwrap();
    assert_eq!(stream.length(), 60);
    let stream =
        PathBodyBuilder::new().path("a".to_owned()).offset(100).build(Some(100), None).unwrap();
    assert_eq!(stream.length(), 0);
}

#[test]
fn regions_that_cannot_be_told_are_unreadable() {
    assert_eq!(
        PathBodyBuilder::new().path("a".to_owned()).build(None, None).unwrap_err(),
        whole(ErrorKind::SourceUnreadable)
    );
    assert_eq!(
        PathBodyBuilder::new().path("a".to_owned()).offset(101).build(Some(100), None).unwrap_err(),
        whole(ErrorKind::SourceUnreadable)
    );
    assert_eq!(
        PathBodyBuilder::new()
            .path("a".to_owned())
            .offset(2)
            .length(u64::MAX - 1)
            .build(None, None)
            .unwrap_err(),
        whole(ErrorKind::SourceUnreadable)
    );
    assert_eq!(
        PathBodyBuilder::new().length(5).build(Some(100), None).unwrap_err(),
        whole(ErrorKind::InvalidConfiguration)
    );
}

#[test]
fn from_path_reads_the_whole_file() {
    let digest = digest_of(b"rows");
    let stream = InputStream::from_path("docs/rows.csv".to_owned(), Some(4), Some(digest)).unwrap();
    assert_eq!(stream.length(), 4);
    assert_eq!(stream.size_hint().upper(), Some(4));
    assert_eq!(
        hex(&stream.checksum().as_ref().unwrap().bytes),
        hex(&digest_of(b"rows").bytes)
    );
    assert_eq!(
        InputStream::from_path("docs/rows.csv".to_owned(), None, None).unwrap_err(),
        whole(ErrorKind::SourceUnreadable)
    );
}

#[test]
fn size_hints_keep_their_bounds_in_order() {
    let exact = SizeHint::exact(7);
    assert_eq!((exact.lower(), exact.upper()), (7, Some(7)));
    let open = SizeHint::at_least(7);
    assert_eq!((open.lower(), open.upper()), (7, None));
    let bounded = SizeHint::bounded(3, 9).unwrap();
    assert_eq!((bounded.lower(), bounded.upper()), (3, Some(9)));
    assert_eq!(SizeHint::bounded(9, 3).unwrap_err(), whole(ErrorKind::InvalidConfiguration));
}

#[test]
fn digests_match_by_their_bytes() {
    let a = Digest { bytes: vec![1, 2, 3] };
    assert!(a.matches(&a.clone()));
    assert!(!a.matches(&Digest { bytes: vec![1, 2, 4] }));
    assert!(!a.matches(&Digest { bytes: vec![1, 2] }));
    assert!(Digest { bytes: vec![] }.matches(&Digest { bytes: vec![] }));
    assert!(digests_agree(&None, &None));
    assert!(!digests_agree(&Some(a.clone()), &None));
    assert!(!digests_agree(&None, &Some(a.clone())));
    assert!(digests_agree(&Some(a.clone()), &Some(a)));
}

#[test]
fn changed_source_is_detected_as_mutated() {
    let original = b"the contents of the file";
    let manager = ChecksumManager::snapshot(original.len() as u64, Some(digest_of(original)));
    assert_eq!(manager.validate(original.len() as u64, &Some(digest_of(original))), Ok(()));
    // Same length, different bytes.
    let modified = b"THE contents of the file";
    assert_eq!(
        manager.validate(modified.len() as u64, &Some(digest_of(modified))),
        Err(whole(ErrorKind::SourceMutated))
    );
    // Same bytes reported, different length.
    assert_eq!(
        manager.validate(original.len() as u64 + 1, &Some(digest_of(original))),
        Err(whole(ErrorKind::SourceMutated))
    );
    // A checksum that went missing is drift too.
    assert_eq!(
        manager.validate(original.len() as u64, &None),
        Err(whole(ErrorKind::SourceMutated))
    );
    let unchecked = ChecksumManager::snapshot(5, None);
    assert_eq!(unchecked.validate(5, &None), Ok(()));
    assert_eq!(
        unchecked.validate(5, &Some(digest_of(b"12345"))),
        Err(whole(ErrorKind::SourceMutated))
    );
}

#[test]
fn part_digest_mismatch_is_a_retryable_part_failure() {
    let local = digest_of(b"part bytes");
    assert_eq!(ChecksumManager::verify_part(3, &local, &None), Ok(()));
    assert_eq!(ChecksumManager::verify_part(3, &local, &Some(digest_of(b"part bytes"))), Ok(()));
    let error = ChecksumManager::verify_part(3, &local, &Some(digest_of(b"other"))).unwrap_err();
    assert_eq!(
        error,
        TransferError { kind: ErrorKind::PartChecksumMismatch, part_number: Some(3) }
    );
    assert!(error.kind.is_retryable());

    let checked = ChecksumManager::check_part(4, b"part bytes", &Some(local)).unwrap();
    assert_eq!(hex(&checked.bytes), hex(&digest_of(b"part bytes").bytes));
    assert_eq!(
        ChecksumManager::check_part(4, b"part bytez", &Some(digest_of(b"part bytes")))
            .unwrap_err(),
        TransferError { kind: ErrorKind::PartChecksumMismatch, part_number: Some(4) }
    );
}
