use transfer_manager::error::{ErrorKind, TransferError};
use transfer_manager::job::PartJob;
use transfer_manager::planner::{plan, PartSpec, PlannerConfig};
use transfer_manager::scheduler::{
    Action, Event, Scheduler, SchedulerConfig,
};
use transfer_manager::stream::InputStream;
use transfer_manager::types::PartResult;

const TEXT: &[u8] = b"0123456789abcdefghijKLMNO";

fn config() -> PlannerConfig {
    PlannerConfig { min_part_size: 10, max_part_size: 100, max_parts: 10, target_part_count_hint: None }
}

#[test]
fn job_reads_exactly_its_part() {
    let stream = InputStream::from_static(TEXT);
    let layout = plan(stream.length(), &config()).unwrap();
    let mut read = Vec::new();
    for part in layout.parts() {
        let mut job = PartJob::create(&stream, *part, 1).unwrap();
        assert_eq!(job.spec, *part);
        assert_eq!(job.attempt, 1);
        assert_eq!(job.reader.remaining(), part.length);
        read.push(job.reader.read(usize::MAX).unwrap());
    }
    assert_eq!(&read[0][..], b"0123456789");
    assert_eq!(&read[1][..], b"abcdefghij");
    assert_eq!(&read[2][..], b"KLMNO");
}

#[test]
fn retried_job_gets_a_fresh_reader_at_the_same_range() {
    let stream = InputStream::from_static(TEXT);
    let part = PartSpec { part_number: 2, offset: 10, length: 10 };
    let mut first = PartJob::create(&stream, part, 1).unwrap();
    assert_eq!(&first.reader.read(4).unwrap()[..], b"abcd");
    let mut second = PartJob::create(&stream, part, 2).unwrap();
    assert_eq!(second.attempt, 2);
    assert_eq!(second.reader.remaining(), 10);
    assert_eq!(&second.reader.read(100).unwrap()[..], b"abcdefghij");
    // The first attempt's reader is where it was.
    assert_eq!(first.reader.remaining(), 6);
}

#[test]
fn part_outside_the_stream_cannot_be_read() {
    let stream = InputStream::from_static(TEXT);
    let part = PartSpec { part_number: 3, offset: 20, length: 6 };
    assert_eq!(
        PartJob::create(&stream, part, 1).unwrap_err(),
        TransferError { kind: ErrorKind::SourceUnreadable, part_number: Some(3) }
    );
}

#[test]
fn only_submissions_ask_for_a_job() {
    let stream = InputStream::from_static(TEXT);
    let part = PartSpec { part_number: 1, offset: 0, length: 10 };
    let job = PartJob::for_action(&stream, Action::Dispatch { part, attempt: 3 }).unwrap().unwrap();
    assert_eq!((job.spec, job.attempt), (part, 3));
    for action in [
        Action::Backoff { part_number: 1, delay_ms: 5 },
        Action::CancelPart { part_number: 1 },
        Action::Progress { part_number: 1, bytes: 10 },
        Action::AbortSession,
        Action::Finish,
    ] {
        assert!(PartJob::for_action(&stream, action).is_none());
    }
}

#[test]
fn state_tells_what_is_in_flight_and_what_was_moved() {
    let limits =
        SchedulerConfig { concurrency_limit: 2, max_attempts: 2, backoff_base_ms: 1, backoff_max_ms: 1 };
    let scheduler = Scheduler::new(plan(25, &config()).unwrap(), limits).unwrap();
    let (scheduler, _) = scheduler.step(Event::Start);
    let (scheduler, _) = scheduler.step(Event::PartSucceeded {
        result: PartResult {
            part_number: 2,
            remote_identifier: "etag-2".to_owned(),
            checksum: None,
            bytes_transferred: 10,
        },
    });
    let state = scheduler.state();
    assert!(state.is_in_flight(1));
    assert!(!state.is_in_flight(2));
    assert!(state.is_in_flight(3));
    assert!(!state.is_in_flight(0));
    assert!(!state.is_in_flight(4));
    assert!(state.result_of(1).is_none());
    assert_eq!(state.result_of(2).unwrap().remote_identifier, "etag-2");
    assert!(state.result_of(0).is_none());
    assert!(state.result_of(4).is_none());
    assert_eq!(state.plan().part_count(), 3);
}
