use dora_radio_service::channel::{acquire_status, MediumLog};
use dora_radio_service::framing::{
    check_write, read_step, run_read, write_step, MediumEvent, ReadOutcome, ReadStep,
    TransportError, WriteEvent, MAX_READ,
};

fn data(bytes: &[u8]) -> MediumEvent {
    MediumEvent::Data(bytes.to_vec())
}

#[test]
fn full_chunk_then_short_chunk_is_one_message() {
    // The device sends 48 bytes back to back with 2 more: the first chunk
    // exactly fills the maximum read size and is not a boundary; the short
    // second chunk ends the message.
    let first: Vec<u8> = (0x01..=0x30).collect();
    assert_eq!(first.len(), MAX_READ);
    let second: Vec<u8> = vec![0x31, 0x32];
    let outcome = run_read(vec![data(&first), data(&second)]);
    let expected: Vec<u8> = (0x01..=0x32).collect();
    assert_eq!(expected.len(), 50);
    match outcome {
        ReadOutcome::Message(m) => assert_eq!(m, expected),
        other => panic!("expected a message, got {:?}", other),
    }
}

#[test]
fn short_chunk_returns_at_once() {
    // The device sends one byte and stays silent: the short read ends the
    // message immediately, without waiting for the timeout.
    let outcome = run_read(vec![data(&[0xAA])]);
    match outcome {
        ReadOutcome::Message(m) => assert_eq!(m, vec![0xAA]),
        other => panic!("expected a message, got {:?}", other),
    }
    // A later read sees only silence and assembles nothing: the byte is
    // returned exactly once.
    let outcome = run_read(vec![MediumEvent::TimedOut, MediumEvent::TimedOut]);
    match outcome {
        ReadOutcome::Exhausted(m) => assert_eq!(m, Vec::<u8>::new()),
        other => panic!("expected no message, got {:?}", other),
    }
}

#[test]
fn timeout_flushes_nonempty_buffer() {
    // A full chunk followed by a timeout: the buffered bytes come back as
    // the message rather than being discarded or held.
    let first: Vec<u8> = (0x01..=0x30).collect();
    let outcome = run_read(vec![data(&first), MediumEvent::TimedOut]);
    match outcome {
        ReadOutcome::Message(m) => assert_eq!(m, first),
        other => panic!("expected a message, got {:?}", other),
    }
}

#[test]
fn timeout_with_empty_buffer_retries() {
    // Timeouts with nothing buffered neither end the read nor lose data that
    // arrives afterwards.
    let outcome = run_read(vec![
        MediumEvent::TimedOut,
        MediumEvent::TimedOut,
        data(&[0x10, 0x20]),
    ]);
    match outcome {
        ReadOutcome::Message(m) => assert_eq!(m, vec![0x10, 0x20]),
        other => panic!("expected a message, got {:?}", other),
    }
}

#[test]
fn empty_chunk_acts_like_timeout() {
    let first: Vec<u8> = (0x01..=0x30).collect();
    let outcome = run_read(vec![data(&first), data(&[])]);
    match outcome {
        ReadOutcome::Message(m) => assert_eq!(m, first),
        other => panic!("expected a message, got {:?}", other),
    }
    let outcome = run_read(vec![data(&[]), data(&[0x07])]);
    match outcome {
        ReadOutcome::Message(m) => assert_eq!(m, vec![0x07]),
        other => panic!("expected a message, got {:?}", other),
    }
}

#[test]
fn hard_read_fault_is_surfaced() {
    // A non-timeout medium error is never downgraded, whatever is buffered.
    let first: Vec<u8> = (0x01..=0x30).collect();
    let outcome = run_read(vec![data(&first), MediumEvent::Failed]);
    match outcome {
        ReadOutcome::Fault(e) => assert_eq!(e, TransportError::TransportReadError),
        other => panic!("expected a fault, got {:?}", other),
    }
}

#[test]
fn read_step_cases() {
    let mut packet: Vec<u8> = Vec::new();
    assert_eq!(read_step(&mut packet, MediumEvent::TimedOut), ReadStep::Yield);
    assert_eq!(packet, Vec::<u8>::new());

    let full: Vec<u8> = (0x01..=0x30).collect();
    assert_eq!(
        read_step(&mut packet, MediumEvent::Data(full.clone())),
        ReadStep::Continue
    );
    assert_eq!(packet, full);

    assert_eq!(read_step(&mut packet, MediumEvent::TimedOut), ReadStep::Complete);
    assert_eq!(packet, full);

    assert_eq!(
        read_step(&mut packet, MediumEvent::Failed),
        ReadStep::Fail(TransportError::TransportReadError)
    );
}

#[test]
fn short_write_is_a_write_error() {
    assert_eq!(check_write(10, 10), Ok(()));
    assert_eq!(check_write(0, 0), Ok(()));
    assert_eq!(check_write(10, 5), Err(TransportError::TransportWriteError));
}

#[test]
fn failed_write_is_surfaced() {
    // A medium fault during write is never downgraded to success.
    assert_eq!(write_step(3, WriteEvent::Accepted(3)), Ok(()));
    assert_eq!(
        write_step(3, WriteEvent::Accepted(2)),
        Err(TransportError::TransportWriteError)
    );
    assert_eq!(
        write_step(0, WriteEvent::Failed),
        Err(TransportError::TransportWriteError)
    );
}

#[test]
fn concurrent_writes_never_interleave() {
    // Two writers race for the channel: whichever order they acquire it in,
    // the medium sees one whole payload and then the other.
    let mut first_order = MediumLog::new();
    first_order.commit_write(vec![1, 2, 3]).unwrap();
    first_order.commit_write(vec![4, 5, 6]).unwrap();
    let stream: Vec<u8> = first_order.writes.concat();
    assert_eq!(stream, vec![1, 2, 3, 4, 5, 6]);

    let mut second_order = MediumLog::new();
    second_order.commit_write(vec![4, 5, 6]).unwrap();
    second_order.commit_write(vec![1, 2, 3]).unwrap();
    let stream: Vec<u8> = second_order.writes.concat();
    assert_eq!(stream, vec![4, 5, 6, 1, 2, 3]);
}

#[test]
fn each_write_lands_whole() {
    let mut log = MediumLog::new();
    log.commit_write(vec![9]).unwrap();
    log.commit_write(vec![]).unwrap();
    log.commit_write(vec![7, 8]).unwrap();
    assert_eq!(log.writes, vec![vec![9], vec![], vec![7, 8]]);
}

#[test]
fn poisoned_channel_is_unavailable() {
    assert_eq!(acquire_status(false), Ok(()));
    assert_eq!(
        acquire_status(true),
        Err(TransportError::ChannelUnavailable)
    );
}

#[test]
fn transport_error_messages() {
    assert_eq!(
        TransportError::ChannelUnavailable.message(),
        "shared channel unavailable"
    );
    assert_eq!(TransportError::TransportReadError.message(), "radio read failed");
    assert_eq!(TransportError::TransportWriteError.message(), "radio write failed");
}
