use dora_radio_service::model::{
    command_path, command_report, encode_download, prepare_upload, Subsystem, Telemetry,
};
use dora_radio_service::save::{insert_mutation, judge_save_response, SaveError};
use dora_radio_service::schema::QueryRoot;

fn sample_telemetry() -> Telemetry {
    Telemetry {
        packets_up: 7,
        packets_down: 11,
        failed_packets_up: 2,
        failed_packets_down: 3,
        errors: vec!["sync lost".to_owned(), "sync recovered".to_owned()],
    }
}

#[test]
fn telemetry_accessors_return_the_counters() {
    let sub = Subsystem::new(sample_telemetry());
    assert_eq!(sub.packets_up(), Ok(7));
    assert_eq!(sub.packets_down(), Ok(11));
    assert_eq!(sub.failed_packets_up(), Ok(2));
    assert_eq!(sub.failed_packets_down(), Ok(3));
    assert_eq!(
        sub.errors(),
        Ok(vec!["sync lost".to_owned(), "sync recovered".to_owned()])
    );
}

#[test]
fn ping_answers_pong() {
    let q = QueryRoot;
    assert_eq!(q.ping(), "pong");
}

#[test]
fn echo_returns_data_or_note() {
    let q = QueryRoot;
    assert_eq!(q.echo(Some("hello there".to_owned())), "hello there");
    assert_eq!(q.echo(None), "empty data field");
}

#[test]
fn upload_without_data_fails() {
    assert_eq!(prepare_upload(None, None), Err("No data for file".to_owned()));
    assert_eq!(
        prepare_upload(None, Some(true)),
        Err("No data for file".to_owned())
    );
}

#[test]
fn upload_plain_text_keeps_its_bytes() {
    assert_eq!(
        prepare_upload(Some("hello".to_owned()), None),
        Ok(b"hello".to_vec())
    );
    assert_eq!(
        prepare_upload(Some("hello".to_owned()), Some(false)),
        Ok(b"hello".to_vec())
    );
}

#[test]
fn upload_decodes_base64_payloads() {
    assert_eq!(
        prepare_upload(Some("aGVsbG8=".to_owned()), Some(true)),
        Ok(b"hello".to_vec())
    );
    assert_eq!(
        prepare_upload(Some("/w==".to_owned()), Some(true)),
        Ok(vec![0xFF])
    );
}

#[test]
fn upload_rejects_malformed_base64() {
    assert_eq!(
        prepare_upload(Some("!!!".to_owned()), Some(true)),
        Err("Failed to decode data".to_owned())
    );
}

#[test]
fn download_encodes_binary_payloads() {
    assert_eq!(encode_download(&vec![0xFF], Some(true)), "/w==");
    assert_eq!(encode_download(&b"hello".to_vec(), Some(true)), "aGVsbG8=");
    assert_eq!(encode_download(&Vec::new(), Some(true)), "");
}

#[test]
fn download_passes_text_through() {
    assert_eq!(encode_download(&b"hello".to_vec(), None), "hello");
    assert_eq!(encode_download(&b"hello".to_vec(), Some(false)), "hello");
    // Invalid UTF-8 is replaced, not dropped.
    assert_eq!(encode_download(&vec![0xFF], None), "\u{FFFD}");
}

#[test]
fn upload_then_download_round_trip() {
    let payload = vec![0u8, 1, 2, 250, 251, 252];
    let encoded = encode_download(&payload, Some(true));
    assert_eq!(prepare_upload(Some(encoded), Some(true)), Ok(payload));
}

#[test]
fn command_needs_a_path() {
    assert_eq!(
        command_path(Some("/bin/ls".to_owned())),
        Ok("/bin/ls".to_owned())
    );
    assert_eq!(
        command_path(None),
        Err("No command path specified".to_owned())
    );
}

#[test]
fn command_report_labels_both_streams() {
    assert_eq!(
        command_report(&b"all well".to_vec(), &b"one warning".to_vec()),
        "stdout: all well\n\nstderr: one warning"
    );
    // Invalid UTF-8 in a stream is replaced, not dropped.
    assert_eq!(
        command_report(&vec![0xFF], &Vec::new()),
        "stdout: \u{FFFD}\n\nstderr: "
    );
}

#[test]
fn insert_mutation_builds_the_request() {
    let expected = "mutation { insert(subsystem: \"OBC\", parameter: \"uptime\", value: \"120.5\") { success, errors } }";
    assert_eq!(insert_mutation("uptime", "120.5"), expected);
}

#[test]
fn only_a_confirmed_insert_counts_as_saved() {
    assert_eq!(judge_save_response(Some(true)), Ok(()));
    assert_eq!(
        judge_save_response(Some(false)),
        Err(SaveError::NotConfirmed)
    );
    assert_eq!(judge_save_response(None), Err(SaveError::NotConfirmed));
    assert_eq!(
        SaveError::NotConfirmed.message(),
        "Failed to save value to database"
    );
}
