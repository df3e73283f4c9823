use roster_rollup::dispatch::{classify, process_body, ReqKind};
use roster_rollup::driver::{notice_body, report_body, Driver, NO_PENDING_WORK};
use roster_rollup::hexcode::{decode_payload, encode_payload};
use roster_rollup::jsonparse::parse_json;
use roster_rollup::roster::Roster;
use roster_rollup::Outcome;

fn bytes(s: &str) -> Vec<u8> {
    s.as_bytes().to_vec()
}

/// The `0x...` payload carrying a command text.
fn payload_of(cmd: &str) -> String {
    String::from_utf8(encode_payload(&bytes(cmd))).unwrap()
}

/// A full advance-state envelope around a payload string.
fn advance_envelope(payload: &str, sender: &str) -> Vec<u8> {
    bytes(&format!(
        "{{\"request_type\":\"advance_state\",\"data\":{{\"payload\":\"{}\",\"metadata\":{{\"msg_sender\":\"{}\"}}}}}}",
        payload, sender
    ))
}

fn advance_with_command(cmd: &str, sender: &str) -> Vec<u8> {
    advance_envelope(&payload_of(cmd), sender)
}

#[test]
fn create_delete_sign_through_the_full_pipeline() {
    let mut r = Roster::new();

    let body = advance_with_command(
        "{\"method\":\"create\",\"wallet_address\":\"0xABC\",\"name\":\"Ada\",\"age\":36}",
        "0xABC",
    );
    assert_eq!(process_body(&body, &mut r), Outcome::Accept);
    assert_eq!(r.len(), 1);
    assert_eq!(r.members[0].wallet_address, bytes("0xabc"));
    assert_eq!(r.members[0].age, 36);

    // attendance is keyed by the sender, case-varied here
    let body = advance_with_command("{\"method\":\"sign_attendance\"}", "0xAbC");
    assert_eq!(process_body(&body, &mut r), Outcome::Accept);
    assert_eq!(r.members[0].attendance_count, 1);

    // delete by a case-varied payload key
    let body = advance_with_command("{\"method\":\"delete\",\"wallet_address\":\"0xabc\"}", "0x9");
    assert_eq!(process_body(&body, &mut r), Outcome::Accept);
    assert_eq!(r.len(), 0);
}

#[test]
fn lookup_misses_are_accepted_no_ops() {
    let mut r = Roster::new();
    let body = advance_with_command("{\"method\":\"delete\",\"wallet_address\":\"0x1\"}", "0x1");
    assert_eq!(process_body(&body, &mut r), Outcome::Accept);
    let body = advance_with_command("{\"method\":\"sign_attendance\"}", "0x1");
    assert_eq!(process_body(&body, &mut r), Outcome::Accept);
    assert_eq!(r.len(), 0);
}

#[test]
fn unknown_method_is_accepted_without_mutation() {
    let mut r = Roster::new();
    let body = advance_with_command("{\"method\":\"promote\",\"wallet_address\":\"0x1\"}", "0x1");
    assert_eq!(process_body(&body, &mut r), Outcome::Accept);
    assert_eq!(r.len(), 0);
}

#[test]
fn malformed_hex_payload_rejects_without_crashing() {
    let mut r = Roster::new();
    r.create(bytes("Ada"), 36, bytes("0xabc"));

    // odd-length hex after the marker
    let body = advance_envelope("0xabc", "0xabc");
    assert_eq!(process_body(&body, &mut r), Outcome::Reject);
    // non-hex characters after the marker
    let body = advance_envelope("0xzz", "0xabc");
    assert_eq!(process_body(&body, &mut r), Outcome::Reject);
    // the roster is untouched and the pipeline still works
    assert_eq!(r.len(), 1);
    let body = advance_with_command("{\"method\":\"sign_attendance\"}", "0xABC");
    assert_eq!(process_body(&body, &mut r), Outcome::Accept);
    assert_eq!(r.members[0].attendance_count, 1);
}

#[test]
fn missing_fields_reject() {
    let mut r = Roster::new();
    // no payload
    let body = bytes("{\"request_type\":\"advance_state\",\"data\":{}}");
    assert_eq!(process_body(&body, &mut r), Outcome::Reject);
    // no sender
    let body = bytes(&format!(
        "{{\"request_type\":\"advance_state\",\"data\":{{\"payload\":\"{}\"}}}}",
        payload_of("{\"method\":\"sign_attendance\"}")
    ));
    assert_eq!(process_body(&body, &mut r), Outcome::Reject);
    // method missing
    let body = advance_with_command("{\"wallet_address\":\"0x1\"}", "0x1");
    assert_eq!(process_body(&body, &mut r), Outcome::Reject);
    // age missing on create
    let body = advance_with_command(
        "{\"method\":\"create\",\"wallet_address\":\"0x1\",\"name\":\"A\"}",
        "0x1",
    );
    assert_eq!(process_body(&body, &mut r), Outcome::Reject);
    // age not a plain integer
    let body = advance_with_command(
        "{\"method\":\"create\",\"wallet_address\":\"0x1\",\"name\":\"A\",\"age\":3.5}",
        "0x1",
    );
    assert_eq!(process_body(&body, &mut r), Outcome::Reject);
    assert_eq!(r.len(), 0);
}

#[test]
fn unknown_request_type_rejects() {
    let mut r = Roster::new();
    let body = bytes("{\"request_type\":\"destroy_state\",\"data\":{}}");
    assert_eq!(process_body(&body, &mut r), Outcome::Reject);
    let body = bytes("{\"data\":{}}");
    assert_eq!(process_body(&body, &mut r), Outcome::Reject);
}

#[test]
fn malformed_envelope_body_rejects() {
    let mut r = Roster::new();
    assert_eq!(process_body(&bytes("not json"), &mut r), Outcome::Reject);
}

#[test]
fn inspect_only_checks_payload_presence() {
    let mut r = Roster::new();
    let body = bytes("{\"request_type\":\"inspect_state\",\"data\":{\"payload\":\"0x\"}}");
    assert_eq!(process_body(&body, &mut r), Outcome::Accept);
    let body = bytes("{\"request_type\":\"inspect_state\",\"data\":{}}");
    assert_eq!(process_body(&body, &mut r), Outcome::Reject);
}

#[test]
fn classify_routes_by_request_type() {
    let adv = parse_json(&bytes("{\"request_type\":\"advance_state\"}")).unwrap();
    let ins = parse_json(&bytes("{\"request_type\":\"inspect_state\"}")).unwrap();
    let unk = parse_json(&bytes("{\"request_type\":\"other\"}")).unwrap();
    assert_eq!(classify(&adv), ReqKind::Advance);
    assert_eq!(classify(&ins), ReqKind::Inspect);
    assert_eq!(classify(&unk), ReqKind::Unknown);
}

#[test]
fn arithmetic_payload_decodes_and_routes() {
    // the calculator scenario: the payload decodes to the command text and the
    // envelope takes the advance path; the result text "5" encodes to 0x35
    let p = payload_of("{\"method\":\"add\",\"value_1\":2.0,\"value_2\":3.0}");
    assert!(p.starts_with("0x7b226d6574686f64223a22616464"));
    assert_eq!(
        decode_payload(&bytes(&p)),
        Ok(bytes("{\"method\":\"add\",\"value_1\":2.0,\"value_2\":3.0}"))
    );
    let env = parse_json(&advance_envelope(&p, "0xABCDEF")).unwrap();
    assert_eq!(classify(&env), ReqKind::Advance);
    assert_eq!(encode_payload(&bytes("5")), bytes("0x35"));
}

#[test]
fn no_pending_work_changes_nothing() {
    let mut d = Driver::new();
    assert_eq!(d.report_status(), Outcome::Accept);
    d.on_poll_response(NO_PENDING_WORK, &Vec::new());
    assert_eq!(d.report_status(), Outcome::Accept);
    assert_eq!(d.roster.len(), 0);
}

#[test]
fn driver_carries_the_outcome_between_turns() {
    let mut d = Driver::new();
    let body = advance_with_command(
        "{\"method\":\"create\",\"wallet_address\":\"0xA\",\"name\":\"Ada\",\"age\":1}",
        "0xA",
    );
    d.on_poll_response(200, &body);
    assert_eq!(d.report_status(), Outcome::Accept);
    assert_eq!(d.roster.len(), 1);

    d.on_poll_response(200, &bytes("garbage"));
    assert_eq!(d.report_status(), Outcome::Reject);
    // rejecting one turn leaves the roster as it was and the loop alive
    assert_eq!(d.roster.len(), 1);

    d.on_poll_response(NO_PENDING_WORK, &Vec::new());
    assert_eq!(d.report_status(), Outcome::Reject);
}

#[test]
fn age_wraps_like_a_byte() {
    let mut r = Roster::new();
    let body = advance_with_command(
        "{\"method\":\"create\",\"wallet_address\":\"0x1\",\"name\":\"A\",\"age\":300}",
        "0x1",
    );
    assert_eq!(process_body(&body, &mut r), Outcome::Accept);
    assert_eq!(r.members[0].age, 44);
}

#[test]
fn report_and_notice_bodies() {
    assert_eq!(report_body(Outcome::Accept), bytes("{\"status\":\"accept\"}"));
    assert_eq!(report_body(Outcome::Reject), bytes("{\"status\":\"reject\"}"));
    assert_eq!(notice_body(&bytes("0x35")), bytes("{\"payload\":\"0x35\"}"));
}
