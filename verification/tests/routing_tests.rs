use chatcore::Response;
use chatcore::ServerState;
use chatcore::dispatch;
use chatcore::str_to_chars;

fn frame(s: &str) -> Vec<char> {
    str_to_chars(s)
}

fn joined_state(names: &[&str]) -> ServerState {
    let mut st = ServerState::new();
    let mut conn: u64 = 1;
    for name in names {
        st.connect(conn);
        let out = dispatch(&mut st, conn, &frame(&format!("JOIN {}", name)));
        assert_eq!(out.response.line(), "200 OK\n");
        conn += 1;
    }
    st
}

#[test]
fn broadcast_reaches_everyone_but_the_sender() {
    let mut st = joined_state(&["aaa", "bbb", "ccc"]);
    let out = dispatch(
        &mut st,
        1,
        &frame("SEND {\"header\":\"@all\",\"message\":\"hi\"}"),
    );
    assert_eq!(out.response.line(), "200 SENT\n");
    assert!(!out.directed);
    let targets: Vec<u64> = out.deliveries.iter().map(|d| d.conn).collect();
    assert_eq!(targets, vec![2, 3]);
    for d in &out.deliveries {
        assert!(d.line.contains("\"message\":\"hi\""));
        assert_eq!(d.line, "{\"header\":\"@all\",\"message\":\"hi\"}\n");
    }
}

#[test]
fn broadcast_verdict_ignores_write_failures() {
    let mut st = joined_state(&["aaa", "bbb"]);
    let out = dispatch(
        &mut st,
        1,
        &frame("SEND {\"header\":\"@all\",\"message\":\"hi\"}"),
    );
    assert_eq!(out.final_response(false).line(), "200 SENT\n");
    assert_eq!(out.final_response(true).line(), "200 SENT\n");
}

#[test]
fn directed_send_reaches_the_named_user() {
    let mut st = joined_state(&["aaa", "bbb"]);
    let out = dispatch(
        &mut st,
        1,
        &frame("SEND {\"header\":\"@bbb\",\"message\":\"psst\"}"),
    );
    assert_eq!(out.response.line(), "200 SENT\n");
    assert!(out.directed);
    assert_eq!(out.deliveries.len(), 1);
    assert_eq!(out.deliveries[0].conn, 2);
    assert_eq!(out.deliveries[0].line, "{\"header\":\"@bbb\",\"message\":\"psst\"}\n");
}

#[test]
fn directed_partial_failure_still_delivers() {
    let mut st = joined_state(&["aaa", "bbb"]);
    let out = dispatch(
        &mut st,
        1,
        &frame("SEND {\"header\":\"@bbb @ghost\",\"message\":\"hi\"}"),
    );
    assert_eq!(out.response.line(), "400 MESSAGE FAILED\n");
    assert_eq!(out.deliveries.len(), 1);
    assert_eq!(out.deliveries[0].conn, 2);
    assert_eq!(out.final_response(true).line(), "400 MESSAGE FAILED\n");
}

#[test]
fn directed_write_failure_fails_the_verdict() {
    let mut st = joined_state(&["aaa", "bbb"]);
    let out = dispatch(
        &mut st,
        1,
        &frame("SEND {\"header\":\"@bbb\",\"message\":\"hi\"}"),
    );
    assert_eq!(out.response, Response::Sent);
    assert_eq!(out.final_response(false), Response::MessageFailed);
    assert_eq!(out.final_response(true), Response::Sent);
}

#[test]
fn directed_send_to_self_is_delivered() {
    let mut st = joined_state(&["aaa", "bbb"]);
    let out = dispatch(
        &mut st,
        1,
        &frame("SEND {\"header\":\"@aaa\",\"message\":\"note\"}"),
    );
    assert_eq!(out.response.line(), "200 SENT\n");
    assert_eq!(out.deliveries.len(), 1);
    assert_eq!(out.deliveries[0].conn, 1);
}

#[test]
fn empty_message_is_rejected_before_routing() {
    let mut st = joined_state(&["aaa", "bbb"]);
    let out = dispatch(
        &mut st,
        1,
        &frame("SEND {\"header\":\"@all\",\"message\":\"\"}"),
    );
    assert_eq!(out.response.line(), "400 MESSAGE FAILED\n");
    assert_eq!(out.deliveries.len(), 0);
}

#[test]
fn whitespace_message_is_rejected_before_routing() {
    let mut st = joined_state(&["aaa", "bbb"]);
    let out = dispatch(
        &mut st,
        1,
        &frame("SEND {\"header\":\"@all\",\"message\":\"   \"}"),
    );
    assert_eq!(out.response.line(), "400 MESSAGE FAILED\n");
    assert_eq!(out.deliveries.len(), 0);
}

#[test]
fn oversize_message_is_rejected_before_routing() {
    let mut st = joined_state(&["aaa", "bbb"]);
    let body = "x".repeat(501);
    let out = dispatch(
        &mut st,
        1,
        &frame(&format!("SEND {{\"header\":\"@all\",\"message\":\"{}\"}}", body)),
    );
    assert_eq!(out.response.line(), "400 MESSAGE FAILED\n");
    assert_eq!(out.deliveries.len(), 0);
}

#[test]
fn largest_message_is_accepted() {
    let mut st = joined_state(&["aaa", "bbb"]);
    let body = "x".repeat(500);
    let out = dispatch(
        &mut st,
        1,
        &frame(&format!("SEND {{\"header\":\"@all\",\"message\":\"{}\"}}", body)),
    );
    assert_eq!(out.response.line(), "200 SENT\n");
    assert_eq!(out.deliveries.len(), 1);
}

#[test]
fn invalid_json_is_a_format_error() {
    let mut st = joined_state(&["aaa"]);
    let out = dispatch(&mut st, 1, &frame("SEND not json at all"));
    assert_eq!(out.response.line(), "400 INVALID MESSAGE FORMAT\n");
    assert_eq!(out.deliveries.len(), 0);
}

#[test]
fn missing_message_field_fails_the_send() {
    let mut st = joined_state(&["aaa", "bbb"]);
    let out = dispatch(&mut st, 1, &frame("SEND {\"header\":\"@all\"}"));
    assert_eq!(out.response.line(), "400 MESSAGE FAILED\n");
    assert_eq!(out.deliveries.len(), 0);
}

#[test]
fn non_string_message_field_fails_the_send() {
    let mut st = joined_state(&["aaa", "bbb"]);
    let out = dispatch(&mut st, 1, &frame("SEND {\"header\":\"@all\",\"message\":5}"));
    assert_eq!(out.response.line(), "400 MESSAGE FAILED\n");
    assert_eq!(out.deliveries.len(), 0);
}

#[test]
fn missing_header_field_fails_the_send() {
    let mut st = joined_state(&["aaa"]);
    let out = dispatch(&mut st, 1, &frame("SEND {\"message\":\"hi\"}"));
    assert_eq!(out.response.line(), "400 MESSAGE FAILED\n");
}

#[test]
fn header_without_recipients_fails_the_send() {
    let mut st = joined_state(&["aaa", "bbb"]);
    let out = dispatch(
        &mut st,
        1,
        &frame("SEND {\"header\":\"bbb aaa\",\"message\":\"hi\"}"),
    );
    assert_eq!(out.response.line(), "400 MESSAGE FAILED\n");
    assert_eq!(out.deliveries.len(), 0);
}

#[test]
fn extra_fields_pass_through_verbatim() {
    let mut st = joined_state(&["aaa", "bbb"]);
    let out = dispatch(
        &mut st,
        1,
        &frame("SEND {\"header\":\"@bbb\",\"message\":\"hi\",\"timestamp\":\"12:30\"}"),
    );
    assert_eq!(out.response.line(), "200 SENT\n");
    assert_eq!(
        out.deliveries[0].line,
        "{\"header\":\"@bbb\",\"message\":\"hi\",\"timestamp\":\"12:30\"}\n"
    );
}

#[test]
fn send_from_unjoined_connection_can_broadcast() {
    let mut st = joined_state(&["aaa"]);
    st.connect(9);
    let out = dispatch(
        &mut st,
        9,
        &frame("SEND {\"header\":\"@all\",\"message\":\"hi\"}"),
    );
    assert_eq!(out.response.line(), "200 SENT\n");
    let targets: Vec<u64> = out.deliveries.iter().map(|d| d.conn).collect();
    assert_eq!(targets, vec![1]);
}
