use chatcore::ServerState;
use chatcore::dispatch;
use chatcore::str_to_chars;

fn frame(s: &str) -> Vec<char> {
    str_to_chars(s)
}

fn joined_state(names: &[&str]) -> ServerState {
    let mut st = ServerState::new();
    let mut conn: u64 = 1;
    for name in names {
        st.connect(conn);
        let out = dispatch(&mut st, conn, &frame(&format!("JOIN {}", name)));
        assert_eq!(out.response.line(), "200 OK\n");
        conn += 1;
    }
    st
}

#[test]
fn join_too_short_is_rejected() {
    let mut st = ServerState::new();
    st.connect(1);
    let out = dispatch(&mut st, 1, &frame("JOIN ab"));
    assert_eq!(out.response.line(), "400 INVALID USERNAME\n");
}

#[test]
fn join_alphanumeric_is_accepted() {
    let mut st = ServerState::new();
    st.connect(1);
    let out = dispatch(&mut st, 1, &frame("JOIN Al1ce"));
    assert_eq!(out.response.line(), "200 OK\n");
}

#[test]
fn join_with_underscore_is_rejected() {
    let mut st = ServerState::new();
    st.connect(1);
    let out = dispatch(&mut st, 1, &frame("JOIN al_ice"));
    assert_eq!(out.response.line(), "400 INVALID USERNAME\n");
}

#[test]
fn join_reserved_keyword_is_rejected() {
    let mut st = ServerState::new();
    st.connect(1);
    let out = dispatch(&mut st, 1, &frame("JOIN all"));
    assert_eq!(out.response.line(), "400 INVALID USERNAME\n");
}

#[test]
fn join_unicode_letters_is_accepted() {
    let mut st = ServerState::new();
    st.connect(1);
    let out = dispatch(&mut st, 1, &frame("JOIN café"));
    assert_eq!(out.response.line(), "200 OK\n");
    let board = dispatch(&mut st, 1, &frame("USERBOARD"));
    assert_eq!(board.response.line(), "200 BOARD {\"café\":\"ONLINE\"}\n");
}

#[test]
fn join_too_long_is_rejected() {
    let mut st = ServerState::new();
    st.connect(1);
    let name = "a".repeat(31);
    let out = dispatch(&mut st, 1, &frame(&format!("JOIN {}", name)));
    assert_eq!(out.response.line(), "400 INVALID USERNAME\n");
    let name30 = "a".repeat(30);
    let out = dispatch(&mut st, 1, &frame(&format!("JOIN {}", name30)));
    assert_eq!(out.response.line(), "200 OK\n");
}

#[test]
fn duplicate_username_joins_once() {
    let mut st = ServerState::new();
    st.connect(1);
    st.connect(2);
    let first = dispatch(&mut st, 1, &frame("JOIN alice"));
    let second = dispatch(&mut st, 2, &frame("JOIN alice"));
    assert_eq!(first.response.line(), "200 OK\n");
    assert_eq!(second.response.line(), "400 INVALID USERNAME\n");
}

#[test]
fn join_while_joined_is_rejected() {
    let mut st = ServerState::new();
    st.connect(1);
    let first = dispatch(&mut st, 1, &frame("JOIN alice"));
    assert_eq!(first.response.line(), "200 OK\n");
    let second = dispatch(&mut st, 1, &frame("JOIN bob"));
    assert_eq!(second.response.line(), "400 INVALID USERNAME\n");
}

#[test]
fn leave_twice_is_idempotent() {
    let mut st = joined_state(&["alice"]);
    let first = dispatch(&mut st, 1, &frame("LEAVE"));
    assert_eq!(first.response.line(), "200 BYE\n");
    let second = dispatch(&mut st, 1, &frame("LEAVE"));
    assert_eq!(second.response.line(), "200 BYE\n");
    let board = dispatch(&mut st, 1, &frame("USERBOARD"));
    assert!(!board.response.line().contains("alice"));
}

#[test]
fn cleanup_after_leave_returns_nothing() {
    let mut st = joined_state(&["alice"]);
    let out = dispatch(&mut st, 1, &frame("LEAVE"));
    assert_eq!(out.response.line(), "200 BYE\n");
    let departed = st.cleanup(1);
    assert_eq!(departed, None);
}

#[test]
fn name_is_free_after_leave() {
    let mut st = joined_state(&["alice"]);
    dispatch(&mut st, 1, &frame("LEAVE"));
    st.connect(2);
    let out = dispatch(&mut st, 2, &frame("JOIN alice"));
    assert_eq!(out.response.line(), "200 OK\n");
}

#[test]
fn unknown_command_is_server_error() {
    let mut st = ServerState::new();
    st.connect(1);
    let out = dispatch(&mut st, 1, &frame("NOSUCH thing"));
    assert_eq!(out.response.line(), "500 SERVER ERROR\n");
    let out = dispatch(&mut st, 1, &frame(""));
    assert_eq!(out.response.line(), "500 SERVER ERROR\n");
}

#[test]
fn userstatus_round_trip() {
    let mut st = joined_state(&["alice"]);
    let out = dispatch(&mut st, 1, &frame("USERSTATUS alice DO_NOT_DISTURB"));
    assert_eq!(out.response.line(), "200 USERSTATUS UPDATED\n");
    let board = dispatch(&mut st, 1, &frame("USERBOARD"));
    assert!(board.response.line().contains("\"alice\":\"DO_NOT_DISTURB\""));
}

#[test]
fn userstatus_unknown_user_is_rejected() {
    let mut st = joined_state(&["alice"]);
    let out = dispatch(&mut st, 1, &frame("USERSTATUS ghost ONLINE"));
    assert_eq!(out.response.line(), "400 INVALID REQUEST\n");
}

#[test]
fn userstatus_bad_arity_is_rejected() {
    let mut st = joined_state(&["alice"]);
    let out = dispatch(&mut st, 1, &frame("USERSTATUS alice"));
    assert_eq!(out.response.line(), "400 INVALID REQUEST\n");
    let out = dispatch(&mut st, 1, &frame("USERSTATUS alice DO_NOT_DISTURB extra"));
    assert_eq!(out.response.line(), "400 INVALID REQUEST\n");
}

#[test]
fn userstatus_bad_token_is_rejected() {
    let mut st = joined_state(&["alice"]);
    let out = dispatch(&mut st, 1, &frame("USERSTATUS alice SLEEPING"));
    assert_eq!(out.response.line(), "400 INVALID REQUEST\n");
}

#[test]
fn board_lists_users_in_join_order() {
    let mut st = joined_state(&["alice", "bob"]);
    let out = dispatch(&mut st, 1, &frame("USERBOARD"));
    assert_eq!(
        out.response.line(),
        "200 BOARD {\"alice\":\"ONLINE\",\"bob\":\"ONLINE\"}\n"
    );
}

#[test]
fn board_of_empty_directory() {
    let mut st = ServerState::new();
    st.connect(1);
    let out = dispatch(&mut st, 1, &frame("USERBOARD"));
    assert_eq!(out.response.line(), "200 BOARD {}\n");
}

#[test]
fn state_stays_consistent() {
    let mut st = joined_state(&["alice", "bob"]);
    assert!(st.is_consistent());
    dispatch(&mut st, 1, &frame("LEAVE"));
    assert!(st.is_consistent());
}
