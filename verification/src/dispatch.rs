//! The command dispatcher: one request frame in, exactly one response
//! out, plus the pushes the request routes to other connections.
//!
//! A response that depends only on the request is final as returned.
//! A directed send's verdict also depends on whether every push's
//! write went through; `DispatchOutcome::final_response` folds that
//! last bit in once the I/O layer reports it.

use vstd::prelude::*;
use crate::board::board_json;
use crate::board::board_pairs;
use crate::board::board_text;
use crate::board::snapshot_views;
use crate::chars::chars_eq_str;
use crate::chars::chars_to_string;
use crate::chars::split_cmd;
use crate::chars::split_first_space;
use crate::chars::split_tokens;
use crate::chars::str_to_chars;
use crate::chars::tokenize;
use crate::chars::trim;
use crate::chars::trim_chars;
use crate::json::extract_send_fields;
use crate::json::send_fields_of;
use crate::protocol::Response;
use crate::protocol::Status;
use crate::router::Delivery;
use crate::router::all_reachable;
use crate::router::delivery_views;
use crate::router::directed_deliveries;
use crate::router::fanout_deliveries;
use crate::router::route_directed;
use crate::router::route_fanout;
use crate::router::strip_at_tokens;
use crate::router::strip_recipients;
use crate::state::ServerState;
use crate::state::UserView;
use crate::state::has_conn;
use crate::state::has_name;
use crate::state::remove_conn;
use crate::state::reg_remove;
use crate::state::with_status;
use crate::username::valid_username;

verus! {

/// What one request frame produced: the response for the requester,
/// the pushes to other connections, and whether the response is still
/// sensitive to those pushes' write outcomes.
pub struct DispatchOutcome {
    /// The response, assuming every push's write succeeds.
    pub response: Response,
    /// The pushes to write to other connections, in order.
    pub deliveries: Vec<Delivery>,
    /// True exactly for a directed send, whose verdict also depends on
    /// the write outcomes; a broadcast is best-effort and never is.
    pub directed: bool,
}

impl DispatchOutcome {
    /// The response to write once the I/O layer has attempted every
    /// push: a directed send with any failed write reports failure,
    /// everything else stands as returned.
    pub fn final_response(&self, all_writes_ok: bool) -> (r: Response)
        ensures
            r == (if self.directed && !all_writes_ok {
                Response::MessageFailed
            } else {
                self.response
            }),
    {
        if self.directed && !all_writes_ok {
            Response::MessageFailed
        } else {
            self.response.duplicate()
        }
    }
}

/// The line a `SEND` pushes to each recipient: the payload text,
/// trimmed, newline-terminated.
pub open spec fn payload_line(rest: Seq<char>) -> Seq<char> {
    trim_chars(rest) + "\n"@
}

/// What `SEND <payload>` does, as a relation between the (unchanged)
/// state, the payload and the outcome.
pub open spec fn send_post(
    users: Seq<UserView>,
    conns: Seq<u64>,
    sender: u64,
    rest: Seq<char>,
    out: DispatchOutcome,
) -> bool {
    match send_fields_of(rest) {
        None => out.response == Response::InvalidMessageFormat && out.deliveries@.len() == 0
            && !out.directed,
        Some((hdr, msg)) => match msg {
            None => out.response == Response::MessageFailed && out.deliveries@.len() == 0
                && !out.directed,
            Some(m) => {
                if !(1 <= trim_chars(m).len() <= 500) {
                    out.response == Response::MessageFailed && out.deliveries@.len() == 0
                        && !out.directed
                } else {
                    match hdr {
                        None => out.response == Response::MessageFailed && out.deliveries@.len()
                            == 0 && !out.directed,
                        Some(h) => {
                            if h == "@all"@ {
                                &&& out.response == Response::Sent
                                &&& !out.directed
                                &&& delivery_views(out.deliveries@) == fanout_deliveries(
                                    conns,
                                    sender,
                                    payload_line(rest),
                                )
                            } else {
                                let recips = strip_recipients(tokenize(h));
                                if recips.len() == 0 {
                                    out.response == Response::MessageFailed
                                        && out.deliveries@.len() == 0 && !out.directed
                                } else {
                                    &&& out.directed
                                    &&& delivery_views(out.deliveries@) == directed_deliveries(
                                        users,
                                        conns,
                                        recips,
                                        payload_line(rest),
                                    )
                                    &&& out.response == (if all_reachable(users, conns, recips) {
                                        Response::Sent
                                    } else {
                                        Response::MessageFailed
                                    })
                                }
                            }
                        },
                    }
                }
            },
        },
    }
}

/// What `USERSTATUS <username> <status>` does to the directory and
/// answers: an update and `200` when the arguments are exactly two,
/// the status is a known token and the user is live; `400 INVALID
/// REQUEST`, with nothing changed, otherwise.
pub open spec fn userstatus_post(
    pre_users: Seq<UserView>,
    post_users: Seq<UserView>,
    rest: Seq<char>,
    resp: Response,
) -> bool {
    let toks = tokenize(rest);
    if toks.len() == 2 && Status::parse_spec(toks[1]) is Some && has_name(pre_users, toks[0]) {
        &&& resp == Response::UserstatusUpdated
        &&& post_users == with_status(pre_users, toks[0], Status::parse_spec(toks[1])->0)
    } else {
        &&& resp == Response::InvalidRequest
        &&& post_users == pre_users
    }
}

/// What one dispatched frame does: the full relation between the
/// state before, the state after, the frame, and the outcome.
pub open spec fn dispatch_post(
    pre_users: Seq<UserView>,
    pre_conns: Seq<u64>,
    post_users: Seq<UserView>,
    post_conns: Seq<u64>,
    sender: u64,
    frame: Seq<char>,
    out: DispatchOutcome,
) -> bool {
    let (cmd, rest) = split_cmd(frame);
    if cmd == "JOIN"@ {
        &&& out.deliveries@.len() == 0
        &&& !out.directed
        &&& post_conns == pre_conns
        &&& if valid_username(rest) && !has_name(pre_users, rest) && !has_conn(pre_users, sender) {
            out.response == Response::Okay && post_users == pre_users.push(
                UserView { conn: sender, name: rest, status: Status::Online },
            )
        } else {
            out.response == Response::InvalidUsername && post_users == pre_users
        }
    } else if cmd == "LEAVE"@ {
        &&& out.response == Response::Bye
        &&& out.deliveries@.len() == 0
        &&& !out.directed
        &&& post_users == remove_conn(pre_users, sender)
        &&& post_conns == reg_remove(pre_conns, sender)
    } else if cmd == "SEND"@ {
        &&& post_users == pre_users
        &&& post_conns == pre_conns
        &&& send_post(pre_users, pre_conns, sender, rest, out)
    } else if cmd == "USERBOARD"@ {
        &&& post_users == pre_users
        &&& post_conns == pre_conns
        &&& out.deliveries@.len() == 0
        &&& !out.directed
        &&& out.response matches Response::Board(b) && b@ == board_text(board_pairs(pre_users))
    } else if cmd == "USERSTATUS"@ {
        &&& out.deliveries@.len() == 0
        &&& !out.directed
        &&& post_conns == pre_conns
        &&& userstatus_post(pre_users, post_users, rest, out.response)
    } else {
        &&& out.response == Response::ServerError
        &&& out.deliveries@.len() == 0
        &&& !out.directed
        &&& post_users == pre_users
        &&& post_conns == pre_conns
    }
}

/// An outcome that carries a bare response and no pushes.
fn plain_outcome(response: Response) -> (out: DispatchOutcome)
    ensures
        out.response == response,
        out.deliveries@.len() == 0,
        !out.directed,
{
    DispatchOutcome { response, deliveries: Vec::new(), directed: false }
}

/// Handles `SEND`: validates the payload, bounds the message body,
/// resolves the header and computes the pushes.  Reads the state,
/// changes nothing.
fn handle_send(state: &ServerState, sender: u64, rest: &Vec<char>) -> (out: DispatchOutcome)
    requires
        state.wf(),
    ensures
        send_post(state.directory@, state.registry@, sender, rest@, out),
{
    let payload_text = chars_to_string(rest);
    let fields = extract_send_fields(payload_text.as_str());
    match fields {
        // Not JSON at all: a malformed body.
        None => plain_outcome(Response::InvalidMessageFormat),
        Some((hdr, msg)) => match msg {
            // JSON, but the message field is missing or not a string:
            // a bad field, reported like any other failed send.
            None => plain_outcome(Response::MessageFailed),
            Some(m) => {
                let mchars = str_to_chars(m.as_str());
                let mtrim = trim(&mchars);
                if mtrim.len() < 1 || mtrim.len() > 500 {
                    plain_outcome(Response::MessageFailed)
                } else {
                    match hdr {
                        None => plain_outcome(Response::MessageFailed),
                        Some(h) => {
                            let hchars = str_to_chars(h.as_str());
                            let trimmed_rest = trim(rest);
                            let mut line = chars_to_string(&trimmed_rest);
                            line.append("\n");
                            if chars_eq_str(&hchars, "@all") {
                                let ds = route_fanout(&state.registry, sender, &line);
                                DispatchOutcome {
                                    response: Response::Sent,
                                    deliveries: ds,
                                    directed: false,
                                }
                            } else {
                                let toks = split_tokens(&hchars);
                                let recips = strip_at_tokens(&toks);
                                if recips.len() == 0 {
                                    plain_outcome(Response::MessageFailed)
                                } else {
                                    let (ds, ok) = route_directed(
                                        &state.directory,
                                        &state.registry,
                                        &recips,
                                        &line,
                                    );
                                    let response = if ok {
                                        Response::Sent
                                    } else {
                                        Response::MessageFailed
                                    };
                                    DispatchOutcome { response, deliveries: ds, directed: true }
                                }
                            }
                        },
                    }
                }
            },
        },
    }
}

/// Handles `USERSTATUS`: two arguments, a live username and a known
/// status token, or `400 INVALID REQUEST`.
fn handle_userstatus(state: &mut ServerState, rest: &Vec<char>) -> (out: DispatchOutcome)
    requires
        old(state).wf(),
    ensures
        final(state).wf(),
        final(state).registry@ == old(state).registry@,
        out.deliveries@.len() == 0,
        !out.directed,
        userstatus_post(old(state).directory@, final(state).directory@, rest@, out.response),
{
    let toks = split_tokens(rest);
    if toks.len() != 2 {
        plain_outcome(Response::InvalidRequest)
    } else {
        proof {
            assert(toks.deep_view()[0] == toks@[0]@);
            assert(toks.deep_view()[1] == toks@[1]@);
        }
        match Status::from_token(&toks[1]) {
            None => plain_outcome(Response::InvalidRequest),
            Some(st) => {
                let updated = state.directory.set_status(&toks[0], st);
                if updated {
                    plain_outcome(Response::UserstatusUpdated)
                } else {
                    plain_outcome(Response::InvalidRequest)
                }
            },
        }
    }
}

/// Dispatches one trimmed request frame against the shared state:
/// exactly one response per frame, plus the pushes a `SEND` routes to
/// other connections.
pub fn dispatch(state: &mut ServerState, sender: u64, frame: &Vec<char>) -> (out: DispatchOutcome)
    requires
        old(state).wf(),
    ensures
        final(state).wf(),
        dispatch_post(
            old(state).directory@,
            old(state).registry@,
            final(state).directory@,
            final(state).registry@,
            sender,
            frame@,
            out,
        ),
{
    let (cmd, rest) = split_first_space(frame);
    if chars_eq_str(&cmd, "JOIN") {
        let joined = state.directory.register(sender, &rest);
        if joined {
            plain_outcome(Response::Okay)
        } else {
            plain_outcome(Response::InvalidUsername)
        }
    } else if chars_eq_str(&cmd, "LEAVE") {
        let _departed = state.cleanup(sender);
        plain_outcome(Response::Bye)
    } else if chars_eq_str(&cmd, "SEND") {
        handle_send(state, sender, &rest)
    } else if chars_eq_str(&cmd, "USERBOARD") {
        let snap = state.directory.snapshot();
        let board = board_json(&snap);
        proof {
            assert(snapshot_views(snap@) =~= board_pairs(state.directory@));
        }
        plain_outcome(Response::Board(board))
    } else if chars_eq_str(&cmd, "USERSTATUS") {
        handle_userstatus(state, &rest)
    } else {
        plain_outcome(Response::ServerError)
    }
}

} // verus!
