//! The guarantees the protocol core gives across operations, stated
//! over the same models the operations' own contracts use.

use vstd::prelude::*;
use crate::board::board_pairs;
use crate::chars::split_cmd;
use crate::dispatch::DispatchOutcome;
use crate::dispatch::dispatch_post;
use crate::dispatch::send_post;
use crate::json::send_fields_of;
use crate::protocol::Response;
use crate::protocol::Status;
use crate::chars::trim_chars;
use crate::router::DeliveryView;
use crate::router::all_reachable;
use crate::router::directed_deliveries;
use crate::router::fanout_deliveries;
use crate::state::UserView;
use crate::state::dir_wf;
use crate::state::find_conn;
use crate::state::has_conn;
use crate::state::has_name;
use crate::state::lemma_conn_idx;
use crate::state::lemma_name_idx;
use crate::state::lemma_reg_idx;
use crate::state::conn_idx;
use crate::state::name_of;
use crate::state::reg_has;
use crate::state::reg_idx;
use crate::state::reg_remove;
use crate::state::reg_wf;
use crate::state::remove_conn;
use crate::state::with_status;
use crate::username::valid_username;

verus! {

/// Whether some push in `ds` is addressed to connection `c`.
pub open spec fn delivered_to(ds: Seq<DeliveryView>, c: u64) -> bool {
    exists|k: int| 0 <= k < ds.len() && ds[k].conn == c
}

/// Law: of any number of `JOIN` attempts with the same username, at
/// most one succeeds.  Registrations are serialized; once one has
/// succeeded, the name is held, so the success condition of a
/// registration of that name by any other connection is false, and
/// that attempt is answered `400 INVALID USERNAME`.
pub proof fn lemma_join_uniqueness(users: Seq<UserView>, c1: u64, c2: u64, name: Seq<char>)
    requires
        !has_name(users, name),
    ensures
        ({
            let joined = users.push(UserView { conn: c1, name, status: Status::Online });
            &&& has_name(joined, name)
            &&& !(valid_username(name) && !has_name(joined, name) && !has_conn(joined, c2))
        }),
{
    let joined = users.push(UserView { conn: c1, name, status: Status::Online });
    lemma_name_idx(joined, name);
    assert(joined[users.len() as int].name == name);
}

/// Law: of two `JOIN` frames carrying the same username, dispatched
/// one after the other, at most the first succeeds: when it was
/// answered `200 OK`, the second is answered `400 INVALID USERNAME`
/// and changes nothing.  Nothing is assumed of the two senders.
pub proof fn lemma_second_join_rejected(
    users1: Seq<UserView>,
    conns1: Seq<u64>,
    users2: Seq<UserView>,
    conns2: Seq<u64>,
    users3: Seq<UserView>,
    conns3: Seq<u64>,
    c1: u64,
    c2: u64,
    frame1: Seq<char>,
    frame2: Seq<char>,
    out1: DispatchOutcome,
    out2: DispatchOutcome,
)
    requires
        split_cmd(frame1).0 == "JOIN"@,
        split_cmd(frame2).0 == "JOIN"@,
        split_cmd(frame2).1 == split_cmd(frame1).1,
        dispatch_post(users1, conns1, users2, conns2, c1, frame1, out1),
        dispatch_post(users2, conns2, users3, conns3, c2, frame2, out2),
        out1.response == Response::Okay,
    ensures
        out2.response == Response::InvalidUsername,
        users3 == users2,
        conns3 == conns2,
{
    let name = split_cmd(frame1).1;
    assert(users2[users2.len() - 1].name == name);
    lemma_name_idx(users2, name);
    assert(has_name(users2, name));
}

/// Law: while some user holds `name`, every further `JOIN` of `name`,
/// from any connection, is answered `400 INVALID USERNAME` and changes
/// nothing — so over any sequence of `JOIN` attempts with one
/// username, at most one is ever answered `200 OK`.
pub proof fn lemma_join_while_held(
    users1: Seq<UserView>,
    conns1: Seq<u64>,
    users2: Seq<UserView>,
    conns2: Seq<u64>,
    c: u64,
    frame: Seq<char>,
    out: DispatchOutcome,
)
    requires
        split_cmd(frame).0 == "JOIN"@,
        has_name(users1, split_cmd(frame).1),
        dispatch_post(users1, conns1, users2, conns2, c, frame, out),
    ensures
        out.response == Response::InvalidUsername,
        users2 == users1,
        conns2 == conns1,
{
}

/// Law: a second `LEAVE` from the same connection removes nothing
/// further: it is answered `200 BYE` like the first and leaves the
/// state exactly as the first left it.
pub proof fn lemma_second_leave_noop(
    users1: Seq<UserView>,
    conns1: Seq<u64>,
    users2: Seq<UserView>,
    conns2: Seq<u64>,
    users3: Seq<UserView>,
    conns3: Seq<u64>,
    c: u64,
    frame1: Seq<char>,
    frame2: Seq<char>,
    out1: DispatchOutcome,
    out2: DispatchOutcome,
)
    requires
        dir_wf(users1),
        reg_wf(conns1),
        split_cmd(frame1).0 == "LEAVE"@,
        split_cmd(frame2).0 == "LEAVE"@,
        dispatch_post(users1, conns1, users2, conns2, c, frame1, out1),
        dispatch_post(users2, conns2, users3, conns3, c, frame2, out2),
    ensures
        out1.response == Response::Bye,
        out2.response == Response::Bye,
        users3 == users2,
        conns3 == conns2,
{
    reveal_strlit("JOIN");
    reveal_strlit("LEAVE");
    assert("JOIN"@.len() == 4);
    assert("LEAVE"@.len() == 5);
    lemma_cleanup_idempotent(users1, conns1, c);
}

/// Law: cleanup is idempotent.  Removing a connection from the
/// directory and the registry a second time — a second `LEAVE`, or a
/// disconnect after a `LEAVE` — finds nothing, removes nothing and
/// changes nothing; and the board after cleanup never lists the
/// departed user's name.
pub proof fn lemma_cleanup_idempotent(users: Seq<UserView>, conns: Seq<u64>, c: u64)
    requires
        dir_wf(users),
        reg_wf(conns),
    ensures
        remove_conn(remove_conn(users, c), c) == remove_conn(users, c),
        reg_remove(reg_remove(conns, c), c) == reg_remove(conns, c),
        name_of(remove_conn(users, c), c) is None,
        match name_of(users, c) {
            Some(nm) => !has_name(remove_conn(users, c), nm),
            None => true,
        },
{
    lemma_conn_idx(users, c);
    let post = remove_conn(users, c);
    if has_conn(users, c) {
        let i = conn_idx(users, c);
        users.remove_ensures(i);
        assert(forall|k: int| 0 <= k < post.len() ==> (#[trigger] post[k]).conn != c);
    } else {
        assert(forall|k: int| 0 <= k < post.len() ==> (#[trigger] post[k]).conn != c);
    }
    lemma_conn_idx(post, c);
    assert(!has_conn(post, c));
    if has_conn(users, c) {
        let i = conn_idx(users, c);
        let nm = users[i].name;
        assert(forall|k: int| 0 <= k < post.len() ==> (#[trigger] post[k]).name != nm);
        lemma_name_idx(post, nm);
    }
    lemma_reg_idx(conns, c);
    let rpost = reg_remove(conns, c);
    if reg_has(conns, c) {
        let i = reg_idx(conns, c);
        conns.remove_ensures(i);
        assert(forall|k: int| 0 <= k < rpost.len() ==> #[trigger] rpost[k] != c);
    } else {
        assert(forall|k: int| 0 <= k < rpost.len() ==> #[trigger] rpost[k] != c);
    }
    lemma_reg_idx(rpost, c);
    assert(!reg_has(rpost, c));
}

/// Law: a broadcast reaches every registered connection other than
/// the sender's, each push carries the message line, and the sender
/// never receives its own broadcast.
pub proof fn lemma_fanout_coverage(conns: Seq<u64>, sender: u64, line: Seq<char>)
    ensures
        ({
            let ds = fanout_deliveries(conns, sender, line);
            &&& forall|k: int|
                0 <= k < ds.len() ==> (#[trigger] ds[k]).conn != sender && ds[k].line == line
            &&& forall|c: u64|
                #[trigger] conns.contains(c) && c != sender ==> delivered_to(ds, c)
        }),
    decreases conns.len(),
{
    let ds = fanout_deliveries(conns, sender, line);
    if conns.len() == 0 {
    } else {
        lemma_fanout_coverage(conns.skip(1), sender, line);
        let rest = fanout_deliveries(conns.skip(1), sender, line);
        assert forall|c: u64| #[trigger] conns.contains(c) && c != sender implies delivered_to(
            ds,
            c,
        ) by {
            let i = choose|i: int| 0 <= i < conns.len() && conns[i] == c;
            if i == 0 {
                assert(ds[0].conn == c);
            } else {
                assert(conns.skip(1)[i - 1] == c);
                assert(conns.skip(1).contains(c));
                let k = choose|k: int| 0 <= k < rest.len() && rest[k].conn == c;
                if conns[0] != sender {
                    assert(ds[k + 1].conn == c);
                } else {
                    assert(ds[k].conn == c);
                }
            }
        }
    }
}

/// Law: a directed send delivers to every recipient that resolves to
/// a live connection, even when another named recipient does not
/// resolve and the aggregate verdict is therefore failure.
pub proof fn lemma_directed_partial_delivery(
    users: Seq<UserView>,
    conns: Seq<u64>,
    recips: Seq<Seq<char>>,
    line: Seq<char>,
    j: int,
)
    requires
        0 <= j < recips.len(),
        match find_conn(users, recips[j]) {
            Some(c) => reg_has(conns, c),
            None => false,
        },
    ensures
        delivered_to(
            directed_deliveries(users, conns, recips, line),
            find_conn(users, recips[j])->0,
        ),
    decreases recips.len(),
{
    let ds = directed_deliveries(users, conns, recips, line);
    let c = find_conn(users, recips[j])->0;
    if j == 0 {
        assert(ds[0].conn == c);
    } else {
        assert(recips.skip(1)[j - 1] == recips[j]);
        lemma_directed_partial_delivery(users, conns, recips.skip(1), line, j - 1);
        let rest = directed_deliveries(users, conns, recips.skip(1), line);
        let k = choose|k: int| 0 <= k < rest.len() && rest[k].conn == c;
        let head_len = ds.len() - rest.len();
        assert(ds[head_len + k].conn == c);
    }
}

/// Law: one unresolvable recipient fails the whole directed send's
/// verdict, however many of the others were reached.
pub proof fn lemma_directed_aggregate_failure(
    users: Seq<UserView>,
    conns: Seq<u64>,
    recips: Seq<Seq<char>>,
    j: int,
)
    requires
        0 <= j < recips.len(),
        match find_conn(users, recips[j]) {
            Some(c) => !reg_has(conns, c),
            None => true,
        },
    ensures
        !all_reachable(users, conns, recips),
    decreases recips.len(),
{
    if j == 0 {
    } else {
        assert(recips.skip(1)[j - 1] == recips[j]);
        lemma_directed_aggregate_failure(users, conns, recips.skip(1), j - 1);
    }
}

/// Law: a message body that trims to nothing, or to more than 500
/// characters, is rejected with `400 MESSAGE FAILED` before any
/// routing: no recipient receives it.
pub proof fn lemma_message_bounds(
    users: Seq<UserView>,
    conns: Seq<u64>,
    sender: u64,
    rest: Seq<char>,
    out: DispatchOutcome,
)
    requires
        send_post(users, conns, sender, rest, out),
        match send_fields_of(rest) {
            Some((h, m)) => match m {
                Some(body) => !(1 <= trim_chars(body).len() <= 500),
                None => false,
            },
            None => false,
        },
    ensures
        out.response == Response::MessageFailed,
        out.deliveries@.len() == 0,
{
}

/// Law: a status update is visible on the next board: after a
/// `USERSTATUS` on `name`, the board pairs carry the new status for
/// `name` and everyone else's pair is untouched.
pub proof fn lemma_status_round_trip(users: Seq<UserView>, name: Seq<char>, st: Status)
    requires
        dir_wf(users),
    ensures
        ({
            let post = with_status(users, name, st);
            &&& board_pairs(post).len() == board_pairs(users).len()
            &&& forall|k: int|
                0 <= k < users.len() ==> #[trigger] board_pairs(post)[k] == (if users[k].name
                    == name {
                    (users[k].name, st)
                } else {
                    board_pairs(users)[k]
                })
        }),
{
    let post = with_status(users, name, st);
    assert(forall|k: int|
        0 <= k < users.len() ==> #[trigger] post[k] == (if users[k].name == name {
            UserView { conn: users[k].conn, name: users[k].name, status: st }
        } else {
            users[k]
        }));
}

} // verus!

