//! Rendering of the user board: the JSON object that maps each live
//! user's name to its status, reported by `USERBOARD`.
//!
//! Usernames are letters and digits — never a quote, a backslash or
//! a control character — and statuses are fixed tokens, so no JSON
//! escaping can arise and the object is rendered here, character by
//! character, against an exact specification.

use vstd::prelude::*;
use crate::protocol::Status;
use crate::state::UserView;

verus! {

/// The name/status pairs of the directory, in directory order.
pub open spec fn board_pairs(users: Seq<UserView>) -> Seq<(Seq<char>, Status)> {
    users.map_values(|u: UserView| (u.name, u.status))
}

/// The views of an executable snapshot.
pub open spec fn snapshot_views(s: Seq<(String, Status)>) -> Seq<(Seq<char>, Status)> {
    s.map_values(|p: (String, Status)| (p.0@, p.1))
}

/// One board entry: `"name":"STATUS"`.
pub open spec fn board_item(p: (Seq<char>, Status)) -> Seq<char> {
    "\""@ + p.0 + "\":\""@ + p.1.token_spec() + "\""@
}

/// The comma-separated board entries from position `i` on; `first`
/// says whether the entry at `i` is the object's first.
pub open spec fn board_from(ps: Seq<(Seq<char>, Status)>, i: int, first: bool) -> Seq<char>
    decreases ps.len() - i,
{
    if i < 0 || i >= ps.len() {
        Seq::empty()
    } else {
        (if first {
            Seq::empty()
        } else {
            ","@
        }) + board_item(ps[i]) + board_from(ps, i + 1, false)
    }
}

/// The whole board object: `{"a":"ONLINE","b":"OFFLINE"}`.
pub open spec fn board_text(ps: Seq<(Seq<char>, Status)>) -> Seq<char> {
    "{"@ + board_from(ps, 0, true) + "}"@
}

/// Renders a snapshot as the board's JSON object.
pub fn board_json(snap: &Vec<(String, Status)>) -> (r: String)
    ensures
        r@ == board_text(snapshot_views(snap@)),
{
    let ghost ps = snapshot_views(snap@);
    let n: usize = snap.len();
    let mut r = String::from_str("{");
    let mut i: usize = 0;
    while i < n
        invariant
            i <= n,
            n == ps.len(),
            ps == snapshot_views(snap@),
            r@ + board_from(ps, i as int, i == 0) == "{"@ + board_from(ps, 0, true),
        decreases n - i,
    {
        let ghost pre = r@;
        let ghost sep: Seq<char> = if i == 0 {
            Seq::empty()
        } else {
            ","@
        };
        if i > 0 {
            r.append(",");
        }
        r.append("\"");
        r.append(snap[i].0.as_str());
        r.append("\":\"");
        r.append(snap[i].1.token());
        r.append("\"");
        proof {
            assert(ps[i as int] == (snap@[i as int].0@, snap@[i as int].1));
            assert(r@ =~= pre + sep + board_item(ps[i as int]));
            assert(board_from(ps, i as int, i == 0) == sep + board_item(ps[i as int])
                + board_from(ps, i as int + 1, false));
            assert(r@ + board_from(ps, i as int + 1, false) =~= pre + board_from(
                ps,
                i as int,
                i == 0,
            ));
        }
        i = i + 1;
    }
    proof {
        assert(board_from(ps, n as int, n == 0) == Seq::<char>::empty());
        assert(r@ + board_from(ps, n as int, n == 0) =~= r@);
    }
    r.append("}");
    r
}

} // verus!
