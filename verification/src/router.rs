//! The message router: resolves a message's recipient header to the
//! set of connections that are to receive it.  The surrounding I/O
//! layer performs the writes; the router decides who gets what line.

use vstd::prelude::*;
use crate::state::Directory;
use crate::state::Registry;
use crate::state::UserView;
use crate::state::find_conn;
use crate::state::reg_has;

verus! {

/// Ghost record of one outbound push.
pub struct DeliveryView {
    pub conn: u64,
    pub line: Seq<char>,
}

/// One outbound push: the connection to write to and the full
/// newline-terminated line to write.
pub struct Delivery {
    pub conn: u64,
    pub line: String,
}

impl View for Delivery {
    type V = DeliveryView;

    open spec fn view(&self) -> DeliveryView {
        DeliveryView { conn: self.conn, line: self.line@ }
    }
}

/// The views of a sequence of deliveries.
pub open spec fn delivery_views(ds: Seq<Delivery>) -> Seq<DeliveryView> {
    ds.map_values(|d: Delivery| d@)
}

/// The pushes a broadcast produces: one copy of `line` for every
/// registered connection except the sender's own, in registry order.
pub open spec fn fanout_deliveries(conns: Seq<u64>, sender: u64, line: Seq<char>) -> Seq<
    DeliveryView,
>
    decreases conns.len(),
{
    if conns.len() == 0 {
        Seq::empty()
    } else {
        let head = if conns[0] != sender {
            seq![DeliveryView { conn: conns[0], line }]
        } else {
            Seq::empty()
        };
        head + fanout_deliveries(conns.skip(1), sender, line)
    }
}

/// The pushes a directed send produces: one per named recipient that
/// resolves to a live connection with a write handle, in header order.
/// A recipient named twice is pushed to twice.
pub open spec fn directed_deliveries(
    users: Seq<UserView>,
    conns: Seq<u64>,
    recips: Seq<Seq<char>>,
    line: Seq<char>,
) -> Seq<DeliveryView>
    decreases recips.len(),
{
    if recips.len() == 0 {
        Seq::empty()
    } else {
        let head = match find_conn(users, recips[0]) {
            Some(c) => if reg_has(conns, c) {
                seq![DeliveryView { conn: c, line }]
            } else {
                Seq::empty()
            },
            None => Seq::empty(),
        };
        head + directed_deliveries(users, conns, recips.skip(1), line)
    }
}

/// Whether every named recipient resolves to a live connection with a
/// write handle; a directed send succeeds only when this holds and
/// every write goes through.
pub open spec fn all_reachable(users: Seq<UserView>, conns: Seq<u64>, recips: Seq<Seq<char>>) -> bool
    decreases recips.len(),
{
    if recips.len() == 0 {
        true
    } else {
        &&& match find_conn(users, recips[0]) {
            Some(c) => reg_has(conns, c),
            None => false,
        }
        &&& all_reachable(users, conns, recips.skip(1))
    }
}

/// The recipients a directed header names: each whitespace-separated
/// token that starts with `@`, with the `@` stripped, in order.
pub open spec fn strip_recipients(toks: Seq<Seq<char>>) -> Seq<Seq<char>>
    decreases toks.len(),
{
    if toks.len() == 0 {
        Seq::empty()
    } else {
        let head: Seq<Seq<char>> = if toks[0].len() > 0 && toks[0][0] == '@' {
            seq![toks[0].skip(1)]
        } else {
            Seq::empty()
        };
        head + strip_recipients(toks.skip(1))
    }
}

/// Picks the `@`-prefixed tokens from position `i` on and strips the
/// prefix.
fn strip_at_tokens_from(toks: &Vec<Vec<char>>, i: usize) -> (r: Vec<Vec<char>>)
    requires
        i <= toks@.len(),
    ensures
        r.deep_view() == strip_recipients(toks.deep_view().skip(i as int)),
    decreases toks@.len() - i,
{
    let ghost dv = toks.deep_view();
    if i == toks.len() {
        proof {
            assert(dv.skip(i as int) =~= Seq::<Seq<char>>::empty());
        }
        Vec::new()
    } else {
        let mut rest = strip_at_tokens_from(toks, i + 1);
        let ghost rest_dv = rest.deep_view();
        proof {
            assert(dv.skip(i as int)[0] == dv[i as int]);
            assert(dv.skip(i as int).skip(1) =~= dv.skip(i as int + 1));
            assert(toks@[i as int]@ == dv[i as int]);
        }
        let t = &toks[i];
        if t.len() > 0 && t[0] == '@' {
            let stripped = crate::chars::subvec(t, 1, t.len());
            proof {
                assert(stripped@ =~= dv[i as int].skip(1));
            }
            rest.insert(0, stripped);
            proof {
                assert(rest.deep_view() =~~= seq![dv[i as int].skip(1)] + rest_dv);
            }
        } else {
            proof {
                assert(Seq::<Seq<char>>::empty() + rest_dv =~= rest_dv);
            }
        }
        rest
    }
}

/// Extracts the recipient names of a directed header's tokens: the
/// `@`-prefixed tokens, each with its `@` stripped, in order.
pub fn strip_at_tokens(toks: &Vec<Vec<char>>) -> (r: Vec<Vec<char>>)
    ensures
        r.deep_view() == strip_recipients(toks.deep_view()),
{
    let r = strip_at_tokens_from(toks, 0);
    proof {
        assert(toks.deep_view().skip(0) =~= toks.deep_view());
    }
    r
}

/// Computes the pushes of a broadcast from position `i` of the
/// registry order on.
fn route_fanout_from(conns: &Vec<u64>, i: usize, sender: u64, line: &String) -> (r: Vec<Delivery>)
    requires
        i <= conns@.len(),
    ensures
        delivery_views(r@) == fanout_deliveries(conns@.skip(i as int), sender, line@),
    decreases conns@.len() - i,
{
    if i == conns.len() {
        proof {
            assert(conns@.skip(i as int) =~= Seq::<u64>::empty());
            assert(delivery_views(Seq::<Delivery>::empty()) =~= Seq::<DeliveryView>::empty());
        }
        Vec::new()
    } else {
        let mut ds = route_fanout_from(conns, i + 1, sender, line);
        let ghost rest_views = delivery_views(ds@);
        proof {
            assert(conns@.skip(i as int)[0] == conns@[i as int]);
            assert(conns@.skip(i as int).skip(1) =~= conns@.skip(i as int + 1));
        }
        if conns[i] != sender {
            ds.insert(0, Delivery { conn: conns[i], line: line.clone() });
            proof {
                assert(delivery_views(ds@) =~= seq![
                    DeliveryView { conn: conns@[i as int], line: line@ },
                ] + rest_views);
            }
        } else {
            proof {
                assert(Seq::<DeliveryView>::empty() + rest_views =~= rest_views);
            }
        }
        ds
    }
}

/// Computes the pushes of a broadcast: one copy of `line` for every
/// registered connection except the sender's, in registry order.
pub fn route_fanout(reg: &Registry, sender: u64, line: &String) -> (r: Vec<Delivery>)
    ensures
        delivery_views(r@) == fanout_deliveries(reg@, sender, line@),
{
    let conns = reg.ids();
    let r = route_fanout_from(conns, 0, sender, line);
    proof {
        assert(reg@.skip(0) =~= reg@);
    }
    r
}

/// Computes the pushes of a directed send from position `i` of the
/// recipient list on, together with whether every one of those
/// recipients was reachable.
fn route_directed_from(
    dir: &Directory,
    reg: &Registry,
    recips: &Vec<Vec<char>>,
    i: usize,
    line: &String,
) -> (r: (Vec<Delivery>, bool))
    requires
        i <= recips@.len(),
    ensures
        delivery_views(r.0@) == directed_deliveries(
            dir@,
            reg@,
            recips.deep_view().skip(i as int),
            line@,
        ),
        r.1 == all_reachable(dir@, reg@, recips.deep_view().skip(i as int)),
    decreases recips@.len() - i,
{
    let ghost dv = recips.deep_view();
    if i == recips.len() {
        proof {
            assert(dv.skip(i as int) =~= Seq::<Seq<char>>::empty());
            assert(delivery_views(Seq::<Delivery>::empty()) =~= Seq::<DeliveryView>::empty());
        }
        (Vec::new(), true)
    } else {
        let (mut ds, rest_ok) = route_directed_from(dir, reg, recips, i + 1, line);
        let ghost rest_views = delivery_views(ds@);
        proof {
            assert(dv.skip(i as int).len() > 0);
            assert(dv.skip(i as int)[0] == dv[i as int]);
            assert(dv.skip(i as int).skip(1) =~= dv.skip(i as int + 1));
            assert(recips@[i as int]@ == dv[i as int]);
        }
        let target = dir.find_connection(&recips[i]);
        match target {
            Some(c) => {
                if reg.contains(c) {
                    ds.insert(0, Delivery { conn: c, line: line.clone() });
                    proof {
                        assert(delivery_views(ds@) =~= seq![
                            DeliveryView { conn: c, line: line@ },
                        ] + rest_views);
                    }
                    (ds, rest_ok)
                } else {
                    proof {
                        assert(Seq::<DeliveryView>::empty() + rest_views =~= rest_views);
                    }
                    (ds, false)
                }
            }
            None => {
                proof {
                    assert(Seq::<DeliveryView>::empty() + rest_views =~= rest_views);
                }
                (ds, false)
            }
        }
    }
}

/// Computes the pushes of a directed send: one copy of `line` per
/// named recipient that resolves, in header order, and whether every
/// named recipient was reachable.
pub fn route_directed(
    dir: &Directory,
    reg: &Registry,
    recips: &Vec<Vec<char>>,
    line: &String,
) -> (r: (Vec<Delivery>, bool))
    ensures
        delivery_views(r.0@) == directed_deliveries(dir@, reg@, recips.deep_view(), line@),
        r.1 == all_reachable(dir@, reg@, recips.deep_view()),
{
    let r = route_directed_from(dir, reg, recips, 0, line);
    proof {
        assert(recips.deep_view().skip(0) =~= recips.deep_view());
    }
    r
}

} // verus!
