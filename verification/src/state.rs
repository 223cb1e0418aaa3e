//! The shared server state: the user directory (connection → username,
//! status) and the connection registry (the set of connections with a
//! live write handle).  The two are mutated together by the dispatcher
//! and cleaned up together when a connection ends, in either order of
//! cause (an explicit `LEAVE` or a dropped socket), exactly once.

use vstd::prelude::*;
use crate::chars::chars_eq_str;
use crate::chars::chars_to_string;
use crate::protocol::Status;
use crate::username::is_valid_username;
use crate::username::valid_username;

verus! {

/// Ghost record of one joined user.
pub struct UserView {
    pub conn: u64,
    pub name: Seq<char>,
    pub status: Status,
}

/// One joined user: the connection it entered on, its unique username,
/// and its current status.
pub struct UserEntry {
    pub conn: u64,
    pub name: String,
    pub status: Status,
}

impl View for UserEntry {
    type V = UserView;

    open spec fn view(&self) -> UserView {
        UserView { conn: self.conn, name: self.name@, status: self.status }
    }
}

/// Index of the first entry for connection `c`, or `users.len()` if
/// the connection has no entry.
pub open spec fn conn_idx(users: Seq<UserView>, c: u64) -> int
    decreases users.len(),
{
    if users.len() == 0 {
        0
    } else if users[0].conn == c {
        0
    } else {
        1 + conn_idx(users.skip(1), c)
    }
}

/// Characterizes `conn_idx`: it is in range, points at `c` when in
/// range, and nothing before it holds `c`.
pub proof fn lemma_conn_idx(users: Seq<UserView>, c: u64)
    ensures
        0 <= conn_idx(users, c) <= users.len(),
        conn_idx(users, c) < users.len() ==> users[conn_idx(users, c)].conn == c,
        forall|k: int| 0 <= k < conn_idx(users, c) ==> users[k].conn != c,
    decreases users.len(),
{
    if users.len() > 0 && users[0].conn != c {
        lemma_conn_idx(users.skip(1), c);
        let m = conn_idx(users.skip(1), c);
        if m < users.skip(1).len() {
            assert(users.skip(1)[m] == users[m + 1]);
        }
        assert forall|k: int|
            0 <= k < conn_idx(users, c) implies users[k].conn != c by {
            if k > 0 {
                assert(users.skip(1)[k - 1] == users[k]);
            }
        }
    }
}

/// Index of the first entry named `n`, or `users.len()` if no user
/// carries that name.
pub open spec fn name_idx(users: Seq<UserView>, n: Seq<char>) -> int
    decreases users.len(),
{
    if users.len() == 0 {
        0
    } else if users[0].name == n {
        0
    } else {
        1 + name_idx(users.skip(1), n)
    }
}

/// Characterizes `name_idx` as `lemma_conn_idx` does `conn_idx`.
pub proof fn lemma_name_idx(users: Seq<UserView>, n: Seq<char>)
    ensures
        0 <= name_idx(users, n) <= users.len(),
        name_idx(users, n) < users.len() ==> users[name_idx(users, n)].name == n,
        forall|k: int| 0 <= k < name_idx(users, n) ==> users[k].name != n,
    decreases users.len(),
{
    if users.len() > 0 && users[0].name != n {
        lemma_name_idx(users.skip(1), n);
        let m = name_idx(users.skip(1), n);
        if m < users.skip(1).len() {
            assert(users.skip(1)[m] == users[m + 1]);
        }
        assert forall|k: int|
            0 <= k < name_idx(users, n) implies users[k].name != n by {
            if k > 0 {
                assert(users.skip(1)[k - 1] == users[k]);
            }
        }
    }
}

/// Whether connection `c` has a directory entry.
pub open spec fn has_conn(users: Seq<UserView>, c: u64) -> bool {
    conn_idx(users, c) < users.len()
}

/// Whether some live user carries the name `n`.
pub open spec fn has_name(users: Seq<UserView>, n: Seq<char>) -> bool {
    name_idx(users, n) < users.len()
}

/// The connection the user named `n` lives on, if any.
pub open spec fn find_conn(users: Seq<UserView>, n: Seq<char>) -> Option<u64> {
    if has_name(users, n) {
        Some(users[name_idx(users, n)].conn)
    } else {
        None
    }
}

/// The name registered for connection `c`, if any.
pub open spec fn name_of(users: Seq<UserView>, c: u64) -> Option<Seq<char>> {
    if has_conn(users, c) {
        Some(users[conn_idx(users, c)].name)
    } else {
        None
    }
}

/// The directory after connection `c`'s entry is removed; unchanged
/// when `c` has none.
pub open spec fn remove_conn(users: Seq<UserView>, c: u64) -> Seq<UserView> {
    if has_conn(users, c) {
        users.remove(conn_idx(users, c))
    } else {
        users
    }
}

/// The directory after every user named `n` — with well-formedness,
/// the one user — changes status to `st`.
pub open spec fn with_status(users: Seq<UserView>, n: Seq<char>, st: Status) -> Seq<UserView> {
    users.map_values(
        |u: UserView|
            if u.name == n {
                UserView { conn: u.conn, name: u.name, status: st }
            } else {
                u
            },
    )
}

/// Directory well-formedness: no two entries share a connection and
/// no two share a name.  (Every name also passed validation when it
/// was registered; that is a fact about `register`, stated there, not
/// an invariant the proofs lean on.)
pub open spec fn dir_wf(users: Seq<UserView>) -> bool {
    &&& forall|i: int, j: int|
        #![trigger users[i].conn, users[j].conn]
        0 <= i < j < users.len() ==> users[i].conn != users[j].conn
    &&& forall|i: int, j: int|
        #![trigger users[i].name, users[j].name]
        0 <= i < j < users.len() ==> users[i].name != users[j].name
}

/// The user directory: the shared mapping from connection identity to
/// username and status, enforcing username uniqueness and validity.
pub struct Directory {
    entries: Vec<UserEntry>,
}

impl View for Directory {
    type V = Seq<UserView>;

    closed spec fn view(&self) -> Seq<UserView> {
        self.entries@.map_values(|e: UserEntry| e@)
    }
}

impl Directory {
    /// Directory well-formedness; established by `new` and preserved
    /// by every operation.
    pub open spec fn wf(&self) -> bool {
        dir_wf(self@)
    }

    /// An empty directory.
    pub fn new() -> (r: Directory)
        ensures
            r.wf(),
            r@ == Seq::<UserView>::empty(),
    {
        let r = Directory { entries: Vec::new() };
        proof {
            assert(r@ =~= Seq::<UserView>::empty());
        }
        r
    }

    /// Registers `name` for connection `conn` with status `ONLINE`.
    /// Succeeds exactly when the name is valid, no live user already
    /// carries it, and the connection is not yet registered; the
    /// uniqueness check and the insertion are one step, so two
    /// registrations of one name cannot both succeed.
    pub fn register(&mut self, conn: u64, name: &Vec<char>) -> (r: bool)
        requires
            old(self).wf(),
        ensures
            final(self).wf(),
            r == (valid_username(name@) && !has_name(old(self)@, name@) && !has_conn(
                old(self)@,
                conn,
            )),
            r ==> final(self)@ == old(self)@.push(
                UserView { conn, name: name@, status: Status::Online },
            ),
            !r ==> final(self)@ == old(self)@,
    {
        if !is_valid_username(name) {
            return false;
        }
        let n: usize = self.entries.len();
        let ghost users = self@;
        let mut i: usize = 0;
        while i < n
            invariant
                i <= n,
                n == users.len(),
                users == self@,
                dir_wf(users),
                forall|k: int| 0 <= k < i ==> users[k].name != name@,
                forall|k: int| 0 <= k < i ==> users[k].conn != conn,
            decreases n - i,
        {
            if chars_eq_str(name, self.entries[i].name.as_str()) {
                proof {
                    assert(users[i as int].name == name@);
                    lemma_name_idx(users, name@);
                }
                return false;
            }
            if self.entries[i].conn == conn {
                proof {
                    assert(users[i as int].conn == conn);
                    lemma_conn_idx(users, conn);
                }
                return false;
            }
            i = i + 1;
        }
        proof {
            lemma_name_idx(users, name@);
            lemma_conn_idx(users, conn);
        }
        let entry = UserEntry { conn, name: chars_to_string(name), status: Status::Online };
        let ghost ev = entry@;
        self.entries.push(entry);
        proof {
            assert(self@ =~= users.push(ev));
            assert(dir_wf(self@));
        }
        true
    }

    /// Removes and returns the username registered for `conn`; returns
    /// nothing, and changes nothing, when the connection was never
    /// registered.
    pub fn unregister(&mut self, conn: u64) -> (r: Option<String>)
        requires
            old(self).wf(),
        ensures
            final(self).wf(),
            final(self)@ == remove_conn(old(self)@, conn),
            match r {
                Some(nm) => name_of(old(self)@, conn) == Some(nm@),
                None => name_of(old(self)@, conn) is None,
            },
    {
        let n: usize = self.entries.len();
        let ghost users = self@;
        let ghost ents = self.entries@;
        let mut i: usize = 0;
        while i < n
            invariant
                i <= n,
                n == users.len(),
                users == self@,
                users == old(self)@,
                dir_wf(users),
                ents == self.entries@,
                forall|k: int| 0 <= k < i ==> users[k].conn != conn,
            decreases n - i,
        {
            if self.entries[i].conn == conn {
                let entry = self.entries.remove(i);
                proof {
                    assert(users[i as int].conn == conn);
                    lemma_conn_idx(users, conn);
                    assert(conn_idx(users, conn) == i as int);
                    ents.remove_ensures(i as int);
                    users.remove_ensures(i as int);
                    assert(self@ =~= users.remove(i as int));
                    assert(dir_wf(self@));
                    assert(entry@ == users[i as int]);
                }
                return Some(entry.name);
            }
            i = i + 1;
        }
        proof {
            lemma_conn_idx(users, conn);
        }
        None
    }

    /// Sets the status of the user named `name`; fails, changing
    /// nothing, when no live user carries that name.
    pub fn set_status(&mut self, name: &Vec<char>, st: Status) -> (r: bool)
        requires
            old(self).wf(),
        ensures
            final(self).wf(),
            r == has_name(old(self)@, name@),
            r ==> final(self)@ == with_status(old(self)@, name@, st),
            !r ==> final(self)@ == old(self)@,
    {
        let n: usize = self.entries.len();
        let ghost users = self@;
        let ghost ents = self.entries@;
        let mut i: usize = 0;
        while i < n
            invariant
                i <= n,
                n == users.len(),
                users == self@,
                users == old(self)@,
                dir_wf(users),
                ents == self.entries@,
                forall|k: int| 0 <= k < i ==> users[k].name != name@,
            decreases n - i,
        {
            if chars_eq_str(name, self.entries[i].name.as_str()) {
                let entry = self.entries.remove(i);
                let updated = UserEntry { conn: entry.conn, name: entry.name, status: st };
                let ghost upent = updated;
                self.entries.insert(i, updated);
                proof {
                    assert(users[i as int].name == name@);
                    lemma_name_idx(users, name@);
                    vstd::seq_lib::lemma_update_is_remove_insert(ents, i as int, upent);
                    assert(self.entries@ == ents.update(i as int, upent));
                    assert(self@ =~= with_status(users, name@, st));
                    assert(forall|k: int|
                        0 <= k < self@.len() ==> (#[trigger] self@[k]).name == users[k].name
                            && self@[k].conn == users[k].conn);
                    assert(dir_wf(self@));
                }
                return true;
            }
            i = i + 1;
        }
        proof {
            lemma_name_idx(users, name@);
        }
        false
    }

    /// Decides well-formedness at run time, so that an unverified
    /// caller can test it instead of assuming it.
    pub fn is_consistent(&self) -> (r: bool)
        ensures
            r == self.wf(),
    {
        let n: usize = self.entries.len();
        let ghost users = self@;
        let mut i: usize = 0;
        while i < n
            invariant
                i <= n,
                n == users.len(),
                users == self@,
                forall|a: int, b: int|
                    #![trigger users[a].conn, users[b].conn]
                    0 <= a < b < n && a < i ==> users[a].conn != users[b].conn,
                forall|a: int, b: int|
                    #![trigger users[a].name, users[b].name]
                    0 <= a < b < n && a < i ==> users[a].name != users[b].name,
            decreases n - i,
        {
            let mut j: usize = i + 1;
            while j < n
                invariant
                    i < j <= n,
                    n == users.len(),
                    users == self@,
                    forall|b: int|
                        i < b < j ==> users[i as int].conn != (#[trigger] users[b]).conn,
                    forall|b: int|
                        i < b < j ==> users[i as int].name != (#[trigger] users[b]).name,
                decreases n - j,
            {
                if self.entries[i].conn == self.entries[j].conn {
                    proof {
                        assert(users[i as int].conn == users[j as int].conn);
                    }
                    return false;
                }
                if self.entries[i].name == self.entries[j].name {
                    proof {
                        assert(users[i as int].name == users[j as int].name);
                    }
                    return false;
                }
                j = j + 1;
            }
            i = i + 1;
        }
        true
    }

    /// A point-in-time copy of the board: every live user's name and
    /// status, in directory order.
    pub fn snapshot(&self) -> (r: Vec<(String, Status)>)
        ensures
            r@.len() == self@.len(),
            forall|i: int|
                0 <= i < self@.len() ==> (#[trigger] r@[i]).0@ == self@[i].name && r@[i].1
                    == self@[i].status,
    {
        let n: usize = self.entries.len();
        let mut r: Vec<(String, Status)> = Vec::new();
        let mut i: usize = 0;
        while i < n
            invariant
                i <= n,
                n == self@.len(),
                r@.len() == i,
                forall|k: int|
                    0 <= k < i ==> (#[trigger] r@[k]).0@ == self@[k].name && r@[k].1
                        == self@[k].status,
            decreases n - i,
        {
            r.push((self.entries[i].name.clone(), self.entries[i].status));
            i = i + 1;
        }
        r
    }

    /// The connection the user named `name` lives on, if any; reflects
    /// the latest completed register/unregister.
    pub fn find_connection(&self, name: &Vec<char>) -> (r: Option<u64>)
        ensures
            r == find_conn(self@, name@),
    {
        let n: usize = self.entries.len();
        let mut i: usize = 0;
        while i < n
            invariant
                i <= n,
                n == self@.len(),
                forall|k: int| 0 <= k < i ==> self@[k].name != name@,
            decreases n - i,
        {
            if chars_eq_str(name, self.entries[i].name.as_str()) {
                proof {
                    assert(self@[i as int].name == name@);
                    lemma_name_idx(self@, name@);
                    assert(name_idx(self@, name@) == i as int);
                }
                return Some(self.entries[i].conn);
            }
            i = i + 1;
        }
        proof {
            lemma_name_idx(self@, name@);
        }
        None
    }
}

/// Index of connection `c` in the registry order, or `conns.len()`.
pub open spec fn reg_idx(conns: Seq<u64>, c: u64) -> int
    decreases conns.len(),
{
    if conns.len() == 0 {
        0
    } else if conns[0] == c {
        0
    } else {
        1 + reg_idx(conns.skip(1), c)
    }
}

/// Characterizes `reg_idx` as `lemma_conn_idx` does `conn_idx`.
pub proof fn lemma_reg_idx(conns: Seq<u64>, c: u64)
    ensures
        0 <= reg_idx(conns, c) <= conns.len(),
        reg_idx(conns, c) < conns.len() ==> conns[reg_idx(conns, c)] == c,
        forall|k: int| 0 <= k < reg_idx(conns, c) ==> conns[k] != c,
    decreases conns.len(),
{
    if conns.len() > 0 && conns[0] != c {
        lemma_reg_idx(conns.skip(1), c);
        let m = reg_idx(conns.skip(1), c);
        if m < conns.skip(1).len() {
            assert(conns.skip(1)[m] == conns[m + 1]);
        }
        assert forall|k: int|
            0 <= k < reg_idx(conns, c) implies conns[k] != c by {
            if k > 0 {
                assert(conns.skip(1)[k - 1] == conns[k]);
            }
        }
    }
}

/// Whether connection `c` holds a live write handle.
pub open spec fn reg_has(conns: Seq<u64>, c: u64) -> bool {
    reg_idx(conns, c) < conns.len()
}

/// The registry after connection `c` leaves; unchanged when absent.
pub open spec fn reg_remove(conns: Seq<u64>, c: u64) -> Seq<u64> {
    if reg_has(conns, c) {
        conns.remove(reg_idx(conns, c))
    } else {
        conns
    }
}

/// Registry well-formedness: each connection appears at most once.
pub open spec fn reg_wf(conns: Seq<u64>) -> bool {
    forall|i: int, j: int|
        #![trigger conns[i], conns[j]]
        0 <= i < j < conns.len() ==> conns[i] != conns[j]
}

/// The connection registry: the identities of the connections that
/// hold a live write handle.  The handles themselves are owned by the
/// surrounding I/O layer; routing decisions made here name the
/// connection, and that layer performs the write.
pub struct Registry {
    conns: Vec<u64>,
}

impl View for Registry {
    type V = Seq<u64>;

    closed spec fn view(&self) -> Seq<u64> {
        self.conns@
    }
}

impl Registry {
    /// Registry well-formedness; established by `new` and preserved by
    /// every operation.
    pub open spec fn wf(&self) -> bool {
        reg_wf(self@)
    }

    /// An empty registry.
    pub fn new() -> (r: Registry)
        ensures
            r.wf(),
            r@ == Seq::<u64>::empty(),
    {
        let r = Registry { conns: Vec::new() };
        proof {
            assert(r@ =~= Seq::<u64>::empty());
        }
        r
    }

    /// Records a live write handle for connection `c`; a connection
    /// already present is left as it is.
    pub fn insert(&mut self, c: u64)
        requires
            old(self).wf(),
        ensures
            final(self).wf(),
            reg_has(old(self)@, c) ==> final(self)@ == old(self)@,
            !reg_has(old(self)@, c) ==> final(self)@ == old(self)@.push(c),
    {
        let n: usize = self.conns.len();
        let ghost conns = self@;
        let mut i: usize = 0;
        while i < n
            invariant
                i <= n,
                n == conns.len(),
                conns == self@,
                reg_wf(conns),
                forall|k: int| 0 <= k < i ==> conns[k] != c,
            decreases n - i,
        {
            if self.conns[i] == c {
                proof {
                    assert(conns[i as int] == c);
                    lemma_reg_idx(conns, c);
                }
                return ;
            }
            i = i + 1;
        }
        proof {
            lemma_reg_idx(conns, c);
        }
        self.conns.push(c);
        proof {
            assert(reg_wf(self@));
        }
    }

    /// Drops the handle record for connection `c`; a connection with
    /// no record is left as it is.
    pub fn remove(&mut self, c: u64)
        requires
            old(self).wf(),
        ensures
            final(self).wf(),
            final(self)@ == reg_remove(old(self)@, c),
    {
        let n: usize = self.conns.len();
        let ghost conns = self@;
        let mut i: usize = 0;
        while i < n
            invariant
                i <= n,
                n == conns.len(),
                conns == self@,
                conns == old(self)@,
                reg_wf(conns),
                forall|k: int| 0 <= k < i ==> conns[k] != c,
            decreases n - i,
        {
            if self.conns[i] == c {
                self.conns.remove(i);
                proof {
                    assert(conns[i as int] == c);
                    lemma_reg_idx(conns, c);
                    assert(reg_idx(conns, c) == i as int);
                    conns.remove_ensures(i as int);
                    assert(self@ =~= conns.remove(i as int));
                    assert(reg_wf(self@));
                }
                return ;
            }
            i = i + 1;
        }
        proof {
            lemma_reg_idx(conns, c);
        }
    }

    /// Decides well-formedness at run time, so that an unverified
    /// caller can test it instead of assuming it.
    pub fn is_consistent(&self) -> (r: bool)
        ensures
            r == self.wf(),
    {
        let n: usize = self.conns.len();
        let ghost conns = self@;
        let mut i: usize = 0;
        while i < n
            invariant
                i <= n,
                n == conns.len(),
                conns == self@,
                forall|a: int, b: int|
                    #![trigger conns[a], conns[b]]
                    0 <= a < b < n && a < i ==> conns[a] != conns[b],
            decreases n - i,
        {
            let mut j: usize = i + 1;
            while j < n
                invariant
                    i < j <= n,
                    n == conns.len(),
                    conns == self@,
                    forall|b: int| i < b < j ==> conns[i as int] != #[trigger] conns[b],
                decreases n - j,
            {
                if self.conns[i] == self.conns[j] {
                    proof {
                        assert(conns[i as int] == conns[j as int]);
                    }
                    return false;
                }
                j = j + 1;
            }
            i = i + 1;
        }
        true
    }

    /// Whether connection `c` holds a live write handle.
    pub fn contains(&self, c: u64) -> (r: bool)
        ensures
            r == reg_has(self@, c),
    {
        let n: usize = self.conns.len();
        let mut i: usize = 0;
        while i < n
            invariant
                i <= n,
                n == self@.len(),
                forall|k: int| 0 <= k < i ==> self@[k] != c,
            decreases n - i,
        {
            if self.conns[i] == c {
                proof {
                    lemma_reg_idx(self@, c);
                }
                return true;
            }
            i = i + 1;
        }
        proof {
            lemma_reg_idx(self@, c);
        }
        false
    }

    /// The registered connections, in registration order.
    pub fn ids(&self) -> (r: &Vec<u64>)
        ensures
            r@ == self@,
    {
        &self.conns
    }
}

/// The whole shared state of the server: directory and registry,
/// mutated together by the dispatcher.
pub struct ServerState {
    pub directory: Directory,
    pub registry: Registry,
}

impl ServerState {
    /// Combined well-formedness of directory and registry.
    pub open spec fn wf(&self) -> bool {
        self.directory.wf() && self.registry.wf()
    }

    /// A server with no connections and no users.
    pub fn new() -> (r: ServerState)
        ensures
            r.wf(),
            r.directory@ == Seq::<UserView>::empty(),
            r.registry@ == Seq::<u64>::empty(),
    {
        ServerState { directory: Directory::new(), registry: Registry::new() }
    }

    /// Decides well-formedness at run time, so that an unverified
    /// caller can test it instead of assuming it.
    pub fn is_consistent(&self) -> (r: bool)
        ensures
            r == self.wf(),
    {
        self.directory.is_consistent() && self.registry.is_consistent()
    }

    /// Records a newly accepted connection's write handle.
    pub fn connect(&mut self, c: u64)
        requires
            old(self).wf(),
        ensures
            final(self).wf(),
            final(self).directory@ == old(self).directory@,
            reg_has(old(self).registry@, c) ==> final(self).registry@ == old(self).registry@,
            !reg_has(old(self).registry@, c) ==> final(self).registry@ == old(
                self,
            ).registry@.push(c),
    {
        self.registry.insert(c);
    }

    /// Removes connection `c` from the directory and the registry
    /// together, exactly once: running it again, after a `LEAVE` or a
    /// disconnect already cleaned up, finds nothing and changes
    /// nothing.  Returns the username that was registered, if any.
    pub fn cleanup(&mut self, c: u64) -> (r: Option<String>)
        requires
            old(self).wf(),
        ensures
            final(self).wf(),
            final(self).directory@ == remove_conn(old(self).directory@, c),
            final(self).registry@ == reg_remove(old(self).registry@, c),
            match r {
                Some(nm) => name_of(old(self).directory@, c) == Some(nm@),
                None => name_of(old(self).directory@, c) is None,
            },
    {
        let name = self.directory.unregister(c);
        self.registry.remove(c);
        name
    }
}

} // verus!
