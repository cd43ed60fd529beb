//! The load-ordered registry of discovered servers and its shared,
//! round-robin cursor.
use crate::error::ServerDiscoveryError;
use crate::handle::TrackedServer;
use crate::order::{lemma_sorted_by_load, loads_ascending, sort_by_load, sorted_by_load};
use crate::server::Server;
use std::sync::atomic::{AtomicUsize, Ordering};
use std::sync::Arc;
use vstd::arithmetic::div_mod::{lemma_fundamental_div_mod, lemma_fundamental_div_mod_converse};
use vstd::prelude::*;

verus! {

/// The servers that a sequence of handles refers to, in order.
pub open spec fn servers_of(hs: Seq<TrackedServer<Server>>) -> Seq<Server> {
    hs.map_values(|h: TrackedServer<Server>| h.spec_server())
}

/// The position after `cursor` in a rotation over `n` entries.
pub open spec fn next_position(cursor: int, n: int) -> int {
    if cursor + 1 >= n {
        0
    } else {
        cursor + 1
    }
}

/// The position that a rotation over `n` entries, started at the first entry,
/// hands out at its `k`-th advance (counting from zero).
pub open spec fn rotation_position(k: nat, n: nat) -> int
    decreases k,
{
    if k == 0 {
        0
    } else {
        next_position(rotation_position((k - 1) as nat, n), n as int)
    }
}

/// How many of the first `c` advances of a rotation over `n` entries land on
/// position `i`.
pub open spec fn visits(c: nat, n: nat, i: int) -> nat
    decreases c,
{
    if c == 0 {
        0
    } else {
        visits((c - 1) as nat, n, i) + if rotation_position((c - 1) as nat, n) == i {
            1nat
        } else {
            0nat
        }
    }
}

/// The rotation walks the positions in order and wraps after the last one:
/// its `k`-th advance is at position `k % n`.
pub proof fn lemma_rotation_position(k: nat, n: nat)
    requires
        n >= 1,
    ensures
        rotation_position(k, n) == (k as int) % (n as int),
    decreases k,
{
    if k > 0 {
        let p: int = k - 1;
        lemma_rotation_position(p as nat, n);
        lemma_fundamental_div_mod(p, n as int);
        let q: int = p / (n as int);
        let r: int = p % (n as int);
        assert(p == q * n + r) by (nonlinear_arith)
            requires
                p == (n as int) * q + r,
        ;
        if r + 1 < n {
            lemma_fundamental_div_mod_converse(k as int, n as int, q, r + 1);
        } else {
            assert(k == (q + 1) * n + 0) by (nonlinear_arith)
                requires
                    p == q * n + r,
                    r + 1 == n,
                    k == p + 1,
            ;
            lemma_fundamental_div_mod_converse(k as int, n as int, q + 1, 0);
        }
    } else {
        lemma_fundamental_div_mod_converse(0, n as int, 0, 0);
    }
}

/// A registry built on `servers` hands them out sorted by ascending load
/// (the same servers, each as often as in `servers`), and its picks, taken
/// `servers.len()` at a time, repeat that order forever: the pick that
/// follows `k` full rounds and `j` more picks is the `j`-th server of the
/// sorted order.
pub proof fn lemma_picks_follow_load_order(servers: Seq<Server>, k: nat, j: nat)
    requires
        servers.len() >= 1,
        j < servers.len(),
    ensures
        loads_ascending(sorted_by_load(servers)),
        sorted_by_load(servers).to_multiset() == servers.to_multiset(),
        sorted_by_load(servers).len() == servers.len(),
        rotation_position(k * servers.len() + j, servers.len()) == j,
{
    let n = servers.len();
    lemma_sorted_by_load(servers);
    lemma_rotation_position(k * n + j, n);
    assert(k * n + j == k * n + j as int);
    lemma_fundamental_div_mod_converse((k * n + j) as int, n as int, k as int, j as int);
}

/// However concurrent callers interleave, `c` advances of the shared cursor
/// over `n` servers give each position `c / n` times, and one time more to the
/// first `c % n` positions: every server is handed out either `c / n` times or
/// one time more.
pub proof fn lemma_visits_balanced(c: nat, n: nat, i: int)
    requires
        n >= 1,
        0 <= i < n,
    ensures
        visits(c, n, i) == (c as int) / (n as int) + if i < (c as int) % (n as int) {
            1int
        } else {
            0int
        },
        c / n <= visits(c, n, i) <= c / n + 1,
    decreases c,
{
    if c > 0 {
        let p: int = c - 1;
        lemma_visits_balanced(p as nat, n, i);
        lemma_rotation_position(p as nat, n);
        lemma_fundamental_div_mod(p, n as int);
        let q: int = p / (n as int);
        let r: int = p % (n as int);
        assert(p == q * n + r) by (nonlinear_arith)
            requires
                p == (n as int) * q + r,
        ;
        if r + 1 < n {
            lemma_fundamental_div_mod_converse(c as int, n as int, q, r + 1);
        } else {
            assert(c == (q + 1) * n + 0) by (nonlinear_arith)
                requires
                    p == q * n + r,
                    r + 1 == n,
                    c == p + 1,
            ;
            lemma_fundamental_div_mod_converse(c as int, n as int, q + 1, 0);
        }
    } else {
        assert(0nat / n == 0) by (nonlinear_arith) requires n >= 1;
    }
}

/// Moves a rotation cursor over `n` entries one step on, wrapping to the first
/// entry after the last.
pub fn advance(cursor: usize, n: usize) -> (r: usize)
    requires
        n >= 1,
    ensures
        r == next_position(cursor as int, n as int),
        r < n,
{
    if cursor >= n - 1 {
        0
    } else {
        cursor + 1
    }
}

/// Relies on `AtomicUsize::fetch_update`: `advance` is applied to the stored
/// cursor in one atomic step, and the cursor it replaced is returned. Other
/// holders of the registry advance the same cursor concurrently, so nothing is
/// promised of the value.
#[verifier::external_body]
fn fetch_advance(cursor: &AtomicUsize, n: usize) -> usize
    requires
        n >= 1,
{
    match cursor.fetch_update(Ordering::AcqRel, Ordering::Acquire, |c| Some(advance(c, n))) {
        Ok(prev) => prev,
        Err(prev) => prev,
    }
}

/// The discovered servers sorted by ascending load, each in a failure-tracked
/// handle, handed out one at a time in an endless rotation.
///
/// Clones share the rotation cursor and the failure counters.
#[derive(Debug)]
pub struct ServerList {
    servers: Arc<Vec<TrackedServer<Server>>>,
    cursor: Arc<AtomicUsize>,
}

impl View for ServerList {
    type V = Seq<Server>;

    /// The servers in rotation order.
    closed spec fn view(&self) -> Seq<Server> {
        servers_of(self.servers@)
    }
}

impl Clone for ServerList {
    /// Another holder of the same rotation: the cursor and the failure
    /// counters are shared.
    fn clone(&self) -> (r: Self) {
        proof {
            use_type_invariant(self);
        }
        ServerList { servers: Arc::clone(&self.servers), cursor: Arc::clone(&self.cursor) }
    }
}

impl ServerList {
    #[verifier::type_invariant]
    spec fn never_empty(&self) -> bool {
        self.servers.len() >= 1
    }

    /// The handle at position `i` of the rotation.
    pub closed spec fn handle(&self, i: int) -> TrackedServer<Server> {
        self.servers@[i]
    }

    /// Builds the registry from the servers of a discovery response: sorted by
    /// ascending load (equal loads keep their order), each with a fresh failure
    /// counter, the rotation starting at the least loaded. An empty list is
    /// refused.
    pub fn from_servers(servers: Vec<Server>) -> (r: Result<ServerList, ServerDiscoveryError>)
        ensures
            match r {
                Ok(l) => servers@.len() > 0 && l@ == sorted_by_load(servers@),
                Err(e) => servers@.len() == 0 && e is NoServers,
            },
    {
        if servers.len() == 0 {
            return Err(ServerDiscoveryError::NoServers);
        }
        let ghost s = servers@;
        let mut rest = sort_by_load(servers);
        let ghost sorted = rest@;
        proof {
            lemma_sorted_by_load(s);
        }
        let total: usize = rest.len();
        let mut handles: Vec<TrackedServer<Server>> = Vec::new();
        let mut taken: usize = 0;
        assert(sorted.subrange(0, total as int) =~= sorted);
        while rest.len() > 0
            invariant
                taken + rest.len() == total,
                sorted.len() == total,
                handles@.len() == taken,
                rest@ == sorted.subrange(taken as int, total as int),
                servers_of(handles@) =~= sorted.subrange(0, taken as int),
            decreases rest.len(),
        {
            let ghost rest0 = rest@;
            let x = rest.remove(0);
            let ghost gx = x;
            let h = TrackedServer::new(x);
            let ghost before = handles@;
            handles.push(h);
            assert(rest@ =~= sorted.subrange(taken + 1, total as int));
            assert(servers_of(handles@) =~= sorted.subrange(0, taken + 1)) by {
                assert(handles@ == before.push(h));
                assert(gx == rest0[0]);
                assert(h.spec_server() == sorted[taken as int]);
                assert forall|i: int| 0 <= i < taken implies servers_of(handles@)[i] == sorted[i] by {
                    assert(handles@[i] == before[i]);
                    assert(servers_of(before)[i] == sorted.subrange(0, taken as int)[i]);
                }
            }
            taken += 1;
        }
        assert(sorted.subrange(0, taken as int) =~= sorted);
        Ok(ServerList { servers: Arc::new(handles), cursor: Arc::new(AtomicUsize::new(0)) })
    }

    /// Builds the registry from the outcome of the discovery exchange: a
    /// transport or decoding failure becomes the network error, an empty list
    /// the empty-result error, and any other list a registry over its servers.
    pub fn from_discovery(outcome: Result<Vec<Server>, reqwest::Error>) -> (r: Result<
        ServerList,
        ServerDiscoveryError,
    >)
        ensures
            match outcome {
                Err(cause) => r matches Err(ServerDiscoveryError::Network(e)) && e == cause,
                Ok(v) => match r {
                    Ok(l) => v@.len() > 0 && l@ == sorted_by_load(v@),
                    Err(e) => v@.len() == 0 && e is NoServers,
                },
            },
    {
        match outcome {
            Err(cause) => Err(ServerDiscoveryError::from(cause)),
            Ok(v) => ServerList::from_servers(v),
        }
    }

    /// The number of servers in the rotation.
    pub fn len(&self) -> (r: usize)
        ensures
            r == self@.len(),
            r >= 1,
    {
        proof {
            use_type_invariant(self);
        }
        self.servers.len()
    }

    /// A handle on the server at rotation position `position % len`, sharing
    /// that server's failure counter.
    pub fn select(&self, position: usize) -> (r: TrackedServer<Server>)
        ensures
            r.spec_server() == self@[(position as int) % (self@.len() as int)],
            r.shares_counter(&self.handle((position as int) % (self@.len() as int))),
    {
        proof {
            use_type_invariant(self);
        }
        let i = position % self.servers.len();
        self.servers[i].share()
    }

    /// Hands out the next server of the rotation, for a first connection or a
    /// reconnect. The shared cursor moves on by exactly one position per call,
    /// atomically, so concurrent callers never see a position twice or skip
    /// one; which caller gets which position is not fixed.
    pub fn pick_ws(&self) -> (r: TrackedServer<Server>)
        ensures
            exists|i: int|
                0 <= i < self@.len() && r.spec_server() == #[trigger] self@[i] && r.shares_counter(
                    &self.handle(i),
                ),
    {
        proof {
            use_type_invariant(self);
        }
        let n = self.servers.len();
        let position = fetch_advance(&self.cursor, n);
        self.select(position)
    }
}

} // verus!
