//! The pool of upstream resolvers: per-server failure bookkeeping, the live
//! set, selection of a target server, and health checks.
use crate::outside::{hash_qname, qname_hash};
use vstd::prelude::*;

verus! {

/// Failure bookkeeping of one configured upstream resolver.
#[derive(Clone, Copy, Debug, PartialEq, Eq, Structural)]
pub struct UpstreamServer {
    pub failures: u32,
    pub offline: bool,
}

impl UpstreamServer {
    /// A server that is live and has no recorded failure.
    pub open spec fn fresh() -> UpstreamServer {
        UpstreamServer { failures: 0, offline: false }
    }

    /// A server that is live and has no recorded failure.
    pub fn new() -> (r: UpstreamServer)
        ensures
            r == UpstreamServer::fresh(),
    {
        UpstreamServer { failures: 0, offline: false }
    }
}

/// Selection of a server when no server is live.
#[derive(Clone, Copy, Debug, PartialEq, Eq, Structural)]
pub enum PickError {
    AllUpstreamsDown,
}

/// The indices, in increasing order, of the servers among the first `n` that
/// are not offline.
pub open spec fn live_prefix(servers: Seq<UpstreamServer>, n: nat) -> Seq<usize>
    decreases n,
{
    if n == 0 {
        Seq::empty()
    } else {
        let s = live_prefix(servers, (n - 1) as nat);
        if !servers[n - 1].offline {
            s.push((n - 1) as usize)
        } else {
            s
        }
    }
}

/// The indices, in increasing order, of the servers that are not offline.
pub open spec fn live_indices(servers: Seq<UpstreamServer>) -> Seq<usize> {
    live_prefix(servers, servers.len())
}

/// The position in a live set of `n` servers that a digest `h` selects.
pub open spec fn hash_slot(h: u64, n: nat) -> nat
    recommends
        n > 0,
{
    let i = h as nat / (u64::MAX as nat / n);
    if i >= n {
        (n - 1) as nat
    } else {
        i
    }
}

/// The position in a live set of `n` servers picked for a digest `h` on a
/// first attempt: in failover mode the first, else the hashed slot.
pub open spec fn pick_slot(h: u64, n: nat, failover: bool) -> nat
    recommends
        n > 0,
{
    if failover {
        0
    } else {
        hash_slot(h, n)
    }
}

/// The server picked for a query name's first attempt among the live
/// servers `live`.
pub open spec fn pick_spec(qname: Seq<u8>, live: Seq<usize>, failover: bool) -> usize
    recommends
        live.len() > 0,
{
    live[pick_slot(qname_hash(qname), live.len(), failover) as int]
}

/// The first position, from `i` on, of a server above `prev` in `live`; the
/// length of `live` when there is none.
pub open spec fn first_above(live: Seq<usize>, prev: usize, i: nat) -> nat
    decreases live.len() - i,
{
    if i >= live.len() {
        live.len()
    } else if live[i as int] > prev {
        i
    } else {
        first_above(live, prev, i + 1)
    }
}

/// The position in `live` that a retry picks after an attempt on server
/// `prev`: in failover mode the first, else the next live server after
/// `prev` in index order, wrapping around to the first.
pub open spec fn retry_slot(live: Seq<usize>, prev: usize, failover: bool) -> nat {
    if failover || first_above(live, prev, 0) >= live.len() {
        0
    } else {
        first_above(live, prev, 0)
    }
}

/// The server a retry picks after an attempt on server `prev`.
pub open spec fn retry_spec(live: Seq<usize>, prev: usize, failover: bool) -> usize
    recommends
        live.len() > 0,
{
    live[retry_slot(live, prev, failover) as int]
}

proof fn lemma_first_above(live: Seq<usize>, prev: usize, i: nat)
    requires
        i <= live.len(),
    ensures
        i <= first_above(live, prev, i) <= live.len(),
        first_above(live, prev, i) < live.len() ==> live[first_above(live, prev, i) as int] > prev,
        forall|k: int| i <= k < first_above(live, prev, i) ==> live[k] <= prev,
    decreases live.len() - i,
{
    if i < live.len() && live[i as int] <= prev {
        lemma_first_above(live, prev, i + 1);
    }
}

proof fn lemma_live_prefix_props(servers: Seq<UpstreamServer>, n: nat)
    requires
        n <= servers.len(),
        servers.len() <= usize::MAX,
    ensures
        forall|a: int| 0 <= a < live_prefix(servers, n).len() ==> live_prefix(servers, n)[a] < n,
        forall|a: int, b: int|
            0 <= a < b < live_prefix(servers, n).len() ==> live_prefix(servers, n)[a]
                < live_prefix(servers, n)[b],
        forall|a: int|
            0 <= a < live_prefix(servers, n).len() ==> !servers[live_prefix(servers, n)[a] as int].offline,
        forall|i: int|
            0 <= i < n && !servers[i].offline ==> live_prefix(servers, n).contains(i as usize),
        live_prefix(servers, n).len() <= n,
    decreases n,
{
    if n > 0 {
        lemma_live_prefix_props(servers, (n - 1) as nat);
        let s = live_prefix(servers, (n - 1) as nat);
        if !servers[n - 1].offline {
            assert forall|i: int| 0 <= i < n && !servers[i].offline implies live_prefix(
                servers,
                n,
            ).contains(i as usize) by {
                if i < n - 1 {
                    let k = choose|k: int| 0 <= k < s.len() && s[k] == i as usize;
                    assert(live_prefix(servers, n)[k] == i as usize);
                } else {
                    assert(live_prefix(servers, n)[s.len() as int] == i as usize);
                }
            }
        }
    }
}

/// The live set is strictly increasing, holds valid indices, and holds
/// exactly the servers that are not offline.
pub proof fn lemma_live_indices(servers: Seq<UpstreamServer>)
    requires
        servers.len() <= usize::MAX,
    ensures
        forall|a: int|
            0 <= a < live_indices(servers).len() ==> live_indices(servers)[a] < servers.len(),
        forall|a: int, b: int|
            0 <= a < b < live_indices(servers).len() ==> live_indices(servers)[a]
                < live_indices(servers)[b],
        forall|a: int|
            0 <= a < live_indices(servers).len() ==> !servers[live_indices(servers)[a] as int].offline,
        forall|i: int|
            0 <= i < servers.len() && !servers[i].offline ==> live_indices(servers).contains(
                i as usize,
            ),
        live_indices(servers).len() <= servers.len(),
{
    lemma_live_prefix_props(servers, servers.len());
}

/// The configured upstream servers and the set of those that are live.
pub struct UpstreamPool {
    pub servers: Vec<UpstreamServer>,
    pub live: Vec<usize>,
}

impl UpstreamPool {
    /// The live set lists exactly the servers that are not offline.
    pub open spec fn wf(&self) -> bool {
        &&& self.live@ == live_indices(self.servers@)
        &&& self.servers@.len() <= usize::MAX
    }

    /// A pool of `n` servers, all live.
    pub fn new(n: usize) -> (r: UpstreamPool)
        ensures
            r.wf(),
            r.servers@.len() == n,
            forall|i: int| 0 <= i < n ==> r.servers@[i] == UpstreamServer::fresh(),
            r.live@ == Seq::new(n as nat, |i: int| i as usize),
    {
        let mut servers: Vec<UpstreamServer> = Vec::new();
        let mut i: usize = 0;
        while i < n
            invariant
                i <= n,
                servers@.len() == i,
                forall|k: int| 0 <= k < i ==> servers@[k] == UpstreamServer::fresh(),
            decreases n - i,
        {
            servers.push(UpstreamServer::new());
            i = i + 1;
        }
        let mut pool = UpstreamPool { servers, live: Vec::new() };
        pool.recompute_live();
        proof {
            lemma_all_live(pool.servers@);
        }
        pool
    }

    /// Rebuilds the live set from the servers' offline flags.
    pub fn recompute_live(&mut self)
        ensures
            final(self).wf(),
            final(self).servers == old(self).servers,
    {
        assert(self.servers@.len() == self.servers.len());
        let mut live: Vec<usize> = Vec::new();
        let mut i: usize = 0;
        while i < self.servers.len()
            invariant
                i <= self.servers@.len(),
                live@ == live_prefix(self.servers@, i as nat),
            decreases self.servers@.len() - i,
        {
            if !self.servers[i].offline {
                live.push(i);
            }
            i = i + 1;
        }
        self.live = live;
    }

    /// Picks the server for a query name: fails when no server is live.
    /// A first attempt (`previous` is `None`) takes the first live server
    /// in failover mode, else the live server at the name's hashed slot. A
    /// retry after an attempt on server `previous` takes the first live
    /// server in failover mode, else the next live server after it.
    pub fn pick_upstream(&self, qname: &Vec<u8>, previous: Option<usize>, failover: bool) -> (r:
        Result<usize, PickError>)
        requires
            self.wf(),
        ensures
            self.live@.len() == 0 <==> r is Err,
            r is Ok && previous is None ==> r->Ok_0 == pick_spec(qname@, self.live@, failover),
            r is Ok && previous is Some ==> r->Ok_0 == retry_spec(
                self.live@,
                previous->Some_0,
                failover,
            ),
            r is Ok ==> r->Ok_0 < self.servers@.len() && !self.servers@[r->Ok_0 as int].offline,
    {
        if self.live.len() == 0 {
            return Err(PickError::AllUpstreamsDown);
        }
        let i = match previous {
            None => {
                let h = hash_qname(qname);
                pick_from_hash(h, self.live.len(), failover)
            },
            Some(prev) => {
                if failover {
                    0
                } else {
                    next_live_slot(&self.live, prev)
                }
            },
        };
        proof {
            assert(self.servers@.len() == self.servers.len());
            lemma_live_indices(self.servers@);
        }
        Ok(self.live[i])
    }

    /// Records a response received from server `idx`: an offline server comes
    /// back with no failure, a live one has its failure count lowered by one.
    pub fn record_response(&mut self, idx: usize)
        requires
            old(self).wf(),
            idx < old(self).servers@.len(),
        ensures
            final(self).wf(),
            final(self).servers@ == old(self).servers@.update(
                idx as int,
                server_after_response(old(self).servers@[idx as int]),
            ),
    {
        let s = self.servers[idx];
        if s.offline {
            self.servers.set(idx, UpstreamServer { failures: 0, offline: false });
            self.recompute_live();
        } else if s.failures > 0 {
            self.servers.set(idx, UpstreamServer { failures: s.failures - 1, offline: false });
            proof {
                lemma_live_same_flags(old(self).servers@, self.servers@);
            }
        } else {
            assert(self.servers@ =~= old(self).servers@.update(idx as int, s));
        }
    }

    /// Records that server `idx` let a query time out. Once its failure count
    /// has reached `max_failures` it goes offline and `true` is returned;
    /// before that its count grows by one and `false` is returned.
    pub fn record_timeout(&mut self, idx: usize, max_failures: u32) -> (went_offline: bool)
        requires
            old(self).wf(),
            idx < old(self).servers@.len(),
        ensures
            final(self).wf(),
            went_offline == (old(self).servers@[idx as int].failures >= max_failures),
            final(self).servers@ == old(self).servers@.update(
                idx as int,
                server_after_timeout(old(self).servers@[idx as int], max_failures),
            ),
    {
        let s = self.servers[idx];
        if s.failures >= max_failures {
            self.servers.set(idx, UpstreamServer { failures: s.failures, offline: true });
            self.recompute_live();
            true
        } else {
            self.servers.set(idx, UpstreamServer { failures: s.failures + 1, offline: s.offline });
            proof {
                lemma_live_same_flags(old(self).servers@, self.servers@);
            }
            false
        }
    }

    /// The health check. When no server is live, every server is put back
    /// online with no failure and nothing is probed; otherwise the offline
    /// servers, in order, are the ones to probe, and nothing changes.
    pub fn health_check(&mut self) -> (probe: Vec<usize>)
        requires
            old(self).wf(),
        ensures
            final(self).wf(),
            old(self).live@.len() == 0 ==> {
                &&& final(self).servers@.len() == old(self).servers@.len()
                &&& forall|i: int|
                    0 <= i < final(self).servers@.len() ==> final(self).servers@[i]
                        == UpstreamServer::fresh()
                &&& final(self).live@ =~= Seq::new(old(self).servers@.len(), |i: int| i as usize)
                &&& probe@.len() == 0
            },
            old(self).live@.len() > 0 ==> {
                &&& final(self).servers == old(self).servers
                &&& final(self).live == old(self).live
                &&& probe@ == offline_indices(old(self).servers@)
            },
    {
        if self.live.len() == 0 {
            let n = self.servers.len();
            *self = UpstreamPool::new(n);
            proof {
                lemma_all_live(self.servers@);
            }
            Vec::new()
        } else {
            let mut probe: Vec<usize> = Vec::new();
            let mut i: usize = 0;
            while i < self.servers.len()
                invariant
                    i <= self.servers@.len(),
                    probe@ == offline_prefix(self.servers@, i as nat),
                decreases self.servers@.len() - i,
            {
                if self.servers[i].offline {
                    probe.push(i);
                }
                i = i + 1;
            }
            probe
        }
    }
}

/// A server's state after one of its responses came in.
pub open spec fn server_after_response(s: UpstreamServer) -> UpstreamServer {
    if s.offline {
        UpstreamServer { failures: 0, offline: false }
    } else if s.failures > 0 {
        UpstreamServer { failures: (s.failures - 1) as u32, offline: false }
    } else {
        s
    }
}

/// A server's state after a query sent to it timed out.
pub open spec fn server_after_timeout(s: UpstreamServer, max_failures: u32) -> UpstreamServer {
    if s.failures >= max_failures {
        UpstreamServer { failures: s.failures, offline: true }
    } else {
        UpstreamServer { failures: (s.failures + 1) as u32, offline: s.offline }
    }
}

/// The indices, in increasing order, of the servers among the first `n` that
/// are offline.
pub open spec fn offline_prefix(servers: Seq<UpstreamServer>, n: nat) -> Seq<usize>
    decreases n,
{
    if n == 0 {
        Seq::empty()
    } else {
        let s = offline_prefix(servers, (n - 1) as nat);
        if servers[n - 1].offline {
            s.push((n - 1) as usize)
        } else {
            s
        }
    }
}

/// The indices, in increasing order, of the servers that are offline.
pub open spec fn offline_indices(servers: Seq<UpstreamServer>) -> Seq<usize> {
    offline_prefix(servers, servers.len())
}

proof fn lemma_live_prefix_same_flags(a: Seq<UpstreamServer>, b: Seq<UpstreamServer>, n: nat)
    requires
        n <= a.len(),
        a.len() == b.len(),
        forall|i: int| 0 <= i < a.len() ==> a[i].offline == b[i].offline,
    ensures
        live_prefix(a, n) == live_prefix(b, n),
    decreases n,
{
    if n > 0 {
        lemma_live_prefix_same_flags(a, b, (n - 1) as nat);
    }
}

proof fn lemma_live_same_flags(a: Seq<UpstreamServer>, b: Seq<UpstreamServer>)
    requires
        a.len() == b.len(),
        forall|i: int| 0 <= i < a.len() ==> a[i].offline == b[i].offline,
    ensures
        live_indices(a) == live_indices(b),
{
    lemma_live_prefix_same_flags(a, b, a.len());
}

proof fn lemma_all_live_prefix(servers: Seq<UpstreamServer>, n: nat)
    requires
        n <= servers.len(),
        forall|i: int| 0 <= i < servers.len() ==> !servers[i].offline,
    ensures
        live_prefix(servers, n) =~= Seq::new(n, |i: int| i as usize),
    decreases n,
{
    if n > 0 {
        lemma_all_live_prefix(servers, (n - 1) as nat);
    }
}

proof fn lemma_all_live(servers: Seq<UpstreamServer>)
    requires
        forall|i: int| 0 <= i < servers.len() ==> !servers[i].offline,
    ensures
        live_indices(servers) =~= Seq::new(servers.len(), |i: int| i as usize),
{
    lemma_all_live_prefix(servers, servers.len());
}

/// The slot of a live set of `n` servers that digest `h` selects on a
/// first attempt.
pub fn pick_from_hash(h: u64, n: usize, failover: bool) -> (r: usize)
    requires
        n > 0,
    ensures
        r == pick_slot(h, n as nat, failover),
        r < n,
{
    if failover {
        return 0;
    }
    let d: u64 = u64::MAX / (n as u64);
    proof {
        assert(d > 0) by (nonlinear_arith)
            requires
                d == u64::MAX / (n as u64),
                0 < n <= u64::MAX,
        ;
    }
    let q: u64 = h / d;
    if q >= n as u64 {
        n - 1
    } else {
        q as usize
    }
}

/// The slot of the next live server after server `prev`, wrapping around to
/// the first.
pub fn next_live_slot(live: &Vec<usize>, prev: usize) -> (r: usize)
    requires
        live@.len() > 0,
    ensures
        r == retry_slot(live@, prev, false),
        r < live@.len(),
{
    let mut i: usize = 0;
    while i < live.len() && live[i] <= prev
        invariant
            i <= live@.len(),
            first_above(live@, prev, 0) == first_above(live@, prev, i as nat),
        decreases live@.len() - i,
    {
        i = i + 1;
    }
    if i == live.len() {
        0
    } else {
        i
    }
}

/// Selection of a first attempt is fixed by the query name and the live
/// set.
pub proof fn lemma_pick_deterministic(
    qname: Seq<u8>,
    live1: Seq<usize>,
    live2: Seq<usize>,
    failover: bool,
)
    requires
        live1 == live2,
        live1.len() > 0,
    ensures
        pick_spec(qname, live1, failover) == pick_spec(qname, live2, failover),
{
}

/// With more than one live server, a retry in hash mode selects another
/// server than the attempt just before it.
pub proof fn lemma_retry_picks_another(servers: Seq<UpstreamServer>, prev: usize)
    requires
        servers.len() <= usize::MAX,
        live_indices(servers).len() > 1,
    ensures
        retry_spec(live_indices(servers), prev, false) != prev,
{
    let live = live_indices(servers);
    lemma_live_indices(servers);
    lemma_first_above(live, prev, 0);
    if first_above(live, prev, 0) >= live.len() {
        assert(live[1] <= prev);
        assert(live[0] < live[1]);
    }
}

} // verus!
