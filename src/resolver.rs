//! The resolution engine: a state machine that reacts to client queries,
//! upstream responses and timer expiries, and returns the actions for its
//! caller to carry out (sends, replies, timers).
use crate::cache::{cache_ttl, cache_ttl_spec, Cache};
use crate::codec::{
    decode_error, edns_of, lemma_set_ttl_len, min_ttl, min_ttl_spec, normalize, question_end,
    set_ttl, set_ttl_spec, u16_at,
};
use crate::outside::{random_below, random_u16};
use crate::pending::{
    find_active_query, keys_unique, lemma_total_push, lemma_total_remove, lemma_total_update,
    total_clients, ActiveQuery, ClientQuery, ClientQueryProtocol,
};
use crate::reply::{
    answer_for, client_packet, lemma_views_push, replies, reply_all, reply_to, reply_view, views,
    Action, ActionView,
};
use crate::upstream::{
    offline_indices, pick_spec, retry_spec, server_after_response, server_after_timeout, UpstreamPool,
};
use crate::wire::{
    build_query_packet, build_servfail_packet, build_tc_packet, key_of, overwrite_qname, query_packet,
    rcode, rcode_of, set_tid, stub_answer, tid, tid_of, with_qname, with_tid, NormalizedQuestion,
    DNS_HEADER_SIZE, DNS_RCODE_SERVFAIL, SERVFAIL_FLAGS, TC_FLAGS,
};
use crate::{
    FAILURE_TTL, HEALTH_CHECK_MS, MAX_CLIENTS_WAITING_FOR_QUERY, MAX_WAITING_CLIENTS,
    UPSTREAM_INITIAL_TIMEOUT_MS, UPSTREAM_MAX_TIMEOUT_MS, UPSTREAM_TIMEOUT_MS,
};
use vstd::prelude::*;

verus! {

/// Smallest upstream response that holds a question.
pub const DNS_QUERY_MIN_SIZE: usize = 17;

/// What fired on the timer.
pub enum TimeoutToken {
    /// The deadline of the question with this deduplication key.
    Key(Vec<u8>),
    HealthCheck,
}

/// What the engine is configured with.
pub struct Config {
    /// The upstream resolvers' addresses, in order.
    pub upstream_servers: Vec<String>,
    pub min_ttl: u32,
    pub max_ttl: u32,
    /// Failures after which a server goes offline on its next timeout.
    pub upstream_max_failures: u32,
    /// Pick the first live server instead of hashing the query name.
    pub failover: bool,
    /// Serve cached answers with their TTLs lowered to the seconds left
    /// before they expire.
    pub decrement_ttl: bool,
    /// Entries the answer cache holds.
    pub cache_size: usize,
    pub listen_addr: String,
}

/// An in-flight query's retry delay is over at `now`.
pub open spec fn obsolete(aq: ActiveQuery, now: u64) -> bool {
    now >= aq.ts && now - aq.ts > aq.delay
}

/// A retry delay doubled, saturating.
pub open spec fn doubled(d: u64) -> u64 {
    if d > u64::MAX / 2 {
        u64::MAX
    } else {
        (d * 2) as u64
    }
}

/// The waiters of a question once another client asked it: the client is
/// added unless the ceiling is reached, in which case it is turned away.
pub open spec fn joined_clients(cs: Seq<ClientQuery>, cq: ClientQuery) -> Seq<ClientQuery> {
    if cs.len() < MAX_CLIENTS_WAITING_FOR_QUERY {
        cs.push(cq)
    } else {
        cs
    }
}

/// An in-flight query is well formed for a pool of `n_servers` and
/// `n_sockets` local sockets.
pub open spec fn active_ok(aq: ActiveQuery, n_servers: nat, n_sockets: nat) -> bool {
    &&& aq.upstream_server_idx < n_servers
    &&& aq.local_socket < n_sockets
    &&& 1 <= aq.client_queries@.len() <= MAX_CLIENTS_WAITING_FOR_QUERY
    &&& forall|j: int|
        0 <= j < aq.client_queries@.len() ==> (#[trigger] aq.client_queries@[j]).normalized_question.key_spec()
            == aq.key@
}

/// Dropping an in-flight query keeps the others well formed and their keys
/// distinct.
proof fn lemma_remove_keeps_ok(s: Seq<ActiveQuery>, i: int, n_servers: nat, n_sockets: nat)
    requires
        0 <= i < s.len(),
        keys_unique(s),
        forall|j: int| 0 <= j < s.len() ==> active_ok(#[trigger] s[j], n_servers, n_sockets),
    ensures
        keys_unique(s.remove(i)),
        forall|j: int|
            0 <= j < s.remove(i).len() ==> active_ok(#[trigger] s.remove(i)[j], n_servers, n_sockets),
{
    assert forall|j: int| 0 <= j < s.remove(i).len() implies active_ok(
        #[trigger] s.remove(i)[j],
        n_servers,
        n_sockets,
    ) by {
        if j < i {
            assert(s.remove(i)[j] == s[j]);
        } else {
            assert(s.remove(i)[j] == s[j + 1]);
        }
    }
}

/// The resolution engine's state.
pub struct Resolver {
    pub pool: UpstreamPool,
    /// The in-flight queries, in the order they were created: a new one is
    /// appended, a joined one keeps its place, and removals keep the order
    /// of the rest.
    pub pending: Vec<ActiveQuery>,
    pub waiting_clients_count: usize,
    pub cache: Cache,
    /// Number of local sockets that queries go out on.
    pub n_sockets: usize,
    pub min_ttl: u32,
    pub max_ttl: u32,
    pub upstream_max_failures: u32,
    pub failover: bool,
    pub decrement_ttl: bool,
}

impl Resolver {
    /// The engine's invariant.
    pub open spec fn wf(&self) -> bool {
        &&& self.pool.wf()
        &&& self.n_sockets > 0
        &&& keys_unique(self.pending@)
        &&& forall|i: int|
            0 <= i < self.pending@.len() ==> active_ok(
                #[trigger] self.pending@[i],
                self.pool.servers@.len(),
                self.n_sockets as nat,
            )
        &&& self.waiting_clients_count == total_clients(self.pending@)
        &&& self.waiting_clients_count <= MAX_WAITING_CLIENTS + 1
        &&& forall|k: Seq<u8>|
            #[trigger] self.cache.entries().dom().contains(k) ==> self.cache.entries()[k].0.len()
                >= DNS_HEADER_SIZE
    }

    /// The configuration is kept.
    pub open spec fn same_setup(&self, other: &Resolver) -> bool {
        &&& self.n_sockets == other.n_sockets
        &&& self.min_ttl == other.min_ttl
        &&& self.max_ttl == other.max_ttl
        &&& self.upstream_max_failures == other.upstream_max_failures
        &&& self.failover == other.failover
        &&& self.decrement_ttl == other.decrement_ttl
        &&& self.pool.servers@.len() == other.pool.servers@.len()
    }
}

/// The answer that a question's cache entry, stale or not, provides.
pub open spec fn stale_answer(entries: Map<Seq<u8>, (Seq<u8>, u64)>, key: Seq<u8>) -> Option<Seq<u8>> {
    if entries.dom().contains(key) {
        Some(entries[key].0)
    } else {
        None
    }
}

/// A response came in for an in-flight query: on the socket the query left
/// from, from the server it was sent to, with its transaction id.
pub open spec fn response_matches(aq: ActiveQuery, packet: Seq<u8>, peer: Option<usize>, socket: usize) -> bool {
    &&& socket == aq.local_socket
    &&& peer == Some(aq.upstream_server_idx)
    &&& packet.len() >= 2
    &&& tid_of(packet) == aq.upstream_tid
}

/// The packet cached for a response: for a server failure, a packet already
/// cached for the question is kept.
pub open spec fn packet_to_cache(
    entries: Map<Seq<u8>, (Seq<u8>, u64)>,
    key: Seq<u8>,
    servfail: bool,
    packet: Seq<u8>,
) -> Seq<u8> {
    if servfail && entries.dom().contains(key) {
        entries[key].0
    } else {
        packet
    }
}

/// The packet served and cached for a response: a server failure with its
/// TTLs set to the failure TTL; an answer whose TTL lies outside the
/// configured bounds with its TTLs set to the bound; else the response as
/// it came.
pub open spec fn served_packet(pre: Resolver, packet: Seq<u8>, answer_ttl: u32) -> Seq<u8> {
    let clamped = cache_ttl_spec(answer_ttl, false, pre.min_ttl, pre.max_ttl);
    if rcode_of(packet) == DNS_RCODE_SERVFAIL {
        set_ttl_spec(packet, FAILURE_TTL)
    } else if clamped != answer_ttl {
        set_ttl_spec(packet, clamped)
    } else {
        packet
    }
}

/// The whole seconds left at `now` before `expires_ms`, at most `u32::MAX`.
pub open spec fn seconds_left(expires_ms: u64, now: u64) -> u32 {
    let s = if expires_ms > now {
        (expires_ms - now) / 1000
    } else {
        0
    };
    if s > u32::MAX {
        u32::MAX
    } else {
        s as u32
    }
}

/// The packet served from a cache entry at `now`: with TTL decrementing on,
/// its TTLs set to the seconds left before it expires; else as cached.
pub open spec fn cached_packet(pre: Resolver, entry: (Seq<u8>, u64), now: u64) -> Seq<u8> {
    if pre.decrement_ttl {
        set_ttl_spec(entry.0, seconds_left(entry.1, now))
    } else {
        entry.0
    }
}

/// The pool after a response from `peer`: a configured server counts it.
pub open spec fn pool_after_peer(pool: UpstreamPool, peer: Option<usize>) -> Seq<crate::upstream::UpstreamServer> {
    match peer {
        Some(idx) => if idx < pool.servers@.len() {
            pool.servers@.update(idx as int, server_after_response(pool.servers@[idx as int]))
        } else {
            pool.servers@
        },
        None => pool.servers@,
    }
}

/// The outcome of an upstream response; see
/// `Resolver::handle_upstream_response`.
pub open spec fn response_outcome(
    pre: Resolver,
    post: Resolver,
    packet: Seq<u8>,
    key: Seq<u8>,
    answer_ttl: u32,
    peer: Option<usize>,
    socket: usize,
    now: u64,
    r: Seq<Action>,
) -> bool {
    let unchanged = post.pending@ == pre.pending@ && post.cache.entries() == pre.cache.entries()
        && r.len() == 0;
    &&& packet.len() < DNS_HEADER_SIZE ==> post.pool == pre.pool
    &&& packet.len() >= DNS_HEADER_SIZE ==> post.pool.servers@ == pool_after_peer(pre.pool, peer)
    &&& packet.len() < DNS_QUERY_MIN_SIZE ==> unchanged
    &&& (forall|i: int| 0 <= i < pre.pending@.len() ==> pre.pending@[i].key@ != key) ==> unchanged
    &&& forall|i: int|
        0 <= i < pre.pending@.len() && pre.pending@[i].key@ == key && !response_matches(
            pre.pending@[i],
            packet,
            peer,
            socket,
        ) ==> unchanged
    &&& forall|i: int|
        0 <= i < pre.pending@.len() && pre.pending@[i].key@ == key && response_matches(
            pre.pending@[i],
            packet,
            peer,
            socket,
        ) && packet.len() >= DNS_QUERY_MIN_SIZE ==> {
            &&& post.pending@ == pre.pending@.remove(i)
            &&& views(r) == replies(
                pre.pending@[i].client_queries@,
                Some(served_packet(pre, packet, answer_ttl)),
                now,
            ).push(ActionView::CancelTimeout { key })
            &&& post.cache.entries().dom().contains(key)
            &&& post.cache.entries()[key] == (
                packet_to_cache(
                    pre.cache.entries(),
                    key,
                    rcode_of(packet) == DNS_RCODE_SERVFAIL,
                    served_packet(pre, packet, answer_ttl),
                ),
                crate::cache::expiry(
                    now,
                    cache_ttl_spec(
                        answer_ttl,
                        rcode_of(packet) == DNS_RCODE_SERVFAIL,
                        pre.min_ttl,
                        pre.max_ttl,
                    ),
                ),
            )
        }
}

/// Why a response does not belong to an in-flight query.
#[derive(Clone, Copy, Debug, PartialEq, Eq, Structural)]
pub enum MismatchError {
    /// It came in on another local socket than the query left from.
    UnexpectedPort,
    /// It came from another peer than the server the query went to.
    UnexpectedPeer,
    /// It carries another transaction id than the query, or none.
    UnexpectedTid,
}

/// Checks that a response belongs to an in-flight query: the socket first,
/// then the peer, then the transaction id.
pub fn verify_active_query(
    active_query: &ActiveQuery,
    packet: &Vec<u8>,
    peer: Option<usize>,
    socket: usize,
) -> (r: Result<(), MismatchError>)
    ensures
        r is Ok <==> response_matches(*active_query, packet@, peer, socket),
        socket != active_query.local_socket ==> r == Err::<(), MismatchError>(
            MismatchError::UnexpectedPort,
        ),
        socket == active_query.local_socket && peer != Some(active_query.upstream_server_idx)
            ==> r == Err::<(), MismatchError>(MismatchError::UnexpectedPeer),
        socket == active_query.local_socket && peer == Some(active_query.upstream_server_idx)
            && (packet@.len() < 2 || tid_of(packet@) != active_query.upstream_tid) ==> r == Err::<
            (),
            MismatchError,
        >(
            MismatchError::UnexpectedTid,
        ),
{
    if socket != active_query.local_socket {
        return Err(MismatchError::UnexpectedPort);
    }
    match peer {
        Some(idx) => {
            if idx != active_query.upstream_server_idx {
                return Err(MismatchError::UnexpectedPeer);
            }
        },
        None => return Err(MismatchError::UnexpectedPeer),
    }
    if packet.len() < 2 || tid(packet.as_slice()) != active_query.upstream_tid {
        return Err(MismatchError::UnexpectedTid);
    }
    Ok(())
}

/// The outcome of a question's deadline; see `Resolver::timeout_question`.
pub open spec fn question_timeout_outcome(
    pre: Resolver,
    post: Resolver,
    key: Seq<u8>,
    now: u64,
    r: Seq<ActionView>,
) -> bool {
    &&& post.pool == pre.pool
    &&& post.cache.entries() == pre.cache.entries()
    &&& post.waiting_clients_count <= pre.waiting_clients_count
    &&& (forall|i: int| 0 <= i < pre.pending@.len() ==> pre.pending@[i].key@ != key) ==> {
        &&& post.pending@ == pre.pending@
        &&& post.waiting_clients_count == pre.waiting_clients_count
        &&& r.len() == 0
    }
    &&& forall|i: int|
        0 <= i < pre.pending@.len() && pre.pending@[i].key@ == key ==> {
            &&& post.pending@ == pre.pending@.remove(i)
            &&& r == replies(
                pre.pending@[i].client_queries@,
                stale_answer(pre.cache.entries(), key),
                now,
            )
        }
}

impl Resolver {
    /// The deadline of a question passed: its in-flight query is dropped and
    /// every waiter is answered from the question's cache entry, stale or
    /// not, or else with a SERVFAIL. A question that is no longer in flight
    /// (answered, or shed) leaves everything as it is.
    pub fn timeout_question(&mut self, key: &Vec<u8>, now: u64) -> (r: Vec<Action>)
        requires
            old(self).wf(),
        ensures
            final(self).wf(),
            final(self).same_setup(old(self)),
            question_timeout_outcome(*old(self), *final(self), key@, now, views(r@)),
    {
        match find_active_query(&self.pending, key) {
            None => Vec::new(),
            Some(i) => {
                proof {
                    lemma_total_remove(self.pending@, i as int);
                }
                let aq = self.pending.remove(i);
                let base = match self.cache.get(key) {
                    Some(e) => Some(e.packet),
                    None => None,
                };
                let acts = reply_all(&aq.client_queries, &base, now);
                self.waiting_clients_count = self.waiting_clients_count - aq.client_queries.len();
                proof {
                    lemma_remove_keeps_ok(
                        old(self).pending@,
                        i as int,
                        self.pool.servers@.len(),
                        self.n_sockets as nat,
                    );
                }
                acts
            },
        }
    }

    /// An upstream response came in on local socket `socket` from `peer` (the
    /// index of the configured server it came from, if any). `key` is the
    /// deduplication key of the question it holds and `answer_ttl` the
    /// smallest TTL of its answers.
    ///
    /// A configured peer has its failure count lowered, or comes back online.
    /// A response too short to hold a question, for no question in flight,
    /// or that does not match the query sent (socket, peer, transaction id),
    /// changes nothing else. A matching one has its record TTLs set to the
    /// failure TTL for a server failure, or to the bound its TTL lies
    /// beyond; it is then fanned out to every waiter with its own
    /// transaction id and name casing, the timeout is canceled, the query is
    /// dropped and the answer is cached under that TTL.
    pub fn handle_upstream_response(
        &mut self,
        packet: Vec<u8>,
        key: &Vec<u8>,
        answer_ttl: u32,
        peer: Option<usize>,
        socket: usize,
        now: u64,
    ) -> (r: Vec<Action>)
        requires
            old(self).wf(),
        ensures
            final(self).wf(),
            final(self).same_setup(old(self)),
            response_outcome(*old(self), *final(self), packet@, key@, answer_ttl, peer, socket, now, r@),
    {
        if packet.len() < DNS_HEADER_SIZE {
            return Vec::new();
        }
        self.note_peer(peer);
        if packet.len() < DNS_QUERY_MIN_SIZE {
            return Vec::new();
        }
        let i = match find_active_query(&self.pending, key) {
            None => return Vec::new(),
            Some(i) => i,
        };
        if verify_active_query(&self.pending[i], &packet, peer, socket).is_err() {
            return Vec::new();
        }
        proof {
            lemma_total_remove(self.pending@, i as int);
        }
        let aq = self.pending.remove(i);
        let servfail = rcode(packet.as_slice()) == DNS_RCODE_SERVFAIL;
        let ttl = cache_ttl(answer_ttl, servfail, self.min_ttl, self.max_ttl);
        let mut packet = packet;
        let ghost p0 = packet@;
        if servfail {
            set_ttl(&mut packet, FAILURE_TTL);
        } else {
            let clamped = cache_ttl(answer_ttl, false, self.min_ttl, self.max_ttl);
            if clamped != answer_ttl {
                set_ttl(&mut packet, clamped);
            }
        }
        proof {
            lemma_set_ttl_len(p0, FAILURE_TTL);
            lemma_set_ttl_len(p0, cache_ttl_spec(answer_ttl, false, self.min_ttl, self.max_ttl));
        }
        let base = Some(packet);
        let mut acts = reply_all(&aq.client_queries, &base, now);
        let packet = match base {
            Some(p) => p,
            None => Vec::new(),
        };
        let cancel = Action::CancelTimeout { key: aq.key };
        proof {
            lemma_views_push(acts@, cancel);
        }
        acts.push(cancel);
        self.waiting_clients_count = self.waiting_clients_count - aq.client_queries.len();
        let to_cache = if servfail {
            match self.cache.get(key) {
                Some(e) => e.packet,
                None => packet,
            }
        } else {
            packet
        };
        let k2 = key.clone();
        assert(k2@ == key@);
        self.cache.insert(k2, to_cache, ttl, now);
        proof {
            lemma_remove_keeps_ok(
                old(self).pending@,
                i as int,
                self.pool.servers@.len(),
                self.n_sockets as nat,
            );
        }
        acts
    }
}

/// The in-flight query at `i` was joined by another client: every other
/// query is kept, and this one keeps its key and start, takes retry delay
/// `delay`, and gains the client as a waiter unless the ceiling is reached.
pub open spec fn joined_at(
    mid: Seq<ActiveQuery>,
    fin: Seq<ActiveQuery>,
    i: int,
    cq: ClientQuery,
    delay: u64,
) -> bool {
    &&& fin.len() == mid.len()
    &&& forall|j: int| 0 <= j < mid.len() && j != i ==> fin[j] == mid[j]
    &&& fin[i].key@ == mid[i].key@
    &&& fin[i].ts == mid[i].ts
    &&& fin[i].delay == delay
    &&& fin[i].client_queries@ == joined_clients(mid[i].client_queries@, cq)
}

/// The outcome of a client joining the in-flight query at `i` of `mid`, the
/// table left after any shedding, with `prefix` the actions already owed.
/// Before the retry delay is over, nothing is sent. After it, the server
/// the query went to records a timeout; the delay doubles unless that
/// server went offline; and while the delay stays within its maximum and a
/// server is live, the question is sent again, under transaction id `tid`
/// from local socket `socket`, to the server that a retry after the query's
/// current target picks: in hash mode the next live server after it.
pub open spec fn join_outcome(
    mid: Seq<ActiveQuery>,
    pool0: UpstreamPool,
    i: int,
    cq: ClientQuery,
    now: u64,
    socket: usize,
    tid: u16,
    max_failures: u32,
    failover: bool,
    prefix: Seq<ActionView>,
    fin: Resolver,
    r: Seq<ActionView>,
) -> bool {
    let aq = mid[i];
    let q = cq.normalized_question;
    if !obsolete(aq, now) {
        &&& fin.pool == pool0
        &&& joined_at(mid, fin.pending@, i, cq, aq.delay)
        &&& fin.pending@[i].upstream_tid == aq.upstream_tid
        &&& fin.pending@[i].upstream_server_idx == aq.upstream_server_idx
        &&& fin.pending@[i].local_socket == aq.local_socket
        &&& r == prefix
    } else {
        let s = pool0.servers@[aq.upstream_server_idx as int];
        let went_offline = s.failures >= max_failures;
        let delay = if went_offline {
            aq.delay
        } else {
            doubled(aq.delay)
        };
        let resend = delay <= UPSTREAM_MAX_TIMEOUT_MS && fin.pool.live@.len() > 0;
        let target = retry_spec(fin.pool.live@, aq.upstream_server_idx, failover);
        &&& fin.pool.servers@ == pool0.servers@.update(
            aq.upstream_server_idx as int,
            server_after_timeout(s, max_failures),
        )
        &&& joined_at(mid, fin.pending@, i, cq, delay)
        &&& resend ==> {
            &&& fin.pending@[i].upstream_tid == tid
            &&& fin.pending@[i].upstream_server_idx == target
            &&& fin.pending@[i].local_socket == socket
            &&& r == prefix.push(
                ActionView::SendUpstream { socket, server: target, packet: query_packet(q, tid) },
            )
        }
        &&& !resend ==> {
            &&& fin.pending@[i].upstream_tid == aq.upstream_tid
            &&& fin.pending@[i].upstream_server_idx == aq.upstream_server_idx
            &&& fin.pending@[i].local_socket == aq.local_socket
            &&& r == prefix
        }
    }
}

/// The outcome of a question that is not in flight, from `mid`, the table
/// left after any shedding, with `prefix` the actions already owed. With no
/// live server the client is dropped. Otherwise a new in-flight query is
/// recorded last, for the server that a first attempt picks, and its
/// timeout is armed and the query sent under transaction id `tid` from
/// local socket `socket`.
pub open spec fn create_outcome(
    mid: Seq<ActiveQuery>,
    pool0: UpstreamPool,
    cq: ClientQuery,
    now: u64,
    socket: usize,
    tid: u16,
    failover: bool,
    prefix: Seq<ActionView>,
    fin: Resolver,
    r: Seq<ActionView>,
) -> bool {
    let q = cq.normalized_question;
    let key = q.key_spec();
    let target = pick_spec(q.qname@, pool0.live@, failover);
    &&& fin.pool == pool0
    &&& pool0.live@.len() == 0 ==> fin.pending@ == mid && r == prefix
    &&& pool0.live@.len() > 0 ==> {
        &&& fin.pending@.len() == mid.len() + 1
        &&& fin.pending@.drop_last() == mid
        &&& fin.pending@.last().key@ == key
        &&& fin.pending@.last().upstream_tid == tid
        &&& fin.pending@.last().upstream_server_idx == target
        &&& fin.pending@.last().local_socket == socket
        &&& fin.pending@.last().client_queries@ == seq![cq]
        &&& fin.pending@.last().ts == now
        &&& fin.pending@.last().delay == UPSTREAM_INITIAL_TIMEOUT_MS
        &&& r == prefix + seq![
            ActionView::ArmTimeout { key, ms: UPSTREAM_TIMEOUT_MS },
            ActionView::SendUpstream { socket, server: target, packet: query_packet(q, tid) },
        ]
    }
}

impl Resolver {
    /// Drops the earliest-created in-flight question (the first) and its
    /// waiters, and cancels its timeout.
    fn shed_oldest(&mut self, acts: &mut Vec<Action>)
        requires
            old(self).wf(),
            old(self).pending@.len() > 0,
        ensures
            final(self).wf(),
            final(self).same_setup(old(self)),
            final(self).pool == old(self).pool,
            final(self).cache == old(self).cache,
            final(self).pending@ == old(self).pending@.remove(0),
            final(self).waiting_clients_count < old(self).waiting_clients_count,
            views(final(acts)@) == views(old(acts)@).push(
                ActionView::CancelTimeout { key: old(self).pending@[0].key@ },
            ),
    {
        proof {
            lemma_total_remove(self.pending@, 0);
            assert(active_ok(self.pending@[0], self.pool.servers@.len(), self.n_sockets as nat));
        }
        let aq = self.pending.remove(0);
        self.waiting_clients_count = self.waiting_clients_count - aq.client_queries.len();
        let a = Action::CancelTimeout { key: aq.key };
        proof {
            lemma_views_push(acts@, a);
            lemma_remove_keeps_ok(
                old(self).pending@,
                0,
                self.pool.servers@.len(),
                self.n_sockets as nat,
            );
        }
        acts.push(a);
    }

    /// A client asks a question that is in flight at `i`.
    #[verifier::rlimit(40)]
    fn join_active_query(
        &mut self,
        i: usize,
        cq: ClientQuery,
        now: u64,
        socket: usize,
        tid: u16,
        acts: &mut Vec<Action>,
    )
        requires
            old(self).wf(),
            i < old(self).pending@.len(),
            old(self).pending@[i as int].key@ == cq.normalized_question.key_spec(),
            socket < old(self).n_sockets,
            old(self).waiting_clients_count <= MAX_WAITING_CLIENTS,
        ensures
            final(self).wf(),
            final(self).same_setup(old(self)),
            final(self).cache == old(self).cache,
            join_outcome(
                old(self).pending@,
                old(self).pool,
                i as int,
                cq,
                now,
                socket,
                tid,
                old(self).upstream_max_failures,
                old(self).failover,
                views(old(acts)@),
                *final(self),
                views(final(acts)@),
            ),
    {
        let ghost mid = self.pending@;
        let ghost a0 = views(acts@);
        proof {
            lemma_total_remove(self.pending@, i as int);
        }
        let mut aq = self.pending.remove(i);
        if now >= aq.ts && now - aq.ts > aq.delay {
            let went_offline = self.pool.record_timeout(aq.upstream_server_idx, self.upstream_max_failures);
            if !went_offline {
                aq.delay = if aq.delay > u64::MAX / 2 {
                    u64::MAX
                } else {
                    aq.delay * 2
                };
            }
            if aq.delay <= UPSTREAM_MAX_TIMEOUT_MS {
                match self.pool.pick_upstream(&cq.normalized_question.qname, Some(aq.upstream_server_idx), self.failover) {
                    Ok(idx) => {
                        let packet = build_query_packet(&cq.normalized_question, tid);
                        aq.upstream_tid = tid;
                        aq.upstream_server_idx = idx;
                        aq.local_socket = socket;
                        let a = Action::SendUpstream { socket, server: idx, packet };
                        proof {
                            lemma_views_push(acts@, a);
                        }
                        acts.push(a);
                    },
                    Err(_) => {},
                }
            }
        }
        let ghost clients0 = aq.client_queries@;
        if aq.client_queries.len() < MAX_CLIENTS_WAITING_FOR_QUERY {
            aq.client_queries.push(cq);
            self.waiting_clients_count = self.waiting_clients_count + 1;
        }
        proof {
            lemma_total_update(mid, i as int, aq);
            assert(mid.remove(i as int).insert(i as int, aq) =~= mid.update(i as int, aq));
        }
        self.pending.insert(i, aq);
        proof {
            assert(self.pending@ =~= mid.update(i as int, aq));
            assert forall|j: int| 0 <= j < self.pending@.len() implies active_ok(
                #[trigger] self.pending@[j],
                self.pool.servers@.len(),
                self.n_sockets as nat,
            ) by {
                if j != i {
                    assert(self.pending@[j] == mid[j]);
                } else {
                    assert forall|k: int| 0 <= k < aq.client_queries@.len() implies (#[trigger] aq.client_queries@[k]).normalized_question.key_spec()
                        == aq.key@ by {
                        if k < clients0.len() {
                            assert(aq.client_queries@[k] == mid[i as int].client_queries@[k]);
                        }
                    }
                }
            }
        }
    }

    /// A client asks a question that is not in flight.
    fn create_active_query(
        &mut self,
        cq: ClientQuery,
        key: Vec<u8>,
        now: u64,
        socket: usize,
        tid: u16,
        acts: &mut Vec<Action>,
    )
        requires
            old(self).wf(),
            key@ == cq.normalized_question.key_spec(),
            forall|j: int| 0 <= j < old(self).pending@.len() ==> old(self).pending@[j].key@ != key@,
            socket < old(self).n_sockets,
            old(self).waiting_clients_count <= MAX_WAITING_CLIENTS,
        ensures
            final(self).wf(),
            final(self).same_setup(old(self)),
            final(self).cache == old(self).cache,
            create_outcome(
                old(self).pending@,
                old(self).pool,
                cq,
                now,
                socket,
                tid,
                old(self).failover,
                views(old(acts)@),
                *final(self),
                views(final(acts)@),
            ),
    {
        let idx = match self.pool.pick_upstream(&cq.normalized_question.qname, None, self.failover) {
            Err(_) => return ,
            Ok(idx) => idx,
        };
        let packet = build_query_packet(&cq.normalized_question, tid);
        let k2 = key.clone();
        assert(k2@ == key@);
        let arm = Action::ArmTimeout { key: k2, ms: UPSTREAM_TIMEOUT_MS };
        let send = Action::SendUpstream { socket, server: idx, packet };
        proof {
            lemma_views_push(acts@, arm);
            lemma_views_push(acts@.push(arm), send);
        }
        acts.push(arm);
        acts.push(send);
        let mut clients: Vec<ClientQuery> = Vec::new();
        clients.push(cq);
        assert(clients@ =~= seq![cq]);
        let aq = ActiveQuery {
            key,
            upstream_tid: tid,
            upstream_server_idx: idx,
            local_socket: socket,
            client_queries: clients,
            ts: now,
            delay: UPSTREAM_INITIAL_TIMEOUT_MS,
        };
        proof {
            lemma_total_push(self.pending@, aq);
        }
        self.pending.push(aq);
        self.waiting_clients_count = self.waiting_clients_count + 1;
        proof {
            assert(views(acts@) =~= views(old(acts)@) + seq![
                ActionView::ArmTimeout { key: key@, ms: UPSTREAM_TIMEOUT_MS },
                ActionView::SendUpstream {
                    socket,
                    server: idx,
                    packet: query_packet(cq.normalized_question, tid),
                },
            ]);
            assert(self.pending@.drop_last() =~= old(self).pending@);
            assert forall|j: int| 0 <= j < self.pending@.len() implies active_ok(
                #[trigger] self.pending@[j],
                self.pool.servers@.len(),
                self.n_sockets as nat,
            ) by {
                if j < old(self).pending@.len() {
                    assert(self.pending@[j] == old(self).pending@[j]);
                }
            }
        }
    }
}

/// The question that health checks ask: the root name's NS records.
pub open spec fn health_question_spec(q: NormalizedQuestion) -> bool {
    &&& q.qname@ == seq![0u8]
    &&& q.qtype == 2
    &&& q.qclass == 1
    &&& q.tid == 0
    &&& q.payload_size == 512
    &&& !q.dnssec
}

/// The probes of a health check: server `probe[k]` is sent a health-check
/// packet from some local socket, and the next check is armed.
pub open spec fn health_actions(
    probe: Seq<usize>,
    packet: Seq<u8>,
    n_sockets: usize,
    r: Seq<ActionView>,
) -> bool {
    &&& r.len() == probe.len() + 1
    &&& forall|k: int|
        0 <= k < probe.len() ==> {
            &&& (#[trigger] r[k]) is SendUpstream
            &&& r[k]->SendUpstream_socket < n_sockets
            &&& r[k]->SendUpstream_server == probe[k]
            &&& r[k]->SendUpstream_packet == packet
        }
    &&& r.last() == ActionView::ArmHealthCheck { ms: HEALTH_CHECK_MS }
}

/// The in-flight queries once the earliest-created was shed, if the
/// ceiling of waiting clients was passed.
pub open spec fn after_shed(pre: Resolver) -> Seq<ActiveQuery> {
    if pre.waiting_clients_count > MAX_WAITING_CLIENTS {
        pre.pending@.remove(0)
    } else {
        pre.pending@
    }
}

/// The cancellation owed for a shed question, if any.
pub open spec fn shed_actions(pre: Resolver) -> Seq<ActionView> {
    if pre.waiting_clients_count > MAX_WAITING_CLIENTS {
        seq![ActionView::CancelTimeout { key: pre.pending@[0].key@ }]
    } else {
        Seq::empty()
    }
}

/// The outcome of a health check whose probes carry transaction id `tid`;
/// see `Resolver::timeout_health_check_with`.
pub open spec fn health_outcome(pre: Resolver, post: Resolver, tid: u16, r: Seq<ActionView>) -> bool {
    &&& post.pending == pre.pending
    &&& post.cache == pre.cache
    &&& pre.pool.live@.len() == 0 ==> {
        &&& forall|i: int|
            0 <= i < post.pool.servers@.len() ==> post.pool.servers@[i]
                == crate::upstream::UpstreamServer::fresh()
        &&& post.pool.live@ == Seq::new(pre.pool.servers@.len(), |i: int| i as usize)
        &&& r == seq![ActionView::ArmHealthCheck { ms: HEALTH_CHECK_MS }]
    }
    &&& pre.pool.live@.len() > 0 ==> {
        &&& post.pool == pre.pool
        &&& exists|q: NormalizedQuestion|
            health_question_spec(q) && health_actions(
                offline_indices(pre.pool.servers@),
                query_packet(q, tid),
                pre.n_sockets,
                r,
            )
    }
}

/// The outcome of a client's question; see `Resolver::notify_with`.
pub open spec fn notify_outcome(
    pre: Resolver,
    post: Resolver,
    cq: ClientQuery,
    now: u64,
    socket: usize,
    tid: u16,
    r: Seq<ActionView>,
) -> bool {
    let key = cq.normalized_question.key_spec();
    let entries = pre.cache.entries();
    let hit = entries.dom().contains(key) && entries[key].1 > now;
    let mid = after_shed(pre);
    let prefix = shed_actions(pre);
    &&& hit ==> {
        &&& post.pending@ == pre.pending@
        &&& post.pool == pre.pool
        &&& r == reply_view(cq, client_packet(cq, cached_packet(pre, entries[key], now)), now)
    }
    &&& !hit ==> {
        &&& forall|i: int|
            0 <= i < mid.len() && mid[i].key@ == key ==> join_outcome(
                mid,
                pre.pool,
                i,
                cq,
                now,
                socket,
                tid,
                pre.upstream_max_failures,
                pre.failover,
                prefix,
                post,
                r,
            )
        &&& (forall|i: int| 0 <= i < mid.len() ==> mid[i].key@ != key)
            ==> create_outcome(
            mid,
            pre.pool,
            cq,
            now,
            socket,
            tid,
            pre.failover,
            prefix,
            post,
            r,
        )
    }
}

impl Resolver {
    /// A client's question. A fresh cached answer is served at once.
    /// Otherwise, beyond the ceiling of waiting clients the earliest-created
    /// question in flight is dropped to make room; then the client joins its
    /// question's in-flight query, or a new one is sent upstream. `socket`
    /// and `tid` are the local socket and transaction id of any query sent.
    pub fn notify_with(&mut self, cq: ClientQuery, now: u64, socket: usize, tid: u16) -> (r: Vec<Action>)
        requires
            old(self).wf(),
            socket < old(self).n_sockets,
        ensures
            final(self).wf(),
            final(self).same_setup(old(self)),
            final(self).cache.entries() == old(self).cache.entries(),
            notify_outcome(*old(self), *final(self), cq, now, socket, tid, views(r@)),
    {
        let key = cq.normalized_question.key();
        let mut acts: Vec<Action> = Vec::new();
        match self.cache.get(&key) {
            Some(e) => {
                if e.expires_ms > now {
                    let mut packet = e.packet;
                    let ghost p0 = packet@;
                    if self.decrement_ttl {
                        let left_ms: u64 = e.expires_ms - now;
                        let left: u64 = left_ms / 1000;
                        let secs: u32 = if left > u32::MAX as u64 {
                            u32::MAX
                        } else {
                            left as u32
                        };
                        set_ttl(&mut packet, secs);
                    }
                    proof {
                        lemma_set_ttl_len(p0, seconds_left(e.expires_ms, now));
                    }
                    let base = Some(packet);
                    reply_to(&cq, &base, now, &mut acts);
                    assert(views(acts@) =~= reply_view(
                        cq,
                        client_packet(cq, cached_packet(*old(self), self.cache.entries()[key@], now)),
                        now,
                    ));
                    return acts;
                }
            },
            None => {},
        }
        if self.waiting_clients_count > MAX_WAITING_CLIENTS {
            if self.pending.len() == 0 {
                assert(total_clients(self.pending@) == 0);
            }
            self.shed_oldest(&mut acts);
        }
        assert(views(acts@) =~= shed_actions(*old(self)));
        let ghost mid = self.pending@;
        match find_active_query(&self.pending, &key) {
            Some(i) => {
                self.join_active_query(i, cq, now, socket, tid, &mut acts);
                proof {
                    assert forall|j: int| 0 <= j < mid.len() && mid[j].key@ == key@ implies j
                        == i by {
                        if j != i {
                            assert(mid[j].key@ == mid[i as int].key@);
                        }
                    }
                }
            },
            None => {
                self.create_active_query(cq, key, now, socket, tid, &mut acts);
            },
        }
        acts
    }

    /// A client's question, with the local socket and transaction id of any
    /// query sent drawn at random; see `notify_with`.
    pub fn notify(&mut self, client_query: ClientQuery, now: u64) -> (r: Vec<Action>)
        requires
            old(self).wf(),
        ensures
            final(self).wf(),
            final(self).same_setup(old(self)),
            final(self).cache.entries() == old(self).cache.entries(),
            exists|socket: usize, tid: u16|
                socket < old(self).n_sockets && notify_outcome(
                    *old(self),
                    *final(self),
                    client_query,
                    now,
                    socket,
                    tid,
                    views(r@),
                ),
    {
        let socket = random_below(self.n_sockets);
        let tid = random_u16();
        let r = self.notify_with(client_query, now, socket, tid);
        assert(socket < old(self).n_sockets && notify_outcome(
            *old(self),
            *self,
            client_query,
            now,
            socket,
            tid,
            views(r@),
        ));
        r
    }

    /// The question that health checks ask.
    pub fn health_question() -> (q: NormalizedQuestion)
        ensures
            health_question_spec(q),
    {
        let qname: Vec<u8> = vec![0u8];
        assert(qname@ =~= seq![0u8]);
        NormalizedQuestion { qname, qtype: 2, qclass: 1, tid: 0, payload_size: 512, dnssec: false }
    }

    /// The health check fired, with `tid` the transaction id of the probes.
    /// When no server is live, all are put back online with no failure;
    /// otherwise each offline server is probed from a random local socket.
    /// Either way the next check is armed.
    pub fn timeout_health_check_with(&mut self, tid: u16) -> (r: Vec<Action>)
        requires
            old(self).wf(),
        ensures
            final(self).wf(),
            final(self).same_setup(old(self)),
            health_outcome(*old(self), *final(self), tid, views(r@)),
    {
        let probe = self.pool.health_check();
        let q = Resolver::health_question();
        let packet = build_query_packet(&q, tid);
        let mut acts: Vec<Action> = Vec::new();
        let mut k: usize = 0;
        while k < probe.len()
            invariant
                k <= probe@.len(),
                self.n_sockets > 0,
                views(acts@).len() == k,
                forall|j: int|
                    0 <= j < k ==> {
                        &&& (#[trigger] views(acts@)[j]) is SendUpstream
                        &&& views(acts@)[j]->SendUpstream_socket < self.n_sockets
                        &&& views(acts@)[j]->SendUpstream_server == probe@[j]
                        &&& views(acts@)[j]->SendUpstream_packet == packet@
                    },
            decreases probe@.len() - k,
        {
            let socket = random_below(self.n_sockets);
            let p = packet.clone();
            assert(p@ == packet@);
            let a = Action::SendUpstream { socket, server: probe[k], packet: p };
            proof {
                lemma_views_push(acts@, a);
            }
            acts.push(a);
            k = k + 1;
        }
        let a = Action::ArmHealthCheck { ms: HEALTH_CHECK_MS };
        proof {
            lemma_views_push(acts@, a);
        }
        acts.push(a);
        proof {
            if old(self).pool.live@.len() == 0 {
                assert(views(acts@) =~= seq![ActionView::ArmHealthCheck { ms: HEALTH_CHECK_MS }]);
            } else {
                assert(health_actions(
                    offline_indices(old(self).pool.servers@),
                    query_packet(q, tid),
                    old(self).n_sockets,
                    views(acts@),
                ));
            }
        }
        acts
    }

    /// The health check fired; the probes' transaction id is drawn at
    /// random. See `timeout_health_check_with`.
    pub fn timeout_health_check(&mut self) -> (r: Vec<Action>)
        requires
            old(self).wf(),
        ensures
            final(self).wf(),
            final(self).same_setup(old(self)),
            exists|tid: u16| health_outcome(*old(self), *final(self), tid, views(r@)),
    {
        let tid = random_u16();
        let r = self.timeout_health_check_with(tid);
        assert(health_outcome(*old(self), *self, tid, views(r@)));
        r
    }

    /// A timer fired: a question's deadline or the health check.
    pub fn timeout(&mut self, timeout_token: TimeoutToken, now: u64) -> (r: Vec<Action>)
        requires
            old(self).wf(),
        ensures
            final(self).wf(),
            final(self).same_setup(old(self)),
            timeout_token is Key ==> question_timeout_outcome(
                *old(self),
                *final(self),
                timeout_token->Key_0@,
                now,
                views(r@),
            ),
            timeout_token is HealthCheck ==> exists|tid: u16|
                health_outcome(*old(self), *final(self), tid, views(r@)),
    {
        match timeout_token {
            TimeoutToken::Key(key) => self.timeout_question(&key, now),
            TimeoutToken::HealthCheck => self.timeout_health_check(),
        }
    }
}

/// Why the service could not be set up.
#[derive(Clone, Copy, Debug, PartialEq, Eq, Structural)]
pub enum SetupError {
    /// No local socket could be bound for upstream queries.
    NoLocalSocket,
    /// The cache size is under three entries or above the largest size.
    CacheSize,
}

/// What the engine starts from: its configuration and its cache.
pub struct RPDNSContext {
    pub config: Config,
    pub cache: Cache,
}

/// A freshly set-up engine for a configuration: all configured servers
/// live with no failure, nothing in flight, the configuration's settings.
pub open spec fn fresh_engine(config: Config, n_sockets: usize, r: Resolver) -> bool {
    &&& r.wf()
    &&& r.pending@.len() == 0
    &&& r.waiting_clients_count == 0
    &&& r.n_sockets == n_sockets
    &&& r.pool.servers@.len() == config.upstream_servers@.len()
    &&& forall|i: int|
        0 <= i < r.pool.servers@.len() ==> r.pool.servers@[i]
            == crate::upstream::UpstreamServer::fresh()
    &&& r.pool.live@ == Seq::new(config.upstream_servers@.len(), |i: int| i as usize)
    &&& r.min_ttl == config.min_ttl
    &&& r.max_ttl == config.max_ttl
    &&& r.upstream_max_failures == config.upstream_max_failures
    &&& r.failover == config.failover
    &&& r.decrement_ttl == config.decrement_ttl
}

/// The actions owed when an engine starts: arming the first health check.
pub open spec fn startup_actions() -> Seq<ActionView> {
    seq![ActionView::ArmHealthCheck { ms: HEALTH_CHECK_MS }]
}

impl Resolver {
    /// Sets up the engine for a context, with `n_sockets` local sockets for
    /// upstream queries, and returns it with the actions owed at startup
    /// (arming the first health check); fails when there is no socket.
    /// Every cached packet must hold a header.
    pub fn spawn(rpdns_context: RPDNSContext, n_sockets: usize) -> (r: Result<
        (Resolver, Vec<Action>),
        SetupError,
    >)
        requires
            forall|k: Seq<u8>|
                #[trigger] rpdns_context.cache.entries().dom().contains(k)
                    ==> rpdns_context.cache.entries()[k].0.len() >= DNS_HEADER_SIZE,
        ensures
            r is Err <==> n_sockets == 0,
            r is Err ==> r->Err_0 == SetupError::NoLocalSocket,
            r is Ok ==> fresh_engine(rpdns_context.config, n_sockets, r->Ok_0.0),
            r is Ok ==> r->Ok_0.0.cache == rpdns_context.cache,
            r is Ok ==> views(r->Ok_0.1@) == startup_actions(),
    {
        if n_sockets == 0 {
            return Err(SetupError::NoLocalSocket);
        }
        let RPDNSContext { config, cache } = rpdns_context;
        let pool = UpstreamPool::new(config.upstream_servers.len());
        let resolver = Resolver {
            pool,
            pending: Vec::new(),
            waiting_clients_count: 0,
            cache,
            n_sockets,
            min_ttl: config.min_ttl,
            max_ttl: config.max_ttl,
            upstream_max_failures: config.upstream_max_failures,
            failover: config.failover,
            decrement_ttl: config.decrement_ttl,
        };
        assert(resolver.pending@ =~= Seq::<ActiveQuery>::empty());
        let mut actions: Vec<Action> = Vec::new();
        let a = Action::ArmHealthCheck { ms: HEALTH_CHECK_MS };
        proof {
            lemma_views_push(actions@, a);
        }
        actions.push(a);
        assert(views(actions@) =~= startup_actions());
        Ok((resolver, actions))
    }
}

/// The running service: its resolution engine.
pub struct RPDNS {
    pub resolver: Resolver,
    /// What the caller must do at startup.
    pub startup: Vec<Action>,
}

impl RPDNS {
    /// Sets up the service from its configuration, with `n_sockets` local
    /// sockets for upstream queries: an empty cache of the configured size,
    /// a fresh engine over it, and the actions owed at startup. Fails on a cache size under three or
    /// above the largest, or on no local socket.
    pub fn new(config: Config, n_sockets: usize) -> (r: Result<RPDNS, SetupError>)
        ensures
            (config.cache_size < 3 || config.cache_size > crate::cache::MAX_CACHE_CAPACITY) ==> r
                == Err::<RPDNS, SetupError>(SetupError::CacheSize),
            3 <= config.cache_size <= crate::cache::MAX_CACHE_CAPACITY && n_sockets == 0 ==> r
                == Err::<RPDNS, SetupError>(SetupError::NoLocalSocket),
            r is Ok ==> fresh_engine(config, n_sockets, r->Ok_0.resolver),
            r is Ok ==> r->Ok_0.resolver.cache.entries().dom() == Set::<Seq<u8>>::empty(),
            r is Ok ==> views(r->Ok_0.startup@) == startup_actions(),
            r is Ok <==> 3 <= config.cache_size <= crate::cache::MAX_CACHE_CAPACITY && n_sockets > 0,
    {
        if config.cache_size > crate::cache::MAX_CACHE_CAPACITY {
            return Err(SetupError::CacheSize);
        }
        let cache = match Cache::new(config.cache_size) {
            Ok(c) => c,
            Err(_) => return Err(SetupError::CacheSize),
        };
        let rpdns_context = RPDNSContext { config, cache };
        match Resolver::spawn(rpdns_context, n_sockets) {
            Ok((resolver, startup)) => Ok(RPDNS { resolver, startup }),
            Err(e) => Err(e),
        }
    }
}

/// A second client that asks a question already in flight, before its retry
/// delay is over and below the ceilings, causes no upstream send: it joins
/// the waiters of the in-flight query, which keeps its target.
pub proof fn lemma_duplicate_joins(
    pre: Resolver,
    post: Resolver,
    i: int,
    cq: ClientQuery,
    now: u64,
    socket: usize,
    tid: u16,
    r: Seq<ActionView>,
)
    requires
        pre.wf(),
        0 <= i < pre.pending@.len(),
        pre.pending@[i].key@ == cq.normalized_question.key_spec(),
        !obsolete(pre.pending@[i], now),
        pre.pending@[i].client_queries@.len() < MAX_CLIENTS_WAITING_FOR_QUERY,
        pre.waiting_clients_count <= MAX_WAITING_CLIENTS,
        !(pre.cache.entries().dom().contains(cq.normalized_question.key_spec())
            && pre.cache.entries()[cq.normalized_question.key_spec()].1 > now),
        notify_outcome(pre, post, cq, now, socket, tid, r),
    ensures
        r.len() == 0,
        post.pending@.len() == pre.pending@.len(),
        post.pending@[i].client_queries@ == pre.pending@[i].client_queries@.push(cq),
        post.pending@[i].upstream_tid == pre.pending@[i].upstream_tid,
        post.pending@[i].upstream_server_idx == pre.pending@[i].upstream_server_idx,
        post.pending@[i].local_socket == pre.pending@[i].local_socket,
        post.pending@[i].key@ == pre.pending@[i].key@,
        post.pool == pre.pool,
{
    assert(after_shed(pre) == pre.pending@);
    assert(shed_actions(pre) == Seq::<ActionView>::empty());
    assert(join_outcome(
        pre.pending@,
        pre.pool,
        i,
        cq,
        now,
        socket,
        tid,
        pre.upstream_max_failures,
        pre.failover,
        Seq::empty(),
        post,
        r,
    ));
    assert(joined_at(pre.pending@, post.pending@, i, cq, pre.pending@[i].delay));
}

/// The deduplication key of the question a response holds.
pub open spec fn response_key(p: Seq<u8>) -> Seq<u8> {
    let e = question_end(p)->Some_0;
    key_of(
        p.subrange(DNS_HEADER_SIZE as int, e - 4),
        u16_at(p, e - 4),
        u16_at(p, e - 2),
        edns_of(p, e).1,
    )
}

impl Resolver {
    /// A configured peer's response is counted.
    fn note_peer(&mut self, peer: Option<usize>)
        requires
            old(self).wf(),
        ensures
            final(self).wf(),
            final(self).same_setup(old(self)),
            final(self).pool.servers@ == pool_after_peer(old(self).pool, peer),
            final(self).pending == old(self).pending,
            final(self).cache == old(self).cache,
    {
        match peer {
            Some(idx) => {
                if idx < self.pool.servers.len() {
                    self.pool.record_response(idx);
                }
            },
            None => {},
        }
    }

    /// A packet came in from `peer` (the index of the configured server it
    /// came from, if any) on local socket `socket`. A packet shorter than a
    /// header is ignored. One that reads as a response with one question
    /// and well-formed answer and authority records is handled as
    /// `handle_upstream_response` says, under its question's key and its
    /// smallest TTL; any other only counts for its peer.
    pub fn ready(&mut self, packet: Vec<u8>, peer: Option<usize>, socket: usize, now: u64) -> (r: Vec<Action>)
        requires
            old(self).wf(),
        ensures
            final(self).wf(),
            final(self).same_setup(old(self)),
            decode_error(packet@, true) is None && min_ttl_spec(packet@) is Some ==> response_outcome(
                *old(self),
                *final(self),
                packet@,
                response_key(packet@),
                min_ttl_spec(packet@)->Some_0,
                peer,
                socket,
                now,
                r@,
            ),
            !(decode_error(packet@, true) is None && min_ttl_spec(packet@) is Some) ==> {
                &&& final(self).pending@ == old(self).pending@
                &&& final(self).cache.entries() == old(self).cache.entries()
                &&& r@.len() == 0
                &&& packet@.len() < DNS_HEADER_SIZE ==> final(self).pool == old(self).pool
                &&& packet@.len() >= DNS_HEADER_SIZE ==> final(self).pool.servers@
                    == pool_after_peer(old(self).pool, peer)
            },
    {
        if packet.len() < DNS_HEADER_SIZE {
            return Vec::new();
        }
        match (normalize(&packet, true), min_ttl(&packet)) {
            (Ok(q), Ok(t)) => {
                let key = q.key();
                return self.handle_upstream_response(packet, &key, t, peer, socket, now);
            },
            _ => {},
        }
        self.note_peer(peer);
        Vec::new()
    }
}

/// In hash mode with more than one live server, a question sent again
/// goes to another server than the attempt just before it.
pub proof fn lemma_resend_avoids_previous(
    mid: Seq<ActiveQuery>,
    pool0: UpstreamPool,
    i: int,
    cq: ClientQuery,
    now: u64,
    socket: usize,
    tid: u16,
    max_failures: u32,
    prefix: Seq<ActionView>,
    post: Resolver,
    r: Seq<ActionView>,
)
    requires
        0 <= i < mid.len(),
        post.wf(),
        post.pool.live@.len() > 1,
        join_outcome(mid, pool0, i, cq, now, socket, tid, max_failures, false, prefix, post, r),
        r.len() > prefix.len(),
    ensures
        r.last() is SendUpstream,
        r.last()->SendUpstream_server != mid[i].upstream_server_idx,
{
    crate::upstream::lemma_retry_picks_another(post.pool.servers@, mid[i].upstream_server_idx);
}

/// Two clients asking the same question before its retry delay is over
/// make one upstream round trip: the second causes no send, and the one
/// response that matches the query answers both, in order, from the same
/// served packet, each with its own transaction id and name casing.
pub proof fn lemma_shared_round_trip(
    pre: Resolver,
    mid: Resolver,
    post: Resolver,
    i: int,
    cq: ClientQuery,
    now: u64,
    socket: usize,
    tid: u16,
    r1: Seq<ActionView>,
    packet: Seq<u8>,
    peer: Option<usize>,
    in_socket: usize,
    answer_ttl: u32,
    later: u64,
    r2: Seq<Action>,
)
    requires
        pre.wf(),
        0 <= i < pre.pending@.len(),
        pre.pending@[i].key@ == cq.normalized_question.key_spec(),
        !obsolete(pre.pending@[i], now),
        pre.pending@[i].client_queries@.len() < MAX_CLIENTS_WAITING_FOR_QUERY,
        pre.waiting_clients_count <= MAX_WAITING_CLIENTS,
        !(pre.cache.entries().dom().contains(cq.normalized_question.key_spec())
            && pre.cache.entries()[cq.normalized_question.key_spec()].1 > now),
        notify_outcome(pre, mid, cq, now, socket, tid, r1),
        mid.wf(),
        response_matches(pre.pending@[i], packet, peer, in_socket),
        packet.len() >= DNS_QUERY_MIN_SIZE,
        response_outcome(
            mid,
            post,
            packet,
            pre.pending@[i].key@,
            answer_ttl,
            peer,
            in_socket,
            later,
            r2,
        ),
    ensures
        r1.len() == 0,
        views(r2) == replies(
            pre.pending@[i].client_queries@.push(cq),
            Some(served_packet(mid, packet, answer_ttl)),
            later,
        ).push(ActionView::CancelTimeout { key: pre.pending@[i].key@ }),
        post.pending@ == mid.pending@.remove(i),
{
    lemma_duplicate_joins(pre, mid, i, cq, now, socket, tid, r1);
    let key = pre.pending@[i].key@;
    assert(mid.pending@[i].key@ == key);
    assert(response_matches(mid.pending@[i], packet, peer, in_socket));
    assert(0 <= i < mid.pending@.len() && mid.pending@[i].key@ == key && response_matches(
        mid.pending@[i],
        packet,
        peer,
        in_socket,
    ) && packet.len() >= DNS_QUERY_MIN_SIZE);
    assert(post.pending@ == mid.pending@.remove(i));
    assert(views(r2) == replies(
        mid.pending@[i].client_queries@,
        Some(served_packet(mid, packet, answer_ttl)),
        later,
    ).push(ActionView::CancelTimeout { key }));
}

} // verus!
