//! What the engine asks of its caller, and the replies it owes waiting
//! clients: each gets the answer with its own transaction id and query-name
//! casing, truncated when it exceeds a UDP client's payload size.
use crate::pending::{ClientQuery, ClientQueryProtocol};
use crate::wire::{
    build_servfail_packet, build_tc_packet, overwrite_qname, set_tid, stub_answer, tid_of,
    with_qname, with_tid, DNS_HEADER_SIZE, SERVFAIL_FLAGS, TC_FLAGS,
};
use crate::UPSTREAM_TIMEOUT_MS;
use vstd::prelude::*;

verus! {

/// An answer for a client.
pub struct ResolverResponse {
    /// The client, as the caller numbers them.
    pub client_tok: u64,
    pub response: Vec<u8>,
    pub dnssec: bool,
}

/// What the engine asks its caller to do.
pub enum Action {
    /// Send `packet` to upstream server `server` from local socket `socket`.
    SendUpstream { socket: usize, server: usize, packet: Vec<u8> },
    /// Answer a client over the protocol it used.
    Reply { proto: ClientQueryProtocol, response: ResolverResponse },
    /// Arm the timeout of the question with deduplication key `key`.
    ArmTimeout { key: Vec<u8>, ms: u64 },
    /// Cancel the timeout of the question with deduplication key `key`.
    CancelTimeout { key: Vec<u8> },
    /// Arm the next health check.
    ArmHealthCheck { ms: u64 },
}

/// An action, with its byte strings as sequences.
pub enum ActionView {
    SendUpstream { socket: usize, server: usize, packet: Seq<u8> },
    Reply { proto: ClientQueryProtocol, client: u64, packet: Seq<u8>, dnssec: bool },
    ArmTimeout { key: Seq<u8>, ms: u64 },
    CancelTimeout { key: Seq<u8> },
    ArmHealthCheck { ms: u64 },
}

pub open spec fn action_view(a: Action) -> ActionView {
    match a {
        Action::SendUpstream { socket, server, packet } => ActionView::SendUpstream {
            socket,
            server,
            packet: packet@,
        },
        Action::Reply { proto, response } => ActionView::Reply {
            proto,
            client: response.client_tok,
            packet: response.response@,
            dnssec: response.dnssec,
        },
        Action::ArmTimeout { key, ms } => ActionView::ArmTimeout { key: key@, ms },
        Action::CancelTimeout { key } => ActionView::CancelTimeout { key: key@ },
        Action::ArmHealthCheck { ms } => ActionView::ArmHealthCheck { ms },
    }
}

/// A list of actions, viewed.
pub open spec fn views(s: Seq<Action>) -> Seq<ActionView> {
    s.map_values(|a: Action| action_view(a))
}

/// The packet a client gets from an answer `p`: `p` with the client's
/// query-name casing and transaction id.
pub open spec fn client_packet(c: ClientQuery, p: Seq<u8>) -> Seq<u8> {
    with_tid(with_qname(p, c.normalized_question.qname@), c.normalized_question.tid)
}

/// The packet a client gets from a base answer, or a SERVFAIL when there is
/// none.
pub open spec fn answer_for(c: ClientQuery, base: Option<Seq<u8>>) -> Seq<u8> {
    match base {
        Some(p) => client_packet(c, p),
        None => stub_answer(c.normalized_question, SERVFAIL_FLAGS),
    }
}

/// A UDP client still waits at `now`; past the upstream timeout it has
/// given up.
pub open spec fn still_waiting(c: ClientQuery, now: u64) -> bool {
    now < c.ts || now - c.ts < UPSTREAM_TIMEOUT_MS
}

/// The reply owed to a client for packet `p`: over TCP the packet; over UDP
/// nothing once the client gave up, a truncated answer when the packet
/// exceeds its payload size, else the packet.
pub open spec fn reply_view(c: ClientQuery, p: Seq<u8>, now: u64) -> Seq<ActionView> {
    let q = c.normalized_question;
    match c.proto {
        ClientQueryProtocol::Tcp => seq![
            ActionView::Reply {
                proto: ClientQueryProtocol::Tcp,
                client: c.client,
                packet: p,
                dnssec: q.dnssec,
            },
        ],
        ClientQueryProtocol::Udp => if !still_waiting(c, now) {
            Seq::empty()
        } else if p.len() > q.payload_size {
            seq![
                ActionView::Reply {
                    proto: ClientQueryProtocol::Udp,
                    client: c.client,
                    packet: stub_answer(q, TC_FLAGS),
                    dnssec: q.dnssec,
                },
            ]
        } else {
            seq![
                ActionView::Reply {
                    proto: ClientQueryProtocol::Udp,
                    client: c.client,
                    packet: p,
                    dnssec: q.dnssec,
                },
            ]
        },
    }
}

/// The replies owed to waiting clients, in order, from a base answer.
pub open spec fn replies(cs: Seq<ClientQuery>, base: Option<Seq<u8>>, now: u64) -> Seq<
    ActionView,
>
    decreases cs.len(),
{
    if cs.len() == 0 {
        Seq::empty()
    } else {
        replies(cs.drop_last(), base, now) + reply_view(
            cs.last(),
            answer_for(cs.last(), base),
            now,
        )
    }
}

/// The view of an optional answer packet.
pub open spec fn opt_view(o: Option<Vec<u8>>) -> Option<Seq<u8>> {
    match o {
        Some(p) => Some(p@),
        None => None,
    }
}

pub proof fn lemma_views_push(s: Seq<Action>, a: Action)
    ensures
        views(s.push(a)) == views(s).push(action_view(a)),
{
    assert(views(s.push(a)) =~= views(s).push(action_view(a)));
}

/// Appends the reply owed to one client.
pub fn reply_to(c: &ClientQuery, base: &Option<Vec<u8>>, now: u64, acts: &mut Vec<Action>)
    requires
        base is Some ==> base->Some_0@.len() >= 2,
    ensures
        views(final(acts)@) == views(old(acts)@) + reply_view(
            *c,
            answer_for(*c, opt_view(*base)),
            now,
        ),
{
    let q = &c.normalized_question;
    let packet = match base {
        Some(p) => {
            let mut p2 = p.clone();
            assert(p2@ == p@);
            overwrite_qname(&mut p2, &q.qname);
            set_tid(&mut p2, q.tid);
            p2
        },
        None => build_servfail_packet(q),
    };
    let ghost a0 = acts@;
    match c.proto {
        ClientQueryProtocol::Tcp => {
            let a = Action::Reply {
                proto: ClientQueryProtocol::Tcp,
                response: ResolverResponse { client_tok: c.client, response: packet, dnssec: q.dnssec },
            };
            proof {
                lemma_views_push(acts@, a);
            }
            acts.push(a);
        },
        ClientQueryProtocol::Udp => {
            if now < c.ts || now - c.ts < UPSTREAM_TIMEOUT_MS {
                let out = if packet.len() > q.payload_size as usize {
                    build_tc_packet(q)
                } else {
                    packet
                };
                let a = Action::Reply {
                    proto: ClientQueryProtocol::Udp,
                    response: ResolverResponse { client_tok: c.client, response: out, dnssec: q.dnssec },
                };
                proof {
                    lemma_views_push(acts@, a);
                }
                acts.push(a);
            }
        },
    }
    assert(views(acts@) =~= views(a0) + reply_view(*c, answer_for(*c, opt_view(*base)), now));
}

/// The replies owed to every waiting client, in order, from a base answer.
pub fn reply_all(cs: &Vec<ClientQuery>, base: &Option<Vec<u8>>, now: u64) -> (r: Vec<Action>)
    requires
        base is Some ==> base->Some_0@.len() >= 2,
    ensures
        views(r@) == replies(cs@, opt_view(*base), now),
{
    let mut acts: Vec<Action> = Vec::new();
    let mut i: usize = 0;
    while i < cs.len()
        invariant
            i <= cs@.len(),
            base is Some ==> base->Some_0@.len() >= 2,
            views(acts@) == replies(cs@.subrange(0, i as int), opt_view(*base), now),
        decreases cs@.len() - i,
    {
        reply_to(&cs[i], base, now, &mut acts);
        proof {
            let s = cs@.subrange(0, i + 1);
            assert(s.drop_last() =~= cs@.subrange(0, i as int));
            assert(s.last() == cs@[i as int]);
        }
        i = i + 1;
    }
    assert(cs@.subrange(0, cs@.len() as int) =~= cs@);
    assert(views(acts@) =~= replies(cs@, opt_view(*base), now));
    acts
}

/// Each waiter's copy of an answer carries its own transaction id and, when
/// the answer has room for it, its own query-name casing; the rest of the
/// answer is the upstream packet's.
pub proof fn lemma_client_packet(c: ClientQuery, p: Seq<u8>)
    requires
        p.len() >= DNS_HEADER_SIZE,
    ensures
        tid_of(client_packet(c, p)) == c.normalized_question.tid,
        client_packet(c, p).len() == p.len(),
        forall|k: int| 2 <= k < DNS_HEADER_SIZE ==> client_packet(c, p)[k] == p[k],
        DNS_HEADER_SIZE + c.normalized_question.qname@.len() <= p.len() ==> client_packet(
            c,
            p,
        ).subrange(
            DNS_HEADER_SIZE as int,
            DNS_HEADER_SIZE + c.normalized_question.qname@.len(),
        ) == c.normalized_question.qname@,
        forall|k: int|
            DNS_HEADER_SIZE + c.normalized_question.qname@.len() <= k < p.len() ==> client_packet(
                c,
                p,
            )[k] == p[k],
{
    let q = c.normalized_question.qname@;
    let w = with_qname(p, q);
    assert(w.len() == p.len());
    if DNS_HEADER_SIZE + q.len() <= p.len() {
        assert(client_packet(c, p).subrange(DNS_HEADER_SIZE as int, DNS_HEADER_SIZE + q.len())
            =~= q);
    }
    crate::wire::lemma_tid_round_trip(w, c.normalized_question.tid);
}

} // verus!
