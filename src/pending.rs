//! In-flight upstream queries and the clients that wait on each.
use crate::wire::{bytes_eq, NormalizedQuestion};
use vstd::prelude::*;

verus! {

/// How a client reached the server.
#[derive(Clone, Copy, Debug, PartialEq, Eq, Structural)]
pub enum ClientQueryProtocol {
    Udp,
    Tcp,
}

/// One client waiting for an answer.
pub struct ClientQuery {
    pub proto: ClientQueryProtocol,
    pub normalized_question: NormalizedQuestion,
    /// Arrival, in milliseconds.
    pub ts: u64,
    /// Where the answer goes: a UDP peer or a TCP connection, as the caller
    /// numbers them.
    pub client: u64,
}

/// One in-flight upstream resolution, shared by the clients that asked the
/// same question.
pub struct ActiveQuery {
    /// The deduplication key of the question.
    pub key: Vec<u8>,
    /// Transaction id of the query sent upstream.
    pub upstream_tid: u16,
    /// Index of the upstream server the query went to.
    pub upstream_server_idx: usize,
    /// Index of the local socket the query went out on.
    pub local_socket: usize,
    pub client_queries: Vec<ClientQuery>,
    /// When the query was first sent, in milliseconds.
    pub ts: u64,
    /// Current retry delay, in milliseconds.
    pub delay: u64,
}

/// The number of clients waiting over all in-flight queries.
pub open spec fn total_clients(s: Seq<ActiveQuery>) -> nat
    decreases s.len(),
{
    if s.len() == 0 {
        0
    } else {
        total_clients(s.drop_last()) + s.last().client_queries@.len()
    }
}

/// No two in-flight queries share a key.
pub open spec fn keys_unique(s: Seq<ActiveQuery>) -> bool {
    forall|i: int, j: int| 0 <= i < j < s.len() ==> s[i].key@ != s[j].key@
}

pub proof fn lemma_total_push(s: Seq<ActiveQuery>, a: ActiveQuery)
    ensures
        total_clients(s.push(a)) == total_clients(s) + a.client_queries@.len(),
{
    assert(s.push(a).drop_last() =~= s);
}

pub proof fn lemma_total_remove(s: Seq<ActiveQuery>, i: int)
    requires
        0 <= i < s.len(),
    ensures
        total_clients(s.remove(i)) + s[i].client_queries@.len() == total_clients(s),
    decreases s.len(),
{
    if i == s.len() - 1 {
        assert(s.remove(i) =~= s.drop_last());
    } else {
        lemma_total_remove(s.drop_last(), i);
        assert(s.remove(i) =~= s.drop_last().remove(i).push(s.last()));
        lemma_total_push(s.drop_last().remove(i), s.last());
    }
}

pub proof fn lemma_total_update(s: Seq<ActiveQuery>, i: int, a: ActiveQuery)
    requires
        0 <= i < s.len(),
    ensures
        total_clients(s.update(i, a)) + s[i].client_queries@.len() == total_clients(s)
            + a.client_queries@.len(),
{
    lemma_total_remove(s, i);
    lemma_total_remove(s.update(i, a), i);
    assert(s.update(i, a).remove(i) =~= s.remove(i));
}

/// The position of the in-flight query with the given key, if any.
pub fn find_active_query(pending: &Vec<ActiveQuery>, key: &Vec<u8>) -> (r: Option<usize>)
    ensures
        r is Some ==> r->Some_0 < pending@.len() && pending@[r->Some_0 as int].key@ == key@,
        r is None ==> forall|i: int| 0 <= i < pending@.len() ==> pending@[i].key@ != key@,
{
    let mut i: usize = 0;
    while i < pending.len()
        invariant
            i <= pending@.len(),
            forall|k: int| 0 <= k < i ==> pending@[k].key@ != key@,
        decreases pending@.len() - i,
    {
        if bytes_eq(&pending[i].key, key) {
            return Some(i);
        }
        i = i + 1;
    }
    None
}

} // verus!
