//! The few wire-level operations on DNS messages that the engine needs:
//! transaction ids, response codes, query-name casing, the deduplication key
//! and the packets the engine synthesizes.
use vstd::prelude::*;

verus! {

/// Size of a DNS header.
pub const DNS_HEADER_SIZE: usize = 12;

/// Response code of a server failure.
pub const DNS_RCODE_SERVFAIL: u8 = 2;

/// A query as a client asked it.
pub struct NormalizedQuestion {
    /// The query name in wire form, with the client's casing.
    pub qname: Vec<u8>,
    pub qtype: u16,
    pub qclass: u16,
    /// The client's transaction id.
    pub tid: u16,
    /// Largest UDP response the client accepts.
    pub payload_size: u16,
    /// Whether the client asked for DNSSEC records.
    pub dnssec: bool,
}

/// The two bytes, high first, of a 16-bit value.
pub open spec fn be16(x: u16) -> Seq<u8> {
    seq![(x / 256) as u8, (x % 256) as u8]
}

/// The transaction id of a message.
pub open spec fn tid_of(p: Seq<u8>) -> u16
    recommends
        p.len() >= 2,
{
    (p[0] as int * 256 + p[1] as int) as u16
}

/// A message with its transaction id replaced.
pub open spec fn with_tid(p: Seq<u8>, tid: u16) -> Seq<u8> {
    p.update(0, (tid / 256) as u8).update(1, (tid % 256) as u8)
}

/// A message with the query name at the start of its question replaced, when
/// it has room for it; else the message unchanged.
pub open spec fn with_qname(p: Seq<u8>, qname: Seq<u8>) -> Seq<u8> {
    if DNS_HEADER_SIZE + qname.len() <= p.len() {
        p.subrange(0, DNS_HEADER_SIZE as int) + qname + p.subrange(
            DNS_HEADER_SIZE + qname.len(),
            p.len() as int,
        )
    } else {
        p
    }
}

/// An ASCII byte in lower case.
pub open spec fn lower_byte(b: u8) -> u8 {
    if 65 <= b <= 90 {
        (b + 32) as u8
    } else {
        b
    }
}

/// A name with its ASCII letters in lower case.
pub open spec fn lower_name(s: Seq<u8>) -> Seq<u8> {
    s.map_values(|b: u8| lower_byte(b))
}

/// The deduplication key of a question: its name without casing, its type,
/// its class and whether DNSSEC records were asked for.
pub open spec fn key_of(qname: Seq<u8>, qtype: u16, qclass: u16, dnssec: bool) -> Seq<u8> {
    lower_name(qname) + be16(qtype) + be16(qclass) + seq![
        if dnssec {
            1u8
        } else {
            0u8
        },
    ]
}

/// A header with the given id and flags, one question and no records.
pub open spec fn header(tid: u16, flags: u16, arcount: u16) -> Seq<u8> {
    be16(tid) + be16(flags) + be16(1) + be16(0) + be16(0) + be16(arcount)
}

/// The question section of a question.
pub open spec fn question_section(qname: Seq<u8>, qtype: u16, qclass: u16) -> Seq<u8> {
    qname + be16(qtype) + be16(qclass)
}

/// Flags of a truncated answer: response, truncated, recursion desired and
/// available.
pub const TC_FLAGS: u16 = 0x8380;

/// Flags of a SERVFAIL answer: response, recursion desired and available,
/// server failure.
pub const SERVFAIL_FLAGS: u16 = 0x8182;

/// Flags of an outgoing query: recursion desired.
pub const QUERY_FLAGS: u16 = 0x0100;

/// An empty answer to a question, with the given flags.
pub open spec fn stub_answer(q: NormalizedQuestion, flags: u16) -> Seq<u8> {
    header(q.tid, flags, 0) + question_section(q.qname@, q.qtype, q.qclass)
}

/// The OPT record of an outgoing query that asks for DNSSEC records:
/// a 4096-byte payload and the DO flag.
pub open spec fn opt_do_record() -> Seq<u8> {
    seq![0u8, 0u8, 41u8, 16u8, 0u8, 0u8, 0u8, 128u8, 0u8, 0u8, 0u8]
}

/// The query sent upstream for a question, under transaction id `tid`.
pub open spec fn query_packet(q: NormalizedQuestion, tid: u16) -> Seq<u8> {
    if q.dnssec {
        header(tid, QUERY_FLAGS, 1) + question_section(q.qname@, q.qtype, q.qclass)
            + opt_do_record()
    } else {
        header(tid, QUERY_FLAGS, 0) + question_section(q.qname@, q.qtype, q.qclass)
    }
}

/// Reads the transaction id of a message.
pub fn tid(packet: &[u8]) -> (r: u16)
    requires
        packet@.len() >= 2,
    ensures
        r == tid_of(packet@),
{
    packet[0] as u16 * 256 + packet[1] as u16
}

/// Writing a transaction id and reading it back gives it again.
pub proof fn lemma_tid_round_trip(p: Seq<u8>, t: u16)
    requires
        p.len() >= 2,
    ensures
        tid_of(with_tid(p, t)) == t,
        with_tid(p, t).len() == p.len(),
{
}

/// Replaces the transaction id of a message.
pub fn set_tid(packet: &mut Vec<u8>, tid: u16)
    requires
        old(packet)@.len() >= 2,
    ensures
        final(packet)@ == with_tid(old(packet)@, tid),
{
    packet.set(0, (tid / 256) as u8);
    packet.set(1, (tid % 256) as u8);
}

/// The response code of a message.
pub open spec fn rcode_of(p: Seq<u8>) -> u8
    recommends
        p.len() >= 4,
{
    p[3] % 16
}

/// Reads the response code of a message.
pub fn rcode(packet: &[u8]) -> (r: u8)
    requires
        packet@.len() >= 4,
    ensures
        r == rcode_of(packet@),
{
    packet[3] % 16
}

/// Writes a query name over the one at the start of a message's question,
/// when the message has room for it.
pub fn overwrite_qname(packet: &mut Vec<u8>, qname: &Vec<u8>)
    ensures
        final(packet)@ == with_qname(old(packet)@, qname@),
{
    if qname.len() > packet.len() || packet.len() - qname.len() < DNS_HEADER_SIZE {
        return ;
    }
    let ghost p0 = packet@;
    let mut i: usize = 0;
    while i < qname.len()
        invariant
            DNS_HEADER_SIZE + qname@.len() <= p0.len(),
            packet@.len() == p0.len(),
            p0 == old(packet)@,
            p0.len() <= usize::MAX,
            i <= qname@.len(),
            forall|k: int|
                0 <= k < p0.len() ==> packet@[k] == if DNS_HEADER_SIZE <= k < DNS_HEADER_SIZE + i {
                    qname@[k - DNS_HEADER_SIZE]
                } else {
                    p0[k]
                },
        decreases qname@.len() - i,
    {
        packet.set(DNS_HEADER_SIZE + i, qname[i]);
        i = i + 1;
    }
    assert(packet@ =~= with_qname(p0, qname@));
}

/// Appends the two bytes of a 16-bit value.
fn push_u16(out: &mut Vec<u8>, x: u16)
    ensures
        final(out)@ == old(out)@ + be16(x),
{
    out.push((x / 256) as u8);
    out.push((x % 256) as u8);
    assert(final(out)@ =~= old(out)@ + be16(x));
}

/// Appends bytes.
fn push_bytes(out: &mut Vec<u8>, b: &Vec<u8>)
    ensures
        final(out)@ == old(out)@ + b@,
{
    let ghost o = out@;
    let mut i: usize = 0;
    while i < b.len()
        invariant
            i <= b@.len(),
            out@ == o + b@.subrange(0, i as int),
        decreases b@.len() - i,
    {
        out.push(b[i]);
        i = i + 1;
        assert(out@ =~= o + b@.subrange(0, i as int));
    }
    assert(b@.subrange(0, b@.len() as int) =~= b@);
}

fn push_header(out: &mut Vec<u8>, tid: u16, flags: u16, arcount: u16)
    ensures
        final(out)@ == old(out)@ + header(tid, flags, arcount),
{
    push_u16(out, tid);
    push_u16(out, flags);
    push_u16(out, 1);
    push_u16(out, 0);
    push_u16(out, 0);
    push_u16(out, arcount);
    assert(out@ =~= old(out)@ + header(tid, flags, arcount));
}

fn push_question(out: &mut Vec<u8>, q: &NormalizedQuestion)
    ensures
        final(out)@ == old(out)@ + question_section(q.qname@, q.qtype, q.qclass),
{
    push_bytes(out, &q.qname);
    push_u16(out, q.qtype);
    push_u16(out, q.qclass);
    assert(out@ =~= old(out)@ + question_section(q.qname@, q.qtype, q.qclass));
}

fn build_stub(q: &NormalizedQuestion, flags: u16) -> (r: Vec<u8>)
    ensures
        r@ == stub_answer(*q, flags),
{
    let mut out: Vec<u8> = Vec::new();
    push_header(&mut out, q.tid, flags, 0);
    push_question(&mut out, q);
    assert(out@ =~= stub_answer(*q, flags));
    out
}

/// An empty answer to a question with the truncation flag set, which sends
/// a UDP client over to TCP.
pub fn build_tc_packet(q: &NormalizedQuestion) -> (r: Vec<u8>)
    ensures
        r@ == stub_answer(*q, TC_FLAGS),
{
    build_stub(q, TC_FLAGS)
}

/// An empty SERVFAIL answer to a question.
pub fn build_servfail_packet(q: &NormalizedQuestion) -> (r: Vec<u8>)
    ensures
        r@ == stub_answer(*q, SERVFAIL_FLAGS),
{
    build_stub(q, SERVFAIL_FLAGS)
}

/// The query to send upstream for a question, under transaction id `tid`.
pub fn build_query_packet(q: &NormalizedQuestion, tid: u16) -> (r: Vec<u8>)
    ensures
        r@ == query_packet(*q, tid),
{
    let mut out: Vec<u8> = Vec::new();
    if q.dnssec {
        push_header(&mut out, tid, QUERY_FLAGS, 1);
        push_question(&mut out, q);
        let opt: Vec<u8> = vec![0u8, 0u8, 41u8, 16u8, 0u8, 0u8, 0u8, 128u8, 0u8, 0u8, 0u8];
        push_bytes(&mut out, &opt);
        assert(opt@ =~= opt_do_record());
    } else {
        push_header(&mut out, tid, QUERY_FLAGS, 0);
        push_question(&mut out, q);
    }
    assert(out@ =~= query_packet(*q, tid));
    out
}

impl NormalizedQuestion {
    /// The deduplication key of this question.
    pub open spec fn key_spec(&self) -> Seq<u8> {
        key_of(self.qname@, self.qtype, self.qclass, self.dnssec)
    }

    /// Computes the deduplication key of this question.
    pub fn key(&self) -> (r: Vec<u8>)
        ensures
            r@ == self.key_spec(),
    {
        let mut out: Vec<u8> = Vec::new();
        let mut i: usize = 0;
        while i < self.qname.len()
            invariant
                i <= self.qname@.len(),
                out@ == lower_name(self.qname@.subrange(0, i as int)),
            decreases self.qname@.len() - i,
        {
            let b = self.qname[i];
            let l: u8 = if 65 <= b && b <= 90 {
                b + 32
            } else {
                b
            };
            out.push(l);
            i = i + 1;
            assert(out@ =~= lower_name(self.qname@.subrange(0, i as int)));
        }
        assert(self.qname@.subrange(0, self.qname@.len() as int) =~= self.qname@);
        push_u16(&mut out, self.qtype);
        push_u16(&mut out, self.qclass);
        out.push(if self.dnssec { 1u8 } else { 0u8 });
        assert(out@ =~= self.key_spec());
        out
    }
}

/// Two byte strings are equal.
pub fn bytes_eq(a: &Vec<u8>, b: &Vec<u8>) -> (r: bool)
    ensures
        r == (a@ == b@),
{
    if a.len() != b.len() {
        return false;
    }
    let mut i: usize = 0;
    while i < a.len()
        invariant
            a@.len() == b@.len(),
            i <= a@.len(),
            forall|k: int| 0 <= k < i ==> a@[k] == b@[k],
        decreases a@.len() - i,
    {
        if a[i] != b[i] {
            return false;
        }
        i = i + 1;
    }
    assert(a@ =~= b@);
    true
}

} // verus!
