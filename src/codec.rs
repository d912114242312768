//! Decoding of the parts of a DNS message that the engine reads: the
//! question, the records' TTLs and the OPT record's payload size and DNSSEC
//! flag.
use crate::wire::{NormalizedQuestion, DNS_HEADER_SIZE};
use vstd::prelude::*;

verus! {

/// Record type of the OPT pseudo-record.
pub const DNS_TYPE_OPT: u16 = 41;

/// Payload size assumed for a client without an OPT record.
pub const DNS_UDP_NOEDNS0_MAX_SIZE: u16 = 512;

/// Why a message could not be decoded.
#[derive(Clone, Copy, Debug, PartialEq, Eq, Structural)]
pub enum DecodeError {
    /// Too short, or a record runs past the end.
    Truncated,
    /// Not exactly one question.
    QuestionCount,
    /// A query where a response was expected, or the reverse.
    Direction,
    /// A malformed name.
    BadName,
}

/// The 16-bit big-endian value at `off`.
pub open spec fn u16_at(p: Seq<u8>, off: int) -> u16 {
    (p[off] as int * 256 + p[off + 1] as int) as u16
}

/// The 32-bit big-endian value at `off`.
pub open spec fn u32_at(p: Seq<u8>, off: int) -> u32 {
    (u16_at(p, off) as int * 65536 + u16_at(p, off + 2) as int) as u32
}

/// Where the name at `off` ends: labels of under 64 bytes up to an empty
/// one, or, when `ptr` allows it, up to a two-byte compression pointer.
pub open spec fn name_end(p: Seq<u8>, off: int, ptr: bool) -> Option<int>
    decreases p.len() - off,
{
    if off < 0 || off >= p.len() {
        None
    } else {
        let l = p[off] as int;
        if l == 0 {
            Some(off + 1)
        } else if l >= 192 {
            if ptr && off + 2 <= p.len() {
                Some(off + 2)
            } else {
                None
            }
        } else if l >= 64 {
            None
        } else if off + 1 + l >= p.len() {
            None
        } else {
            name_end(p, off + 1 + l, ptr)
        }
    }
}

/// Where the record at `off` ends, if it lies within the message.
pub open spec fn record_end(p: Seq<u8>, off: int) -> Option<int> {
    match name_end(p, off, true) {
        Some(n) => if n + 10 <= p.len() && n + 10 + u16_at(p, n + 8) <= p.len() {
            Some(n + 10 + u16_at(p, n + 8))
        } else {
            None
        },
        None => None,
    }
}

/// Where the fixed fields of the record at `off` start.
pub open spec fn record_fields(p: Seq<u8>, off: int) -> int {
    name_end(p, off, true)->Some_0
}

fn read_u16(p: &Vec<u8>, off: usize) -> (r: u16)
    requires
        off + 2 <= p@.len(),
    ensures
        r == u16_at(p@, off as int),
{
    let n = p.len();
    assert(n == p@.len());
    p[off] as u16 * 256 + p[off + 1] as u16
}

fn read_u32(p: &Vec<u8>, off: usize) -> (r: u32)
    requires
        off + 4 <= p@.len(),
    ensures
        r == u32_at(p@, off as int),
{
    let n = p.len();
    assert(n == p@.len());
    read_u16(p, off) as u32 * 65536 + read_u16(p, off + 2) as u32
}

/// Finds where the name at `off` ends.
pub fn skip_name(p: &Vec<u8>, off: usize, ptr: bool) -> (r: Option<usize>)
    ensures
        r is Some <==> name_end(p@, off as int, ptr) is Some,
        r is Some ==> r->Some_0 == name_end(p@, off as int, ptr)->Some_0,
        r is Some ==> off < r->Some_0 <= p@.len(),
{
    let mut o: usize = off;
    loop
        invariant
            off <= o,
            name_end(p@, o as int, ptr) == name_end(p@, off as int, ptr),
        decreases p@.len() - o,
    {
        if o >= p.len() {
            return None;
        }
        let l = p[o] as usize;
        if l == 0 {
            return Some(o + 1);
        } else if l >= 192 {
            if ptr && p.len() - o >= 2 {
                return Some(o + 2);
            } else {
                return None;
            }
        } else if l >= 64 {
            return None;
        } else if l >= p.len() - o - 1 {
            return None;
        }
        o = o + 1 + l;
    }
}

/// Finds where the fixed fields of the record at `off` start, and where the
/// record ends.
pub fn skip_record(p: &Vec<u8>, off: usize) -> (r: Option<(usize, usize)>)
    ensures
        r is Some <==> record_end(p@, off as int) is Some,
        r is Some ==> r->Some_0.1 == record_end(p@, off as int)->Some_0,
        r is Some ==> r->Some_0.0 == record_fields(p@, off as int),
        r is Some ==> off < r->Some_0.0 && r->Some_0.0 + 10 <= r->Some_0.1 <= p@.len(),
{
    let n = match skip_name(p, off, true) {
        None => return None,
        Some(n) => n,
    };
    if n > p.len() || p.len() - n < 10 {
        return None;
    }
    let rdlen = read_u16(p, n + 8) as usize;
    if rdlen > p.len() - n - 10 {
        return None;
    }
    Some((n, n + 10 + rdlen))
}

/// The smallest TTL of the `count` records from `off`, and where they end;
/// `None` when one does not lie within the message. With no record, the
/// TTL is `u32::MAX`.
pub open spec fn records_min_ttl(p: Seq<u8>, off: int, count: nat) -> Option<(int, u32)>
    decreases count,
{
    if count == 0 {
        Some((off, u32::MAX))
    } else {
        match record_end(p, off) {
            None => None,
            Some(e) => match records_min_ttl(p, e, (count - 1) as nat) {
                None => None,
                Some((end, m)) => {
                    let t = u32_at(p, record_fields(p, off) + 4);
                    Some((end, if t < m { t } else { m }))
                },
            },
        }
    }
}

/// The payload size and DNSSEC flag of the first OPT record among the
/// `count` records from `off`, if any; the records must lie within the
/// message.
pub open spec fn records_opt(p: Seq<u8>, off: int, count: nat) -> Option<(u16, bool)>
    decreases count,
{
    if count == 0 {
        None
    } else {
        match record_end(p, off) {
            None => None,
            Some(e) => {
                let f = record_fields(p, off);
                if u16_at(p, f) == DNS_TYPE_OPT {
                    Some((u16_at(p, f + 2), p[f + 6] >= 128))
                } else {
                    records_opt(p, e, (count - 1) as nat)
                }
            },
        }
    }
}

/// Computes the smallest TTL of the `count` records from `off`, and where
/// they end.
pub fn min_ttl_of_records(p: &Vec<u8>, start: usize, count: u32) -> (r: Option<(usize, u32)>)
    ensures
        r is Some <==> records_min_ttl(p@, start as int, count as nat) is Some,
        r is Some ==> r->Some_0.0 == records_min_ttl(p@, start as int, count as nat)->Some_0.0
            && r->Some_0.1 == records_min_ttl(p@, start as int, count as nat)->Some_0.1,
{
    let mut off: usize = start;
    let mut m: u32 = u32::MAX;
    let mut k: u32 = 0;
    while k < count
        invariant
            k <= count,
            records_min_ttl(p@, start as int, count as nat) == match records_min_ttl(
                p@,
                off as int,
                (count - k) as nat,
            ) {
                None => None,
                Some((end, m2)) => Some((end, if m < m2 { m } else { m2 })),
            },
        decreases count - k,
    {
        let (f, e) = match skip_record(p, off) {
            None => return None,
            Some(fe) => fe,
        };
        let t = read_u32(p, f + 4);
        if t < m {
            m = t;
        }
        off = e;
        k = k + 1;
    }
    Some((off, m))
}

/// Finds the payload size and DNSSEC flag of the first OPT record among the
/// `count` records from `off`.
pub fn opt_of_records(p: &Vec<u8>, start: usize, count: u32) -> (r: Option<(u16, bool)>)
    ensures
        r == records_opt(p@, start as int, count as nat),
{
    let mut off: usize = start;
    let mut k: u32 = 0;
    while k < count
        invariant
            k <= count,
            records_opt(p@, start as int, count as nat) == records_opt(
                p@,
                off as int,
                (count - k) as nat,
            ),
        decreases count - k,
    {
        let (f, e) = match skip_record(p, off) {
            None => return None,
            Some(fe) => fe,
        };
        if read_u16(p, f) == DNS_TYPE_OPT {
            return Some((read_u16(p, f + 2), p[f + 6] >= 128));
        }
        off = e;
        k = k + 1;
    }
    None
}

/// Where the question of a message ends: after its name, type and class.
pub open spec fn question_end(p: Seq<u8>) -> Option<int> {
    match name_end(p, DNS_HEADER_SIZE as int, false) {
        Some(e) => if e + 4 <= p.len() {
            Some(e + 4)
        } else {
            None
        },
        None => None,
    }
}

/// Why a message cannot be read as a query (or a response, when
/// `is_response`) with one question, if it cannot.
pub open spec fn decode_error(p: Seq<u8>, is_response: bool) -> Option<DecodeError> {
    if p.len() < DNS_HEADER_SIZE {
        Some(DecodeError::Truncated)
    } else if u16_at(p, 4) != 1 {
        Some(DecodeError::QuestionCount)
    } else if (p[2] >= 128) != is_response {
        Some(DecodeError::Direction)
    } else if name_end(p, DNS_HEADER_SIZE as int, false) is None {
        Some(DecodeError::BadName)
    } else if question_end(p) is None {
        Some(DecodeError::Truncated)
    } else {
        None
    }
}

/// The number of records after the question.
pub open spec fn record_count(p: Seq<u8>) -> nat {
    u16_at(p, 6) as nat + u16_at(p, 8) as nat + u16_at(p, 10) as nat
}

/// The payload size and DNSSEC flag that a message's OPT record gives; a
/// size under 512, or no OPT record, gives 512.
pub open spec fn edns_of(p: Seq<u8>, qend: int) -> (u16, bool) {
    match records_opt(p, qend, record_count(p)) {
        Some((size, dnssec)) => (if size < DNS_UDP_NOEDNS0_MAX_SIZE {
            DNS_UDP_NOEDNS0_MAX_SIZE
        } else {
            size
        }, dnssec),
        None => (DNS_UDP_NOEDNS0_MAX_SIZE, false),
    }
}

/// The question a well-formed message asks.
pub open spec fn question_of(p: Seq<u8>, q: NormalizedQuestion) -> bool {
    let e = question_end(p)->Some_0;
    &&& q.qname@ == p.subrange(DNS_HEADER_SIZE as int, e - 4)
    &&& q.qtype == u16_at(p, e - 4)
    &&& q.qclass == u16_at(p, e - 2)
    &&& q.tid == u16_at(p, 0)
    &&& (q.payload_size, q.dnssec) == edns_of(p, e)
}

/// Reads the question of a query (or, when `is_response`, of a response).
pub fn normalize(packet: &Vec<u8>, is_response: bool) -> (r: Result<NormalizedQuestion, DecodeError>)
    ensures
        r is Err <==> decode_error(packet@, is_response) is Some,
        r is Err ==> r->Err_0 == decode_error(packet@, is_response)->Some_0,
        r is Ok ==> question_of(packet@, r->Ok_0),
{
    if packet.len() < DNS_HEADER_SIZE {
        return Err(DecodeError::Truncated);
    }
    if read_u16(packet, 4) != 1 {
        return Err(DecodeError::QuestionCount);
    }
    if (packet[2] >= 128) != is_response {
        return Err(DecodeError::Direction);
    }
    let e = match skip_name(packet, DNS_HEADER_SIZE, false) {
        None => return Err(DecodeError::BadName),
        Some(e) => e,
    };
    if packet.len() - e < 4 {
        return Err(DecodeError::Truncated);
    }
    let mut qname: Vec<u8> = Vec::new();
    let mut i: usize = DNS_HEADER_SIZE;
    while i < e
        invariant
            DNS_HEADER_SIZE <= i <= e <= packet@.len(),
            qname@ == packet@.subrange(DNS_HEADER_SIZE as int, i as int),
        decreases e - i,
    {
        qname.push(packet[i]);
        i = i + 1;
        assert(qname@ =~= packet@.subrange(DNS_HEADER_SIZE as int, i as int));
    }
    let qtype = read_u16(packet, e);
    let qclass = read_u16(packet, e + 2);
    let count: u32 = read_u16(packet, 6) as u32 + read_u16(packet, 8) as u32 + read_u16(packet, 10) as u32;
    let (payload_size, dnssec) = match opt_of_records(packet, e + 4, count) {
        Some((size, d)) => (if size < DNS_UDP_NOEDNS0_MAX_SIZE {
            DNS_UDP_NOEDNS0_MAX_SIZE
        } else {
            size
        }, d),
        None => (DNS_UDP_NOEDNS0_MAX_SIZE, false),
    };
    Ok(NormalizedQuestion { qname, qtype, qclass, tid: read_u16(packet, 0), payload_size, dnssec })
}

/// The smallest TTL of a response's answer and authority records, if the
/// question and those records lie within the message.
pub open spec fn min_ttl_spec(p: Seq<u8>) -> Option<u32> {
    match question_end(p) {
        None => None,
        Some(e) => match records_min_ttl(p, e, u16_at(p, 6) as nat + u16_at(p, 8) as nat) {
            Some((_, m)) => Some(m),
            None => None,
        },
    }
}

/// Computes the smallest TTL of a response's answer and authority records.
pub fn min_ttl(packet: &Vec<u8>) -> (r: Result<u32, DecodeError>)
    ensures
        r is Ok <==> packet@.len() >= DNS_HEADER_SIZE && min_ttl_spec(packet@) is Some,
        r is Ok ==> r->Ok_0 == min_ttl_spec(packet@)->Some_0,
        r is Err ==> r->Err_0 == DecodeError::Truncated,
{
    if packet.len() < DNS_HEADER_SIZE {
        return Err(DecodeError::Truncated);
    }
    let e = match skip_name(packet, DNS_HEADER_SIZE, false) {
        None => return Err(DecodeError::Truncated),
        Some(e) => e,
    };
    if packet.len() - e < 4 {
        return Err(DecodeError::Truncated);
    }
    let count: u32 = read_u16(packet, 6) as u32 + read_u16(packet, 8) as u32;
    match min_ttl_of_records(packet, e + 4, count) {
        Some((_, m)) => Ok(m),
        None => Err(DecodeError::Truncated),
    }
}

/// A message with the 32-bit value at `off` replaced.
pub open spec fn with_u32_at(p: Seq<u8>, off: int, x: u32) -> Seq<u8> {
    p.update(off, (x / 16777216) as u8).update(off + 1, ((x / 65536) % 256) as u8).update(
        off + 2,
        ((x / 256) % 256) as u8,
    ).update(off + 3, (x % 256) as u8)
}

/// A message with the TTL of each of the `count` records from `off` set to
/// `ttl`, but for OPT records, whose TTL field holds flags; the rewriting
/// stops at a record that does not lie within the message.
pub open spec fn with_ttls(p: Seq<u8>, off: int, count: nat, ttl: u32) -> Seq<u8>
    decreases count,
{
    if count == 0 {
        p
    } else {
        match record_end(p, off) {
            None => p,
            Some(e) => {
                let f = record_fields(p, off);
                let p2 = if u16_at(p, f) == DNS_TYPE_OPT {
                    p
                } else {
                    with_u32_at(p, f + 4, ttl)
                };
                with_ttls(p2, e, (count - 1) as nat, ttl)
            },
        }
    }
}

/// A message with the TTL of every record but OPT records set to `ttl`,
/// when its question lies within it; else the message unchanged.
pub open spec fn set_ttl_spec(p: Seq<u8>, ttl: u32) -> Seq<u8> {
    if p.len() < DNS_HEADER_SIZE {
        p
    } else {
        match question_end(p) {
            None => p,
            Some(e) => with_ttls(p, e, record_count(p), ttl),
        }
    }
}

proof fn lemma_name_end_bounds(p: Seq<u8>, off: int, ptr: bool)
    ensures
        name_end(p, off, ptr) is Some ==> off < name_end(p, off, ptr)->Some_0 <= p.len()
            && off >= 0,
    decreases p.len() - off,
{
    if 0 <= off < p.len() {
        let l = p[off] as int;
        if 0 < l < 64 && off + 1 + l < p.len() {
            lemma_name_end_bounds(p, off + 1 + l, ptr);
        }
    }
}

proof fn lemma_with_ttls_len(p: Seq<u8>, off: int, count: nat, ttl: u32)
    ensures
        with_ttls(p, off, count, ttl).len() == p.len(),
    decreases count,
{
    if count > 0 {
        match record_end(p, off) {
            None => {},
            Some(e) => {
                let f = record_fields(p, off);
                lemma_name_end_bounds(p, off, true);
                assert(with_u32_at(p, f + 4, ttl).len() == p.len());
                let p2 = if u16_at(p, f) == DNS_TYPE_OPT {
                    p
                } else {
                    with_u32_at(p, f + 4, ttl)
                };
                lemma_with_ttls_len(p2, e, (count - 1) as nat, ttl);
            },
        }
    }
}

/// Setting TTLs keeps a message's length.
pub proof fn lemma_set_ttl_len(p: Seq<u8>, ttl: u32)
    ensures
        set_ttl_spec(p, ttl).len() == p.len(),
{
    if p.len() >= DNS_HEADER_SIZE {
        match question_end(p) {
            None => {},
            Some(e) => lemma_with_ttls_len(p, e, record_count(p), ttl),
        }
    }
}

fn write_u32(p: &mut Vec<u8>, off: usize, x: u32)
    requires
        off + 4 <= old(p)@.len(),
    ensures
        final(p)@ == with_u32_at(old(p)@, off as int, x),
{
    let n = p.len();
    assert(n == p@.len());
    p.set(off, (x / 16777216) as u8);
    p.set(off + 1, ((x / 65536) % 256) as u8);
    p.set(off + 2, ((x / 256) % 256) as u8);
    p.set(off + 3, (x % 256) as u8);
}

/// Sets the TTL of every record of a message but OPT records.
pub fn set_ttl(packet: &mut Vec<u8>, ttl: u32)
    ensures
        final(packet)@ == set_ttl_spec(old(packet)@, ttl),
{
    if packet.len() < DNS_HEADER_SIZE {
        return ;
    }
    let e = match skip_name(packet, DNS_HEADER_SIZE, false) {
        None => return ,
        Some(e) => e,
    };
    if packet.len() - e < 4 {
        return ;
    }
    let count: u32 = read_u16(packet, 6) as u32 + read_u16(packet, 8) as u32 + read_u16(packet, 10) as u32;
    let ghost p0 = packet@;
    assert(set_ttl_spec(p0, ttl) == with_ttls(p0, e + 4, count as nat, ttl));
    let mut off: usize = e + 4;
    let mut k: u32 = 0;
    while k < count
        invariant
            k <= count,
            packet@.len() == p0.len(),
            p0 == old(packet)@,
            set_ttl_spec(p0, ttl) == with_ttls(p0, e + 4, count as nat, ttl),
            with_ttls(p0, e + 4, count as nat, ttl) == with_ttls(
                packet@,
                off as int,
                (count - k) as nat,
                ttl,
            ),
        decreases count - k,
    {
        let (f, end) = match skip_record(packet, off) {
            None => {
                assert(with_ttls(packet@, off as int, (count - k) as nat, ttl) == packet@);
                return ;
            },
            Some(fe) => fe,
        };
        if read_u16(packet, f) != DNS_TYPE_OPT {
            write_u32(packet, f + 4, ttl);
        }
        off = end;
        k = k + 1;
    }
}

} // verus!
