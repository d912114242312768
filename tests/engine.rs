use edgedns::cache::{cache_ttl, Cache, CacheError};
use edgedns::codec::{min_ttl, normalize, set_ttl, DecodeError};
use edgedns::pending::{ClientQuery, ClientQueryProtocol};
use edgedns::reply::Action;
use edgedns::resolver::{
    verify_active_query, Config, MismatchError, Resolver, SetupError, TimeoutToken, RPDNS,
};
use edgedns::upstream::{pick_from_hash, UpstreamPool};
use edgedns::wire::{
    build_query_packet, build_servfail_packet, overwrite_qname, rcode, set_tid, tid,
    NormalizedQuestion,
};
use edgedns::{FAILURE_TTL, MAX_CLIENTS_WAITING_FOR_QUERY};

fn wire_name(name: &str) -> Vec<u8> {
    let mut out = Vec::new();
    for label in name.split('.') {
        if label.is_empty() {
            continue;
        }
        out.push(label.len() as u8);
        out.extend_from_slice(label.as_bytes());
    }
    out.push(0);
    out
}

fn question(name: &str, tid: u16) -> NormalizedQuestion {
    NormalizedQuestion {
        qname: wire_name(name),
        qtype: 1,
        qclass: 1,
        tid,
        payload_size: 4096,
        dnssec: false,
    }
}

fn udp_client(name: &str, tid: u16, client: u64, ts: u64) -> ClientQuery {
    ClientQuery {
        proto: ClientQueryProtocol::Udp,
        normalized_question: question(name, tid),
        ts,
        client,
    }
}

fn config(servers: usize) -> Config {
    let mut upstream_servers = Vec::new();
    for i in 0..servers {
        upstream_servers.push(format!("192.0.2.{}:53", i + 1));
    }
    Config {
        upstream_servers,
        min_ttl: 60,
        max_ttl: 86400,
        upstream_max_failures: 3,
        failover: false,
        decrement_ttl: false,
        cache_size: 1000,
        listen_addr: "127.0.0.1:53".to_string(),
    }
}

fn engine(servers: usize) -> Resolver {
    RPDNS::new(config(servers), 4).unwrap().resolver
}

/// An answer to `name A` with one A record under `ttl`.
fn answer(query: &[u8], ttl: u32) -> Vec<u8> {
    let mut p = query.to_vec();
    p[2] = 0x81;
    p[3] = 0x80;
    p[6] = 0;
    p[7] = 1;
    p[10] = 0;
    p[11] = 0;
    let qname_end = 12 + query[12..].iter().position(|&b| b == 0).unwrap() + 1;
    p.truncate(qname_end + 4);
    p.extend_from_slice(&[0xc0, 0x0c, 0, 1, 0, 1]);
    p.extend_from_slice(&ttl.to_be_bytes());
    p.extend_from_slice(&[0, 4, 93, 184, 216, 34]);
    p
}

fn sends(acts: &[Action]) -> Vec<(usize, usize, Vec<u8>)> {
    acts.iter()
        .filter_map(|a| match a {
            Action::SendUpstream { socket, server, packet } => Some((*socket, *server, packet.clone())),
            _ => None,
        })
        .collect()
}

fn replies(acts: &[Action]) -> Vec<(u64, Vec<u8>)> {
    acts.iter()
        .filter_map(|a| match a {
            Action::Reply { response, .. } => Some((response.client_tok, response.response.clone())),
            _ => None,
        })
        .collect()
}

#[test]
fn duplicate_question_makes_one_round_trip() {
    let mut r = engine(2);
    let a1 = r.notify_with(udp_client("example.com", 0x1111, 1, 0), 0, 1, 0xbeef);
    let s1 = sends(&a1);
    assert_eq!(s1.len(), 1);
    let a2 = r.notify_with(udp_client("EXAMPLE.com", 0x2222, 2, 10), 10, 2, 0xcafe);
    assert!(sends(&a2).is_empty());
    assert_eq!(r.pending.len(), 1);
    assert_eq!(r.pending[0].client_queries.len(), 2);
    assert_eq!(r.waiting_clients_count, 2);
    let (socket, server, query) = &s1[0];
    assert_eq!(tid(query), 0xbeef);
    let resp = answer(query, 300);
    let out = r.ready(resp.clone(), Some(*server), *socket, 20);
    let rs = replies(&out);
    assert_eq!(rs.len(), 2);
    assert_eq!(rs[0].0, 1);
    assert_eq!(tid(&rs[0].1), 0x1111);
    assert_eq!(&rs[0].1[12..25], &wire_name("example.com")[..]);
    assert_eq!(rs[1].0, 2);
    assert_eq!(tid(&rs[1].1), 0x2222);
    assert_eq!(&rs[1].1[12..25], &wire_name("EXAMPLE.com")[..]);
    assert_eq!(&rs[0].1[25..], &resp[25..]);
    assert_eq!(&rs[1].1[25..], &resp[25..]);
    assert!(matches!(out.last(), Some(Action::CancelTimeout { .. })));
    assert!(r.pending.is_empty());
    assert_eq!(r.waiting_clients_count, 0);
}

#[test]
fn mismatched_response_is_discarded() {
    let mut r = engine(2);
    let a = r.notify_with(udp_client("example.com", 7, 1, 0), 0, 1, 0x4242);
    let (socket, server, query) = sends(&a)[0].clone();
    let resp = answer(&query, 300);
    let mut wrong_tid = resp.clone();
    set_tid(&mut wrong_tid, 0x4243);
    assert!(r.ready(wrong_tid, Some(server), socket, 5).is_empty());
    assert!(r.ready(resp.clone(), Some(1 - server), socket, 5).is_empty());
    assert!(r.ready(resp.clone(), None, socket, 5).is_empty());
    assert!(r.ready(resp.clone(), Some(server), socket + 1, 5).is_empty());
    assert_eq!(r.pending.len(), 1);
    assert_eq!(r.pending[0].upstream_tid, 0x4242);
    assert!(r.cache.get(&question("example.com", 0).key()).is_none());
    assert_eq!(replies(&r.ready(resp, Some(server), socket, 5)).len(), 1);
}

#[test]
fn ttl_is_clamped() {
    assert_eq!(cache_ttl(10, false, 60, 3600), 60);
    assert_eq!(cache_ttl(7200, false, 60, 3600), 3600);
    assert_eq!(cache_ttl(300, false, 60, 3600), 300);
    assert_eq!(cache_ttl(300, true, 60, 3600), FAILURE_TTL);
    assert_eq!(cache_ttl(5, true, 60, 3600), FAILURE_TTL);
}

#[test]
fn response_is_cached_under_clamped_ttl() {
    let mut r = engine(1);
    let a = r.notify_with(udp_client("example.com", 7, 1, 1000), 1000, 0, 9);
    let (socket, server, query) = sends(&a)[0].clone();
    r.ready(answer(&query, 5), Some(server), socket, 1000);
    let e = r.cache.get(&question("example.com", 0).key()).unwrap();
    assert_eq!(e.expires_ms, 1000 + 60 * 1000);
}

#[test]
fn servfail_is_cached_under_failure_ttl() {
    let mut r = engine(1);
    let a = r.notify_with(udp_client("example.com", 7, 1, 0), 0, 0, 9);
    let (socket, server, query) = sends(&a)[0].clone();
    let mut resp = answer(&query, 300);
    resp[3] = 0x82;
    assert_eq!(rcode(&resp), 2);
    r.ready(resp, Some(server), socket, 0);
    let e = r.cache.get(&question("example.com", 0).key()).unwrap();
    assert_eq!(e.expires_ms, FAILURE_TTL as u64 * 1000);
}

#[test]
fn timeout_after_completion_is_harmless() {
    let mut r = engine(1);
    let key = question("example.com", 0).key();
    assert!(r.timeout(TimeoutToken::Key(key.clone()), 0).is_empty());
    let a = r.notify_with(udp_client("example.com", 7, 1, 0), 0, 0, 9);
    let (socket, server, query) = sends(&a)[0].clone();
    r.ready(answer(&query, 300), Some(server), socket, 0);
    assert!(r.timeout(TimeoutToken::Key(key.clone()), 10).is_empty());
    assert!(r.timeout_question(&key, 20).is_empty());
    assert!(r.pending.is_empty());
    assert_eq!(r.waiting_clients_count, 0);
}

#[test]
fn timeout_answers_servfail_without_cache() {
    let mut r = engine(1);
    let q = question("example.com", 77);
    r.notify_with(udp_client("example.com", 77, 5, 0), 0, 0, 9);
    let out = r.timeout(TimeoutToken::Key(q.key()), 9000);
    let rs = replies(&out);
    assert_eq!(rs.len(), 1);
    assert_eq!(rs[0].1, build_servfail_packet(&q));
    assert_eq!(rcode(&rs[0].1), 2);
    assert!(r.pending.is_empty());
}

#[test]
fn hash_pick_is_deterministic_and_retry_moves_on() {
    let pool = UpstreamPool::new(3);
    let name = wire_name("example.com");
    let first = pool.pick_upstream(&name, None, false).unwrap();
    assert_eq!(pool.pick_upstream(&name, None, false).unwrap(), first);
    let retry = pool.pick_upstream(&name, Some(first), false).unwrap();
    assert_ne!(retry, first);
    assert_eq!(retry, (first + 1) % 3);
    let second_retry = pool.pick_upstream(&name, Some(retry), false).unwrap();
    assert_ne!(second_retry, retry);
    assert_eq!(second_retry, (retry + 1) % 3);
    assert_eq!(pool.pick_upstream(&name, Some(0), true).unwrap(), 0);
    assert_eq!(pick_from_hash(0, 3, false), 0);
    assert_eq!(pick_from_hash(u64::MAX, 3, false), 2);
    assert_eq!(pick_from_hash(u64::MAX, 3, true), 0);
    assert_eq!(pick_from_hash(u64::MAX / 2, 4, false), 2);
    assert_eq!(pick_from_hash(u64::MAX / 4, 4, false), 1);
}

#[test]
fn no_live_server_fails_pick() {
    let mut pool = UpstreamPool::new(1);
    for _ in 0..3 {
        assert!(!pool.record_timeout(0, 3));
    }
    assert_eq!(pool.servers[0].failures, 3);
    assert!(pool.record_timeout(0, 3));
    assert!(pool.servers[0].offline);
    assert!(pool.live.is_empty());
    assert!(pool.pick_upstream(&wire_name("a.b"), None, false).is_err());
    pool.record_response(0);
    assert!(!pool.servers[0].offline);
    assert_eq!(pool.servers[0].failures, 0);
    assert_eq!(pool.live, vec![0]);
}

#[test]
fn health_check_revives_all_offline_servers() {
    let mut r = engine(3);
    for i in 0..3 {
        for _ in 0..4 {
            r.pool.record_timeout(i, 3);
        }
    }
    assert!(r.pool.live.is_empty());
    let out = r.timeout(TimeoutToken::HealthCheck, 0);
    assert_eq!(out.len(), 1);
    assert!(matches!(out[0], Action::ArmHealthCheck { ms: 10000 }));
    assert_eq!(r.pool.live, vec![0, 1, 2]);
    for s in &r.pool.servers {
        assert_eq!(s.failures, 0);
        assert!(!s.offline);
    }
}

#[test]
fn health_check_probes_offline_servers() {
    let mut r = engine(3);
    for _ in 0..4 {
        r.pool.record_timeout(1, 3);
    }
    let out = r.timeout_health_check_with(5);
    let s = sends(&out);
    assert_eq!(s.len(), 1);
    assert_eq!(s[0].1, 1);
    assert!(s[0].0 < 4);
    assert_eq!(s[0].2, build_query_packet(&Resolver::health_question(), 5));
    assert_eq!(r.pool.live, vec![0, 2]);
}

#[test]
fn waiter_ceiling_turns_away_newest() {
    let mut r = engine(1);
    for i in 0..(MAX_CLIENTS_WAITING_FOR_QUERY as u64 + 1) {
        r.notify_with(udp_client("example.com", i as u16, i, 0), 0, 0, 1);
    }
    assert_eq!(r.pending.len(), 1);
    let cs = &r.pending[0].client_queries;
    assert_eq!(cs.len(), MAX_CLIENTS_WAITING_FOR_QUERY);
    assert_eq!(cs[0].client, 0);
    assert_eq!(cs[cs.len() - 1].client, MAX_CLIENTS_WAITING_FOR_QUERY as u64 - 1);
    assert_eq!(r.waiting_clients_count, MAX_CLIENTS_WAITING_FOR_QUERY);
}

#[test]
fn end_to_end_cache_serves_until_ttl_elapses() {
    let mut r = engine(1);
    let a = r.notify_with(udp_client("example.com", 1, 1, 0), 0, 0, 0x1234);
    let s = sends(&a);
    assert_eq!(s.len(), 1);
    let (socket, server, query) = s[0].clone();
    let resp = answer(&query, 300);
    assert_eq!(min_ttl(&resp), Ok(300));
    assert_eq!(replies(&r.ready(resp.clone(), Some(server), socket, 0)).len(), 1);
    let later = r.notify_with(udp_client("example.com", 2, 2, 299_000), 299_000, 0, 0x5678);
    assert!(sends(&later).is_empty());
    let rs = replies(&later);
    assert_eq!(rs.len(), 1);
    assert_eq!(tid(&rs[0].1), 2);
    assert_eq!(&rs[0].1[2..], &resp[2..]);
    let expired = r.notify_with(udp_client("example.com", 3, 3, 300_000), 300_000, 0, 0x9abc);
    assert_eq!(sends(&expired).len(), 1);
}

#[test]
fn retry_after_delay_escalates() {
    let mut r = engine(2);
    let a = r.notify_with(udp_client("example.com", 1, 1, 0), 0, 0, 10);
    let first = sends(&a)[0].1;
    let b = r.notify_with(udp_client("example.com", 2, 2, 1500), 1500, 1, 11);
    let s = sends(&b);
    assert_eq!(s.len(), 1);
    assert_ne!(s[0].1, first);
    assert_eq!(r.pending[0].delay, 2000);
    assert_eq!(r.pending[0].upstream_tid, 11);
    assert_eq!(r.pool.servers[first].failures, 1);
}

#[test]
fn large_answer_is_truncated_for_udp() {
    let mut r = engine(1);
    let mut c = udp_client("example.com", 1, 1, 0);
    c.normalized_question.payload_size = 20;
    let a = r.notify_with(c, 0, 0, 3);
    let (socket, server, query) = sends(&a)[0].clone();
    let rs = replies(&r.ready(answer(&query, 300), Some(server), socket, 0));
    assert_eq!(rs.len(), 1);
    assert_eq!(rs[0].1[2] & 0x02, 0x02);
    assert_eq!(rs[0].1.len(), 12 + 13 + 4);
}

#[test]
fn wire_helpers() {
    let mut p = vec![0u8; 30];
    set_tid(&mut p, 0xabcd);
    assert_eq!(p[0], 0xab);
    assert_eq!(p[1], 0xcd);
    assert_eq!(tid(&p), 0xabcd);
    let name = wire_name("ExAmple.com");
    overwrite_qname(&mut p, &name);
    assert_eq!(&p[12..25], &name[..]);
    let mut short = vec![0u8; 14];
    overwrite_qname(&mut short, &name);
    assert_eq!(short, vec![0u8; 14]);
    let k1 = question("ExAmple.COM", 1).key();
    let k2 = question("example.com", 2).key();
    assert_eq!(k1, k2);
    let mut q3 = question("example.com", 2);
    q3.dnssec = true;
    assert_ne!(q3.key(), k2);
}

#[test]
fn decoding_questions() {
    let q = question("example.com", 0x0102);
    let packet = build_query_packet(&q, 0x0102);
    let back = normalize(&packet, false).unwrap();
    assert_eq!(back.qname, q.qname);
    assert_eq!(back.qtype, 1);
    assert_eq!(back.tid, 0x0102);
    assert_eq!(back.payload_size, 512);
    assert!(!back.dnssec);
    let mut q2 = question("example.com", 1);
    q2.dnssec = true;
    let back2 = normalize(&build_query_packet(&q2, 1), false).unwrap();
    assert!(back2.dnssec);
    assert_eq!(back2.payload_size, 4096);
    assert_eq!(normalize(&packet, true).err(), Some(DecodeError::Direction));
    assert_eq!(normalize(&packet[..10].to_vec(), false).err(), Some(DecodeError::Truncated));
    assert_eq!(normalize(&packet[..20].to_vec(), false).err(), Some(DecodeError::BadName));
    let mut two = packet.clone();
    two[5] = 2;
    assert_eq!(normalize(&two, false).err(), Some(DecodeError::QuestionCount));
    assert_eq!(min_ttl(&packet[..20].to_vec()), Err(DecodeError::Truncated));
}

#[test]
fn setup_errors() {
    assert!(matches!(Cache::new(2), Err(CacheError::CapacityTooSmall)));
    assert!(Cache::new(3).is_ok());
    let mut c = config(1);
    c.cache_size = 2;
    assert!(matches!(RPDNS::new(c, 1), Err(SetupError::CacheSize)));
    assert!(matches!(RPDNS::new(config(1), 0), Err(SetupError::NoLocalSocket)));
}

#[test]
fn no_upstream_drops_client() {
    let mut r = engine(0);
    let a = r.notify(udp_client("example.com", 1, 1, 0), 0);
    assert!(a.is_empty());
    assert!(r.pending.is_empty());
}

#[test]
fn set_ttl_rewrites_record_ttls() {
    let q = question("example.com", 1);
    let mut resp = answer(&build_query_packet(&q, 1), 300);
    assert_eq!(min_ttl(&resp), Ok(300));
    set_ttl(&mut resp, 60);
    assert_eq!(min_ttl(&resp), Ok(60));
    let mut short = vec![1u8, 2, 3];
    set_ttl(&mut short, 60);
    assert_eq!(short, vec![1u8, 2, 3]);
}

#[test]
fn servfail_is_served_under_failure_ttl() {
    let mut r = engine(1);
    let a = r.notify_with(udp_client("example.com", 7, 1, 0), 0, 0, 9);
    let (socket, server, query) = sends(&a)[0].clone();
    let mut resp = answer(&query, 300);
    resp[3] = 0x82;
    let rs = replies(&r.ready(resp, Some(server), socket, 0));
    assert_eq!(rs.len(), 1);
    assert_eq!(min_ttl(&rs[0].1), Ok(FAILURE_TTL));
}

#[test]
fn short_ttl_is_served_as_minimum() {
    let mut r = engine(1);
    let a = r.notify_with(udp_client("example.com", 7, 1, 0), 0, 0, 9);
    let (socket, server, query) = sends(&a)[0].clone();
    let rs = replies(&r.ready(answer(&query, 5), Some(server), socket, 0));
    assert_eq!(min_ttl(&rs[0].1), Ok(60));
    let mut c = config(1);
    c.max_ttl = 100;
    let mut capped = RPDNS::new(c, 1).unwrap().resolver;
    let a = capped.notify_with(udp_client("example.com", 7, 1, 0), 0, 0, 9);
    let (socket, server, query) = sends(&a)[0].clone();
    let rs = replies(&capped.ready(answer(&query, 300), Some(server), socket, 0));
    assert_eq!(min_ttl(&rs[0].1), Ok(100));
    let a = capped.notify_with(udp_client("example.org", 7, 1, 0), 0, 0, 9);
    let (socket, server, query) = sends(&a)[0].clone();
    let rs = replies(&capped.ready(answer(&query, 90), Some(server), socket, 0));
    assert_eq!(min_ttl(&rs[0].1), Ok(90));
}

#[test]
fn decrement_ttl_serves_time_left() {
    let mut c = config(1);
    c.decrement_ttl = true;
    let mut r = RPDNS::new(c, 1).unwrap().resolver;
    let a = r.notify_with(udp_client("example.com", 7, 1, 0), 0, 0, 9);
    let (socket, server, query) = sends(&a)[0].clone();
    r.ready(answer(&query, 300), Some(server), socket, 0);
    let hit = r.notify_with(udp_client("example.com", 8, 2, 100_000), 100_000, 0, 10);
    assert!(sends(&hit).is_empty());
    assert_eq!(min_ttl(&replies(&hit)[0].1), Ok(200));
    let mut plain = engine(1);
    let a = plain.notify_with(udp_client("example.com", 7, 1, 0), 0, 0, 9);
    let (socket, server, query) = sends(&a)[0].clone();
    plain.ready(answer(&query, 300), Some(server), socket, 0);
    let hit = plain.notify_with(udp_client("example.com", 8, 2, 100_000), 100_000, 0, 10);
    assert_eq!(min_ttl(&replies(&hit)[0].1), Ok(300));
}

#[test]
fn startup_arms_first_health_check() {
    let rpdns = RPDNS::new(config(2), 3).unwrap();
    assert_eq!(rpdns.startup.len(), 1);
    assert!(matches!(rpdns.startup[0], Action::ArmHealthCheck { ms: 10000 }));
    assert_eq!(rpdns.resolver.pool.live, vec![0, 1]);
    assert_eq!(rpdns.resolver.waiting_clients_count, 0);
}

#[test]
fn second_retry_moves_on_again() {
    let mut r = engine(3);
    let a = r.notify_with(udp_client("example.com", 1, 1, 0), 0, 0, 10);
    let first = sends(&a)[0].1;
    let b = r.notify_with(udp_client("example.com", 2, 2, 1500), 1500, 1, 11);
    let second = sends(&b)[0].1;
    assert_ne!(second, first);
    let c = r.notify_with(udp_client("example.com", 3, 3, 3600), 3600, 2, 12);
    let third = sends(&c)[0].1;
    assert_ne!(third, second);
    assert_eq!(r.pending[0].delay, 4000);
}

#[test]
fn late_timeout_keeps_cache() {
    let mut r = engine(1);
    let key = question("example.com", 0).key();
    let a = r.notify_with(udp_client("example.com", 7, 1, 0), 0, 0, 9);
    let (socket, server, query) = sends(&a)[0].clone();
    let resp = answer(&query, 300);
    r.ready(resp.clone(), Some(server), socket, 0);
    assert!(r.timeout(TimeoutToken::Key(key.clone()), 10_000).is_empty());
    let e = r.cache.get(&key).unwrap();
    assert_eq!(e.packet, resp);
    assert_eq!(e.expires_ms, 300_000);
}

#[test]
fn cache_stats_count_inserts() {
    let mut r = engine(1);
    let s0 = r.cache.stats();
    assert_eq!(s0.inserted, 0);
    assert_eq!(s0.recent_len + s0.frequent_len, 0);
    let a = r.notify_with(udp_client("example.com", 7, 1, 0), 0, 0, 9);
    let (socket, server, query) = sends(&a)[0].clone();
    r.ready(answer(&query, 300), Some(server), socket, 0);
    let s1 = r.cache.stats();
    assert_eq!(s1.inserted, 1);
    assert_eq!(s1.recent_len + s1.frequent_len, 1);
    assert_eq!(s1.evicted, 0);
    assert_eq!(s1.test_len, 0);
}

#[test]
fn verify_active_query_reports_each_mismatch() {
    let mut r = engine(2);
    let a = r.notify_with(udp_client("example.com", 7, 1, 0), 0, 1, 0x4242);
    let (socket, server, query) = sends(&a)[0].clone();
    let aq = &r.pending[0];
    let resp = answer(&query, 300);
    assert_eq!(verify_active_query(aq, &resp, Some(server), socket), Ok(()));
    assert_eq!(verify_active_query(aq, &resp, Some(server), socket + 1), Err(MismatchError::UnexpectedPort));
    assert_eq!(verify_active_query(aq, &resp, None, socket), Err(MismatchError::UnexpectedPeer));
    assert_eq!(verify_active_query(aq, &vec![0x42u8], Some(server), socket), Err(MismatchError::UnexpectedTid));
    let mut other = resp.clone();
    set_tid(&mut other, 1);
    assert_eq!(verify_active_query(aq, &other, Some(server), socket), Err(MismatchError::UnexpectedTid));
}
