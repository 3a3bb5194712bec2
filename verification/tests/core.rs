use stream_core::catalog::load_errors;
use stream_core::checksum;
use stream_core::clients::{ClientManager, Transport};
use stream_core::config::StorageConfig;
use stream_core::errors::EngineError;
use stream_core::group::{compute_assignment, join_group, leave_group, Group};
use stream_core::message::Message;
use stream_core::partition::Partition;

fn test_config() -> StorageConfig {
    StorageConfig {
        max_size: 70,
        max_messages_count: 1,
        max_payload_size: 3,
        max_headers_size: 0,
        index_interval: 1,
    }
}

fn msg(id: u128, timestamp: u64, payload: Vec<u8>) -> Message {
    Message { id, timestamp, headers: Vec::new(), payload, checksum: 0 }
}

#[test]
fn catalog_has_every_code() {
    let entries = load_errors();
    assert_eq!(entries.len(), 128);
    assert!(entries.iter().any(|e| e.code == 4027));
    assert!(entries.iter().any(|e| e.snake_case_name == "segment_closed" && e.code == 4001));
    assert_eq!(entries[0].code, 1);
    assert_eq!(entries[0].template, "Error");
}

#[test]
fn checksum_is_deterministic() {
    let a = checksum::get(b"127.0.0.1:8080");
    let b = checksum::get(b"127.0.0.1:8080");
    assert_eq!(a, b);
    assert_ne!(checksum::get(b"x"), checksum::get(b"y"));
}

#[test]
fn transport_names() {
    assert_eq!(Transport::Tcp.as_str(), "TCP");
    assert_eq!(Transport::Quic.as_str(), "QUIC");
}

#[test]
fn segment_rollover_and_stitched_read() {
    // A segment caps at two messages; the third opens a new segment and a
    // read crosses the boundary.
    let mut p = Partition::create(0, test_config());
    for i in 0..3u64 {
        let batch = vec![msg(i as u128, 10 + i, vec![1, 2, 3])];
        let r = p.append(&batch).unwrap();
        assert_eq!(r, (i, i));
    }
    assert_eq!(p.next_offset, 3);
    assert_eq!(p.get_segments_count(), 2);
    assert!(p.segments[0].closed);
    assert_eq!(p.segments[0].start_offset, 0);
    assert_eq!(p.segments[1].start_offset, 2);
    assert!(!p.segments[1].closed);
    let out = p.read(0, 3).unwrap();
    assert_eq!(out.len(), 3);
    for i in 0..3usize {
        assert_eq!(out[i].id, i as u128);
        assert_eq!(out[i].payload, vec![1, 2, 3]);
    }
}

#[test]
fn corrupt_checksum_fails_read() {
    let mut p = Partition::create(0, test_config());
    for i in 0..3u64 {
        let batch = vec![msg(i as u128, 10 + i, vec![1, 2, 3])];
        p.append(&batch).unwrap();
    }
    let good = p.segments[0].messages[1].checksum;
    p.segments[0].messages[1].checksum = good ^ 1;
    match p.read(1, 1) {
        Err(EngineError::InvalidMessageChecksum { found, expected, offset }) => {
            assert_eq!(found, good ^ 1);
            assert_eq!(expected, good);
            assert_eq!(offset, 1);
        },
        other => panic!("unexpected result: {:?}", other),
    }
}

#[test]
fn invalid_batches_are_rejected() {
    let mut p = Partition::create(0, test_config());
    assert_eq!(p.append(&Vec::new()), Err(EngineError::InvalidMessagesCount));
    assert_eq!(
        p.append(&vec![msg(0, 0, Vec::new())]),
        Err(EngineError::EmptyMessagePayload)
    );
    assert_eq!(
        p.append(&vec![msg(0, 0, vec![1, 2, 3, 4])]),
        Err(EngineError::TooBigMessagePayload)
    );
    assert!(matches!(p.read(0, 1), Err(EngineError::SegmentNotFound)));
    assert_eq!(EngineError::SegmentNotFound.code(), 4000);
    assert_eq!(EngineError::InvalidOffset(9).code(), 4100);
}

#[test]
fn registry_add_join_leave() {
    let mut m = ClientManager::new();
    let id = m.add_client("127.0.0.1:9000", Transport::Tcp);
    let again = m.add_client("127.0.0.1:9000", Transport::Tcp);
    assert_eq!(id, again);
    assert_eq!(m.get_clients().len(), 1);
    assert_eq!(
        m.join_consumer_group(id.wrapping_add(1), 1, 1, 1),
        Err(EngineError::ClientNotFound(id.wrapping_add(1)))
    );
    assert_eq!(m.join_consumer_group(id, 1, 2, 3), Ok(()));
    assert_eq!(m.join_consumer_group(id, 1, 2, 3), Ok(()));
    assert_eq!(m.clients[0].consumer_groups.len(), 1);
    assert_eq!(m.leave_consumer_group(id, 1, 2, 3), Ok(()));
    assert_eq!(m.clients[0].consumer_groups.len(), 0);
    assert_eq!(m.leave_consumer_group(id, 1, 2, 3), Ok(()));
    let removed = m.delete_client("127.0.0.1:9000");
    assert!(removed.is_some());
    assert_eq!(m.get_clients().len(), 0);
    assert!(m.delete_client("127.0.0.1:9000").is_none());
}

#[test]
fn catalog_contents_are_fixed() {
    let entries = load_errors();
    // Codes strictly ascending, namespaced by magnitude, and never reused.
    for w in entries.windows(2) {
        assert!(w[0].code < w[1].code);
    }
    let names: std::collections::HashSet<&str> =
        entries.iter().map(|e| e.snake_case_name.as_str()).collect();
    assert_eq!(names.len(), entries.len());
    // Two calls return identical contents.
    let again = load_errors();
    for (a, b) in entries.iter().zip(again.iter()) {
        assert_eq!(a.snake_case_name, b.snake_case_name);
        assert_eq!(a.code, b.code);
        assert_eq!(a.template, b.template);
        assert_eq!(a.signature, b.signature);
        assert_eq!(a.converts_from, b.converts_from);
    }
    // Spot rows the engine's errors rely on.
    let row = |c: u32| entries.iter().find(|e| e.code == c).unwrap();
    assert_eq!(row(100).snake_case_name, "client_not_found");
    assert_eq!(row(4001).snake_case_name, "segment_closed");
    assert_eq!(row(4027).snake_case_name, "invalid_message_checksum");
    assert_eq!(
        row(4027).template,
        "Invalid message checksum: {0}, expected: {1}, for offset: {2}"
    );
    assert_eq!(row(4027).signature, "u32, u32, u64");
    assert_eq!(row(4100).snake_case_name, "invalid_offset");
    assert_eq!(row(5002).snake_case_name, "consumer_group_member_not_found");
    assert_eq!(row(52).converts_from, "reqwest::Error");
    // The original reuses this template for code 4021.
    assert_eq!(row(4021).template, "Cannot save messages to segment");
}

#[test]
fn registry_replaces_on_reconnect_and_keeps_others() {
    let mut m = ClientManager::new();
    let a = m.add_client("10.0.0.1:1", Transport::Tcp);
    let b = m.add_client("10.0.0.2:2", Transport::Quic);
    assert_ne!(a, b);
    m.join_consumer_group(a, 1, 1, 1).unwrap();
    // Reconnect of the first address replaces its record (membership reset)
    // and leaves the other record alone.
    let a2 = m.add_client("10.0.0.1:1", Transport::Tcp);
    assert_eq!(a, a2);
    assert_eq!(m.get_clients().len(), 2);
    let rec_a = m.clients.iter().find(|c| c.id == a).unwrap();
    assert!(rec_a.consumer_groups.is_empty());
    assert!(m.clients.iter().any(|c| c.id == b));
    // Delete returns the stored record and keeps the rest.
    let gone = m.delete_client("10.0.0.2:2").unwrap();
    assert_eq!(gone.id, b);
    assert_eq!(m.get_clients(), vec![a]);
}

#[test]
fn assignment_round_robin() {
    // Members [A, B] over partitions [0, 1, 2, 3]: 0:A, 1:B, 2:A, 3:B.
    let a: u32 = 11;
    let b: u32 = 22;
    let assignment = compute_assignment(&vec![a, b], &vec![0, 1, 2, 3]);
    assert_eq!(assignment, vec![(0, a), (1, b), (2, a), (3, b)]);
}

#[test]
fn group_join_leave_reassigns() {
    let a: u32 = 11;
    let b: u32 = 22;
    let mut g = Group::create(7, String::from("orders"), vec![0, 1, 2, 3]);
    assert!(g.assignment.is_empty());
    g.join(a);
    g.join(b);
    assert_eq!(g.members, vec![a, b]);
    assert_eq!(g.assignment, vec![(0, a), (1, b), (2, a), (3, b)]);
    // B leaves: everything goes to A.
    g.leave(b);
    assert_eq!(g.members, vec![a]);
    assert_eq!(g.assignment, vec![(0, a), (1, a), (2, a), (3, a)]);
}

#[test]
fn assignment_ignores_join_order() {
    let mut g1 = Group::create(1, String::from("g"), vec![0, 1, 2, 3]);
    let mut g2 = Group::create(1, String::from("g"), vec![0, 1, 2, 3]);
    g1.join(11);
    g1.join(22);
    g1.join(33);
    g1.leave(22);
    g2.join(33);
    g2.join(11);
    assert_eq!(g1.members, g2.members);
    assert_eq!(g1.assignment, g2.assignment);
}

#[test]
fn group_membership_is_idempotent() {
    let mut g = Group::create(7, String::from("orders"), vec![0, 1]);
    g.join(5);
    let members_once = g.members.clone();
    let assignment_once = g.assignment.clone();
    g.join(5);
    assert_eq!(g.members, members_once);
    assert_eq!(g.assignment, assignment_once);
    // Leaving a non-member is a no-op, not an error.
    g.leave(99);
    assert_eq!(g.members, members_once);
    assert_eq!(g.assignment, assignment_once);
}

#[test]
fn commit_offset_is_monotonic() {
    let mut g = Group::create(7, String::from("orders"), vec![0, 1]);
    assert_eq!(g.commit_offset(0, 5, 10), Ok(()));
    assert_eq!(g.committed_offsets[0], 5);
    // Past the partition's end.
    assert_eq!(g.commit_offset(0, 11, 10), Err(EngineError::InvalidOffset(11)));
    // Regression is rejected unless forced.
    assert_eq!(g.commit_offset(0, 3, 10), Err(EngineError::InvalidOffset(3)));
    assert_eq!(g.committed_offsets[0], 5);
    assert_eq!(g.force_commit_offset(0, 3, 10), Ok(()));
    assert_eq!(g.committed_offsets[0], 3);
    // Unknown partition.
    assert_eq!(g.commit_offset(9, 1, 10), Err(EngineError::PartitionNotFound(9)));
}

#[test]
fn session_join_delegates_to_group() {
    let mut m = ClientManager::new();
    let mut g = Group::create(4, String::from("orders"), vec![0, 1, 2, 3]);
    let a = m.add_client("10.0.0.1:1", Transport::Tcp);
    let b = m.add_client("10.0.0.2:2", Transport::Tcp);
    let (lo, hi) = if a < b { (a, b) } else { (b, a) };
    assert_eq!(join_group(&mut m, &mut g, a, 1, 2), Ok(()));
    assert_eq!(join_group(&mut m, &mut g, b, 1, 2), Ok(()));
    assert_eq!(g.assignment, vec![(0, lo), (1, hi), (2, lo), (3, hi)]);
    let mut unknown: u32 = 0;
    while unknown == a || unknown == b {
        unknown += 1;
    }
    assert_eq!(
        join_group(&mut m, &mut g, unknown, 1, 2),
        Err(EngineError::ClientNotFound(unknown))
    );
    assert_eq!(leave_group(&mut m, &mut g, hi, 1, 2), Ok(()));
    assert_eq!(g.assignment, vec![(0, lo), (1, lo), (2, lo), (3, lo)]);
}

#[test]
fn timestamp_lookup_finds_first_match() {
    let mut p = Partition::create(0, test_config());
    for (i, ts) in [10u64, 20, 30].iter().enumerate() {
        let batch = vec![msg(i as u128, *ts, vec![1, 2, 3])];
        p.append(&batch).unwrap();
    }
    let seg = &p.segments[0];
    assert_eq!(seg.lookup_by_timestamp(10), Some(0));
    assert_eq!(seg.lookup_by_timestamp(15), Some(1));
    assert_eq!(seg.lookup_by_timestamp(20), Some(1));
    assert_eq!(seg.lookup_by_timestamp(21), None);
    let seg2 = &p.segments[1];
    assert_eq!(seg2.lookup_by_timestamp(25), Some(2));
}
