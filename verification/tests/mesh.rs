//! Units on a mesh: what one sends, and what the other makes of it.

use unit::goals::{GoalStatus, TaskResult, TaskStatus};
use unit::mesh::message::{addr_to_pseudo_id, LOCALHOST};
use unit::mesh::{Addr, MeshNode, TrustLevel};

fn local(port: u16) -> Addr {
    Addr::V4 { ip: LOCALHOST, port }
}

fn pair() -> (MeshNode, MeshNode) {
    let mut a = MeshNode::start_with_id([1; 8], 4001, &[local(4002)], 0);
    let mut b = MeshNode::start_with_id([2; 8], 4002, &[local(4001)], 0);
    beat(&mut a, &mut b);
    beat(&mut b, &mut a);
    (a, b)
}

/// Delivers everything that one node has to send to the other.
fn deliver(from: &mut MeshNode, to: &mut MeshNode, now: u64) -> usize {
    let port = from.port;
    let mut n = 0;
    for p in from.take_outbox() {
        if p.to.port() == to.port {
            to.handle_packet(&p.bytes, &local(port), now);
            n += 1;
        }
    }
    n
}

fn beat(from: &mut MeshNode, to: &mut MeshNode) {
    from.send_heartbeat();
    deliver(from, to, 10);
}

#[test]
fn heartbeat_makes_its_sender_a_peer() {
    let mut a = MeshNode::start_with_id([1; 8], 4001, &[local(4002)], 0);
    let mut b = MeshNode::start_with_id([2; 8], 4002, &[local(4001)], 0);
    assert_eq!(b.peers.len(), 1);
    assert_eq!(b.peers[0].id, addr_to_pseudo_id(&local(4001)));
    a.set_load(7);
    a.set_fitness(33);
    beat(&mut a, &mut b);
    assert_eq!(b.peers.len(), 1);
    assert_eq!(b.peers[0].id, [1; 8]);
    assert_eq!(b.peers[0].load, 7);
    assert_eq!(b.peers[0].capacity, 100);
    assert_eq!(b.peers[0].fitness, 33);
    assert_eq!(b.event_log.last().unwrap(), "discovered peer 0101010101010101 @ 127.0.0.1:4001");
}

#[test]
fn own_packets_and_foreign_bytes_are_ignored() {
    let (mut a, _) = pair();
    let before = a.peers.len();
    a.send_heartbeat();
    let own = a.take_outbox().remove(0).bytes;
    a.handle_packet(&own, &local(4001), 20);
    a.handle_packet(&[1, 2, 3], &local(4009), 20);
    assert_eq!(a.peers.len(), before);
}

#[test]
fn gossip_introduces_strangers() {
    let mut a = MeshNode::start_with_id([1; 8], 4001, &[local(4002), local(4003)], 0);
    let mut b = MeshNode::start_with_id([2; 8], 4002, &[], 0);
    beat(&mut a, &mut b);
    assert!(b.peers.iter().any(|p| p.addr.port() == 4003));
    assert!(!b.peers.iter().any(|p| p.addr.port() == 4002));
}

#[test]
fn data_arrives_once_and_in_order() {
    let (mut a, mut b) = pair();
    a.send_data(b"first");
    a.send_data(b"second");
    deliver(&mut a, &mut b, 20);
    let m = b.recv_data().unwrap();
    assert_eq!(m.from, [1; 8]);
    assert_eq!(m.data, b"first".to_vec());
    assert_eq!(b.recv_data().unwrap().data, b"second".to_vec());
    assert!(b.recv_data().is_none());
}

#[test]
fn shared_word_waits_to_be_compiled() {
    let (mut a, mut b) = pair();
    a.share_word("SQUARE", ": SQUARE DUP * ;");
    deliver(&mut a, &mut b, 20);
    let words = b.recv_shared_words();
    assert_eq!(words.len(), 1);
    assert_eq!(words[0].name, "SQUARE");
    assert_eq!(words[0].body_source, ": SQUARE DUP * ;");
    assert_eq!(words[0].origin, [1; 8]);
    assert!(b.recv_shared_words().is_empty());
    assert_eq!(b.shared_words_list()[0].0, "SQUARE");
}

#[test]
fn goal_and_result_travel() {
    let (mut a, mut b) = pair();
    let g = a.create_goal("add", 5, Some("2 3 +".to_string()), 1000);
    deliver(&mut a, &mut b, 20);
    assert_eq!(b.goals.goals.len(), 1);
    assert_eq!(b.goals.goals[0].id, g);
    assert_eq!(b.goals.goals[0].code.as_deref(), Some("2 3 +"));
    let (task, goal, desc, code) = b.claim_executable_task().unwrap();
    assert_eq!(goal, g);
    assert_eq!(desc, "add");
    assert_eq!(code, "2 3 +");
    deliver(&mut b, &mut a, 30);
    assert!(matches!(a.goals.tasks[0].status, TaskStatus::Running));
    assert_eq!(a.goals.tasks[0].assigned_to, Some([2; 8]));
    b.complete_task_with_result(
        task,
        TaskResult { stack_snapshot: vec![5], output: String::new(), success: true, error: None },
    );
    deliver(&mut b, &mut a, 40);
    assert!(matches!(a.goals.tasks[0].status, TaskStatus::Done));
    assert_eq!(a.goals.tasks[0].result.as_ref().unwrap().stack_snapshot, vec![5]);
    assert!(matches!(a.goals.goals[0].status, GoalStatus::Completed));
}

#[test]
fn proposal_needs_a_majority() {
    let (mut a, mut b) = pair();
    assert!(a.propose_replicate("load", vec![9, 9], 100, 77).is_ok());
    assert_eq!(a.proposals.len(), 1);
    assert_eq!(a.propose_replicate("again", vec![], 100, 78).is_err(), true);
    deliver(&mut a, &mut b, 110);
    deliver(&mut b, &mut a, 120);
    a.check_proposals(130);
    assert!(a.proposals[0].committed);
    deliver(&mut a, &mut b, 140);
    let m = b.recv_data().unwrap();
    assert_eq!(m.data, vec![9, 9]);
}

#[test]
fn overloaded_peer_votes_no() {
    let (mut a, mut b) = pair();
    b.set_load(100);
    assert!(a.propose_replicate("load", vec![1], 100, 77).is_ok());
    deliver(&mut a, &mut b, 110);
    deliver(&mut b, &mut a, 120);
    a.check_proposals(130);
    assert!(a.proposals.is_empty());
    deliver(&mut a, &mut b, 140);
    assert!(b.recv_data().is_none());
}

#[test]
fn silent_peers_are_forgotten() {
    let (mut a, _) = pair();
    assert_eq!(a.peers.len(), 1);
    a.prune_peers(15_010);
    assert_eq!(a.peers.len(), 1);
    a.prune_peers(15_011);
    assert_eq!(a.peers.len(), 0);
    assert_eq!(a.event_log.last().unwrap(), "peer 0202020202020202 timed out");
}

#[test]
fn events_are_bounded() {
    let (mut a, _) = pair();
    for i in 0..40 {
        a.log_event(format!("event {}", i));
    }
    assert_eq!(a.event_log.len(), 20);
    assert_eq!(a.event_log[19], "event 39");
    let taken = a.drain_recent_events();
    assert_eq!(taken[0], "event 39");
    assert!(a.event_log.is_empty());
}

#[test]
fn beacon_is_heard_on_the_same_machine_only_from_others() {
    let (mut a, mut b) = pair();
    a.peers.clear();
    b.send_discovery_beacon();
    let beacon = b.take_outbox().remove(0).bytes;
    a.handle_beacon(&beacon, LOCALHOST, 50);
    assert_eq!(a.peers.len(), 1);
    assert_eq!(a.peers[0].id, [2; 8]);
    b.peers.clear();
    b.handle_beacon(&beacon, LOCALHOST, 50);
    assert!(b.peers.is_empty());
}

#[test]
fn requests_are_accepted_denied_and_limited() {
    let (mut a, _) = pair();
    for i in 0..3 {
        a.queue_request([9; 8], 10, i, 100, "more".to_string(), 0);
    }
    assert_eq!(a.pending_requests.len(), 3);
    let (peer, id) = a.accept_oldest(1_000).unwrap();
    assert_eq!(peer, [9; 8]);
    assert_eq!(id, 1);
    assert_eq!(a.deny_oldest(1_000), Some(2));
    assert_eq!(a.deny_all_requests(1_000), 1);
    assert!(a.accept_oldest(1_000).is_none());
    assert!(a.deny_oldest(1_000).is_none());
    assert_eq!(a.replication_log.len(), 3);
    assert_eq!(a.replication_log[0].result, "accepted");
    assert_eq!(a.replication_log[1].result, "denied");
}

#[test]
fn trust_decides_who_is_accepted_unasked() {
    let (mut a, _) = pair();
    assert!(a.should_auto_accept(&[7; 8]));
    a.set_trust_level(TrustLevel::Mesh);
    assert!(a.should_auto_accept(&[2; 8]));
    assert!(!a.should_auto_accept(&[7; 8]));
    a.set_trust_level(TrustLevel::Family);
    assert!(!a.should_auto_accept(&[2; 8]));
    a.parent_id = Some([2; 8]);
    assert!(a.should_auto_accept(&[2; 8]));
    assert!(!a.should_auto_accept(&[3; 8]));
    a.children_ids.push([3; 8]);
    assert!(a.should_auto_accept(&[3; 8]));
    assert!(!a.should_auto_accept(&[4; 8]));
    a.add_sibling([4; 8]);
    a.add_sibling([4; 8]);
    assert_eq!(a.sibling_ids, vec![[4; 8]]);
    assert!(a.should_auto_accept(&[4; 8]));
    assert!(!a.should_auto_accept(&[5; 8]));
    a.set_trust_level(TrustLevel::Nobody);
    assert!(!a.should_auto_accept(&[2; 8]));
    assert_eq!(a.trust_level().label(), "none");
    assert_eq!(a.trust_level().as_val(), 3);
}

#[test]
fn invalid_text_on_the_wire_is_replaced() {
    let (mut a, mut b) = pair();
    a.share_word("ABCD", "x");
    let mut bytes = a.take_outbox().remove(0).bytes;
    let at = bytes.windows(4).position(|w| w == b"ABCD").unwrap();
    bytes[at + 1] = 0xFF;
    b.handle_packet(&bytes, &local(4001), 20);
    assert_eq!(b.recv_shared_words()[0].name, "A\u{FFFD}CD");
}

#[test]
fn addresses_as_text() {
    assert_eq!(local(80).to_text(), "127.0.0.1:80");
    assert_eq!(Addr::V4 { ip: 0x0A000102, port: 65535 }.to_text(), "10.0.1.2:65535");
    let six = Addr::V6 { name: "::1".to_string(), port: 9 };
    assert_eq!(six.port(), 9);
    assert_eq!(six.to_text(), "[::1]:9");
    assert_eq!(six.with_port(10).to_text(), "[::1]:10");
}

#[test]
fn requests_expire() {
    let mut a = MeshNode::start_with_id([1; 8], 4001, &[], 0);
    a.queue_request([5; 8], 1, 2, 3, "more".to_string(), 1000);
    a.queue_request([6; 8], 1, 2, 3, "more".to_string(), 30_000);
    a.expire_requests(60_999);
    assert_eq!(a.pending_requests.len(), 2);
    a.expire_requests(61_000);
    assert_eq!(a.pending_requests.len(), 1);
    assert_eq!(a.pending_requests[0].sender_id, [6; 8]);
}

#[test]
fn swarm_grows_with_its_tasks() {
    let (mut a, _) = pair();
    for _ in 0..3 {
        a.create_goal("work", 1, Some("1".to_string()), 0);
    }
    assert!(!a.should_auto_spawn());
    a.auto_spawn = true;
    assert!(a.should_auto_spawn());
    a.max_units = 2;
    assert!(!a.should_auto_spawn());
    assert_eq!(a.pending_goal_count(), 3);
}

#[test]
fn unfit_unit_leaves_the_swarm() {
    let (mut a, mut b) = pair();
    b.set_fitness(100);
    beat(&mut b, &mut a);
    a.auto_cull = true;
    a.min_units = 1;
    a.set_fitness(78);
    assert!(a.should_auto_cull());
    a.set_fitness(79);
    assert!(!a.should_auto_cull());
    a.set_fitness(78);
    a.min_units = 2;
    assert!(!a.should_auto_cull());
}

#[test]
fn vote_counts_once() {
    let (mut a, mut b) = pair();
    assert!(a.propose_replicate("load", vec![1], 100, 77).is_ok());
    deliver(&mut a, &mut b, 110);
    let vote = b.take_outbox().remove(0).bytes;
    a.handle_packet(&vote, &local(4002), 120);
    a.handle_packet(&vote, &local(4002), 130);
    assert_eq!(a.proposals[0].votes_yes.len() + a.proposals[0].votes_no.len(), 1);
}

#[test]
fn stopped_node_is_not_running() {
    let (mut a, _) = pair();
    assert!(a.running);
    a.shutdown();
    assert!(!a.running);
}

#[test]
fn goal_packet_cut_anywhere_changes_nothing() {
    let (mut a, mut b) = pair();
    a.create_goal("add", 5, Some("2 3 +".to_string()), 1000);
    let bytes = a.take_outbox().remove(0).bytes;
    let events = b.event_log.len();
    for n in 0..bytes.len() {
        b.handle_packet(&bytes[..n], &local(4001), 20);
        assert!(b.goals.goals.is_empty() && b.goals.tasks.is_empty());
        assert_eq!(b.event_log.len(), events);
    }
    b.handle_packet(&bytes, &local(4001), 20);
    assert_eq!(b.goals.goals.len(), 1);
}

#[test]
fn sibling_is_accepted_unasked() {
    let (mut a, _) = pair();
    a.set_trust_level(TrustLevel::Family);
    let mut sibling = MeshNode::start_with_id([4; 8], 4004, &[local(4001)], 0);
    beat(&mut sibling, &mut a);
    a.take_outbox();
    let mut request = b"UNIT".to_vec();
    request.push(14);
    request.extend_from_slice(&[4; 8]);
    request.extend_from_slice(&4004u16.to_be_bytes());
    a.handle_packet(&request, &local(4004), 20);
    assert_eq!(a.pending_requests.len(), 1);
    assert!(a.take_outbox().is_empty());
    a.add_sibling([4; 8]);
    a.handle_packet(&request, &local(4004), 30);
    assert_eq!(a.pending_requests.len(), 1);
    let out = a.take_outbox();
    assert_eq!(out.len(), 1);
    assert_eq!(out[0].to.port(), 4004);
}

#[test]
fn beacons_go_out_at_intervals_though_heartbeats_come_more_often() {
    let mut a = MeshNode::start_with_id([1; 8], 4001, &[], 0);
    let mut heartbeat: Option<u64> = None;
    let mut beacon: u64 = 0;
    let mut sent: Vec<u64> = Vec::new();
    let mut now: u64 = 0;
    while now <= 16_000 {
        heartbeat = a.tick(heartbeat, now);
        a.take_outbox();
        beacon = a.beacon_tick(beacon, now);
        for p in a.take_outbox() {
            assert_eq!(p.to.port(), 4200);
            sent.push(now);
        }
        now += 500;
    }
    assert_eq!(sent, vec![5_000, 10_000, 15_000]);
    assert_eq!(beacon, 15_000);
    a.auto_discover = false;
    assert_eq!(a.beacon_tick(15_000, 20_000), 20_000);
    assert!(a.take_outbox().is_empty());
}
