//! Bytes and texts: snapshots, packages, frames, hashes, requests.

use unit::features::fitness::FitnessTracker;
use unit::features::io_words::{get_request, parse_http_response, parse_url, post_request};
use unit::features::monitor::{MonitorState, WatchKind, WatchStatus};
use unit::features::sha::{base64_encode, sha1};
use unit::features::ws_bridge::{
    answer_bytes, answer_request, build_mesh_json, extract_json_number, extract_json_string, state_frame,
    ws_accept_key, ws_decode_frame, ws_encode_pong, ws_encode_text, Answer, MeshJsonParams, Page,
    WsBridgeState, WsSession,
};
use unit::persist;
use unit::spawn;
use unit::types::{Entry, Instruction};
use unit::vm::VM;

#[test]
fn snapshot_comes_back() {
    let mut vm = VM::new();
    vm.load_prelude();
    vm.interpret_line(": HI .\" hello\" 1 IF 2 ELSE 3 THEN ;");
    vm.interpret_line("VARIABLE X 42 X !");
    vm.fitness.score = -7;
    vm.node_id_cache = Some([8; 8]);
    let s = vm.make_snapshot();
    let back = persist::deserialize_snapshot(&persist::serialize_snapshot(&s)).unwrap();
    assert_eq!(back.node_id, [8; 8]);
    assert_eq!(back.dictionary, s.dictionary);
    assert_eq!(back.memory, s.memory);
    assert_eq!(back.here, s.here);
    assert_eq!(back.fitness.score, -7);
}

#[test]
fn truncated_snapshot_is_no_snapshot() {
    let data = persist::serialize_snapshot(&VM::new().make_snapshot());
    assert!(persist::deserialize_snapshot(&data).is_some());
    assert!(persist::deserialize_snapshot(&data[..data.len() - 1]).is_none());
    assert!(persist::deserialize_snapshot(&[]).is_none());
    let mut wrong = data.clone();
    wrong[0] ^= 1;
    assert!(persist::deserialize_snapshot(&wrong).is_none());
}

#[test]
fn state_message_comes_back() {
    let dict = vec![Entry {
        name: "T".to_string(),
        immediate: false,
        hidden: false,
        body: vec![Instruction::Literal(-5), Instruction::StringLit("x".to_string())],
    }];
    let mut memory = vec![0; 65536];
    memory[1] = 9;
    let data = unit::mesh::serialize_state(&dict, &memory, 2, None);
    let (d, m, here) = unit::mesh::deserialize_state(&data).unwrap();
    assert_eq!(d, dict);
    assert_eq!(m, memory);
    assert_eq!(here, 2);
    assert!(unit::mesh::deserialize_state(&data[..5]).is_none());
}

#[test]
fn node_id_file() {
    let id = [0, 1, 0x2F, 0xAB, 0xFF, 16, 17, 18];
    let hex = unit::mesh::id_to_hex(&id);
    assert_eq!(hex, "00012fabff101112");
    assert_eq!(persist::read_node_id(&format!("  {}\n", hex)), Some(id));
    assert_eq!(persist::parse_node_id("00012FABFF101112"), Some(id));
    assert_eq!(persist::parse_node_id(" 0012fabff101112"), None);
    assert_eq!(persist::parse_node_id("00012fabff10111"), None);
    assert_eq!(persist::parse_node_id("+1012fabff101112").unwrap()[0], 1);
    assert_eq!(persist::parse_node_id("0g012fabff101112"), None);
}

#[test]
fn paths_under_the_home_directory() {
    let id = [0xAB; 8];
    assert_eq!(persist::state_dir("/h", &id), "/h/.unit/abababababababab");
    assert_eq!(persist::state_path("/h", &id), "/h/.unit/abababababababab/state.bin");
    assert_eq!(persist::snapshot_path("/h", &id, "5"), "/h/.unit/abababababababab/snapshots/5.bin");
    assert_eq!(persist::node_id_path("/h"), "/h/.unit/node-id");
}

#[test]
fn package_faults() {
    let good = spawn::build_package(Ok(vec![1, 2]), &[3], &[4]).unwrap();
    assert_eq!(good.len(), 29 + 4);
    assert_eq!(spawn::unpack_package(&good).unwrap(), (vec![1, 2], vec![3], vec![4]));
    assert_eq!(spawn::unpack_package(&good[..10]).unwrap_err(), "package too small");
    let mut bad = good.clone();
    bad[0] = 0;
    assert_eq!(spawn::unpack_package(&bad).unwrap_err(), "bad magic");
    let mut bad = good.clone();
    bad[4] = 2;
    assert_eq!(spawn::unpack_package(&bad).unwrap_err(), "unsupported version 2");
    assert_eq!(spawn::unpack_package(&good[..32]).unwrap_err(), "truncated: have 32 need 33");
    assert_eq!(spawn::build_package(Err("gone".to_string()), &[], &[]).unwrap_err(), "gone");
    assert_eq!(spawn::package_size_estimate(Ok(2), 1, 1).unwrap(), good.len());
}

#[test]
fn sha1_of_known_texts() {
    let hex = |d: &[u8]| d.iter().map(|b| format!("{:02x}", b)).collect::<String>();
    assert_eq!(hex(&sha1(b"")), "da39a3ee5e6b4b0d3255bfef95601890afd80709");
    assert_eq!(hex(&sha1(b"abc")), "a9993e364706816aba3e25717850c26c9cd0d89d");
    assert_eq!(
        hex(&sha1(b"abcdbcdecdefdefgefghfghighijhijkijkljklmklmnlmnomnopnopq")),
        "84983e441c3bd26ebaae4aa1f95129e5e54670f1"
    );
}

#[test]
fn base64_pads() {
    assert_eq!(base64_encode(b""), "");
    assert_eq!(base64_encode(b"f"), "Zg==");
    assert_eq!(base64_encode(b"fo"), "Zm8=");
    assert_eq!(base64_encode(b"foobar"), "Zm9vYmFy");
}

#[test]
fn handshake_key_of_the_standard() {
    assert_eq!(ws_accept_key("dGhlIHNhbXBsZSBub25jZQ=="), "s3pPLMBiTxaQ9kYGzzhZRbK+xOo=");
}

#[test]
fn frames_of_all_three_lengths() {
    for n in [5usize, 200, 70_000] {
        let s = "x".repeat(n);
        let f = ws_encode_text(&s);
        let (t, used) = ws_decode_frame(&f).unwrap();
        assert_eq!(t, s);
        assert_eq!(used, f.len());
        assert!(ws_decode_frame(&f[..f.len() - 1]).is_none());
    }
    assert_eq!(ws_encode_text("Hello"), vec![0x81, 5, 72, 101, 108, 108, 111]);
}

#[test]
fn masked_frame_is_unmasked() {
    let f = [0x81, 0x85, 0x37, 0xfa, 0x21, 0x3d, 0x7f, 0x9f, 0x4d, 0x51, 0x58];
    assert_eq!(ws_decode_frame(&f).unwrap(), ("Hello".to_string(), 11));
    assert_eq!(ws_encode_pong(&[1, 2]), vec![0x8A, 2, 1, 2]);
}

#[test]
fn json_fields() {
    let j = "{\"type\":\"goal\",\"code\":\"1 2 +\",\"priority\":-7}";
    assert_eq!(extract_json_string(j, "code").as_deref(), Some("1 2 +"));
    assert_eq!(extract_json_number(j, "priority"), Some(-7));
    assert!(extract_json_string(j, "missing").is_none());
    assert!(extract_json_number(j, "missing").is_none());
}

#[test]
fn mesh_json_is_complete() {
    let peers = vec![("aa".to_string(), 5, "1.2.3.4:5".to_string())];
    let events = vec!["say \"hi\"".to_string()];
    let children = vec![("bb".to_string(), 2)];
    let s = build_mesh_json(MeshJsonParams {
        self_id: "me",
        self_fitness: -1,
        self_generation: 1,
        peers: &peers,
        goals: (4, 3, 2, 1),
        recent_events: &events,
        children: &children,
        watch_count: 6,
        alert_count: 7,
    });
    assert_eq!(
        s,
        "{\"type\":\"mesh_state\",\"self_id\":\"me\",\"self_fitness\":-1,\"self_generation\":1,\
         \"peers\":[{\"id\":\"aa\",\"fitness\":5,\"addr\":\"1.2.3.4:5\"}],\
         \"goals\":{\"total\":4,\"pending\":3,\"active\":2,\"completed\":1},\
         \"recent_events\":[\"say \\\"hi\\\"\"],\
         \"children\":[{\"id\":\"bb\",\"generation\":2}],\
         \"watch_count\":6,\"alert_count\":7}"
    );
}

#[test]
fn bridge_counts_its_browsers() {
    let mut b = WsBridgeState::new(6200);
    b.connect("one", 0);
    b.connect("two", 0);
    b.disconnect("one");
    assert_eq!(b.clients.len(), 1);
    assert!(b.format_status().contains("6200"));
    assert!(b.format_clients(3_000).contains("two"));
}

#[test]
fn upgrade_requests_are_recognised() {
    let r = "GET / HTTP/1.1\r\nUpgrade: websocket\r\nSec-WebSocket-Key: abc\r\n\r\n";
    match answer_request(r) {
        Answer::Upgrade(s) => assert!(s.contains(&format!("Sec-WebSocket-Accept: {}\r\n", ws_accept_key("abc")))),
        _ => panic!("an upgrade was asked for"),
    }
    assert!(matches!(answer_request("GET / HTTP/1.1\r\n\r\n"), Answer::Page(Page::Index)));
}

#[test]
fn urls() {
    assert_eq!(
        parse_url("http://host:81/a/b").unwrap(),
        ("host".to_string(), 81, "/a/b".to_string())
    );
    assert_eq!(parse_url("host").unwrap(), ("host".to_string(), 80, "/".to_string()));
    assert_eq!(parse_url("http://h:x/").unwrap_err(), "bad port");
}

#[test]
fn http_answers() {
    assert_eq!(
        parse_http_response(b"HTTP/1.1 404 Not Found\r\nA: b\r\n\r\nbody").unwrap(),
        (b"body".to_vec(), 404)
    );
    assert_eq!(parse_http_response(b"garbage").unwrap_err(), "no header boundary");
    assert_eq!(parse_http_response(b"HTTP/1.1\r\n\r\n").unwrap_err(), "no status line");
    assert_eq!(parse_http_response(b"HTTP/1.1 abc\r\n\r\n").unwrap_err(), "bad status: abc");
    assert!(get_request("h", "/p").starts_with("GET /p HTTP/1."));
    assert!(post_request("h", "/p", 3).contains("Content-Length: 3\r\n"));
}

/// The bytes that a browser sends for a text: masked, in one frame.
fn from_browser(payload: &str) -> Vec<u8> {
    let key = [1u8, 2, 3, 4];
    let mut v = vec![0x81, 0x80 | payload.len() as u8];
    v.extend_from_slice(&key);
    v.extend(payload.bytes().enumerate().map(|(i, b)| b ^ key[i % 4]));
    v
}

#[test]
fn turns_with_a_browser() {
    let mut bridge = WsBridgeState::new(6000);
    bridge.connect("browser-0001", 100);
    let mut session = WsSession::new(100);
    let beat = from_browser("{\"type\":\"heartbeat\",\"fitness\":7}");
    let (head, tail) = beat.split_at(5);
    let t = session.turn(head, "browser-0001", &mut bridge, 200);
    assert!(t.events.is_empty() && !t.close && !t.push && t.pong.is_empty());
    let t = session.turn(tail, "browser-0001", &mut bridge, 2100);
    assert_eq!(t.events.len(), 1);
    assert!(t.push);
    assert_eq!(bridge.clients[0].fitness, 7);
    assert_eq!(bridge.clients[0].last_heartbeat, 2100);
    assert_eq!(bridge.messages_relayed, 1);
    session.pushed(2100);
    assert!(!session.turn(&[], "browser-0001", &mut bridge, 2200).push);
    assert_eq!(session.turn(&[0x89], "browser-0001", &mut bridge, 2200).pong, vec![0x8A, 0]);
    assert!(session.read_buf.is_empty());
    assert!(session.turn(&[0x88, 0x80], "browser-0001", &mut bridge, 9000).close);
}

#[test]
fn state_is_framed_once_there_is_one() {
    assert!(state_frame("").is_empty());
    assert_eq!(state_frame("{}"), ws_encode_text("{}"));
}

#[test]
fn line_of_a_unit_in_a_table() {
    let mut f = FitnessTracker::new();
    f.record_success(100);
    f.record_failure();
    assert_eq!(
        f.format_line(&[0xab; 8]),
        format!("  abababababababab score={} tasks=1/2", f.score)
    );
}

#[test]
fn snapshot_cut_anywhere_is_refused() {
    let mut s = VM::new().make_snapshot();
    s.dictionary.truncate(3);
    let data = persist::serialize_snapshot(&s);
    for n in 0..data.len() {
        assert!(persist::deserialize_snapshot(&data[..n]).is_none(), "{}", n);
    }
}

#[test]
fn state_message_cut_or_foreign_is_refused() {
    let dict = vec![Entry {
        name: "T".to_string(),
        immediate: true,
        hidden: false,
        body: vec![Instruction::Call(3), Instruction::Branch(-2)],
    }];
    let data = unit::mesh::serialize_state(&dict, &[1, 2, 3], 3, None);
    assert!(unit::mesh::deserialize_state(&data).is_some());
    for n in 0..data.len() {
        assert!(unit::mesh::deserialize_state(&data[..n]).is_none(), "{}", n);
    }
    for k in 0..5 {
        let mut wrong = data.clone();
        wrong[k] = wrong[k].wrapping_add(1);
        assert!(unit::mesh::deserialize_state(&wrong).is_none(), "{}", k);
    }
}

#[test]
fn frame_cut_anywhere_is_no_frame() {
    for text in ["hi".to_string(), "x".repeat(300), "y".repeat(70_000)] {
        let f = ws_encode_text(&text);
        assert_eq!(ws_decode_frame(&f), Some((text.clone(), f.len())));
        for n in (0..f.len()).step_by(7).chain([f.len() - 1]) {
            assert!(ws_decode_frame(&f[..n]).is_none());
        }
    }
    let masked = [0x81, 0x85, 0x37, 0xfa, 0x21, 0x3d, 0x7f, 0x9f, 0x4d, 0x51, 0x58];
    assert_eq!(ws_decode_frame(&masked), Some(("Hello".to_string(), 11)));
    for n in 0..masked.len() {
        assert!(ws_decode_frame(&masked[..n]).is_none());
    }
}

#[test]
fn request_that_is_no_text_is_answered() {
    assert!(matches!(answer_bytes(b"GET /unit.js HTTP/1.1\r\n\r\n"), Answer::Page(Page::Script)));
    assert!(matches!(answer_bytes(b"GET /\xff HTTP/1.1\r\n\r\n"), Answer::Text(_)));
}

#[test]
fn schedule_does_not_run_twice_at_once() {
    let mut m = MonitorState::new();
    let a = m.add_schedule("A".to_string(), 5);
    let b = m.add_schedule("B".to_string(), 0);
    assert_eq!(m.due_schedules(1000, 1).len(), 2);
    assert_eq!(m.due_schedules(1000, 1), vec![(b, "B".to_string())]);
    assert_eq!(m.due_schedules(5999, 5).len(), 1);
    assert_eq!(m.due_schedules(6000, 6).len(), 2);
    assert_ne!(a, b);
}

#[test]
fn removed_watch_keeps_its_number() {
    let mut m = MonitorState::new();
    let a = m.add_watch(WatchKind::Url("x".to_string()), 5, 0);
    assert!(m.remove_watch(a));
    let b = m.add_schedule("B".to_string(), 1);
    let c = m.add_watch(WatchKind::File("y".to_string()), 5, 0);
    let alert = m.record_check(c, WatchStatus::down(-1, "gone".to_string()), 10, 10).unwrap();
    assert_eq!((a, b, c, alert.id), (1, 2, 3, 4));
    assert_eq!(m.due_watches(0), vec![]);
}
