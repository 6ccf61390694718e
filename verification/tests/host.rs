//! The machine and its host: what is asked, and what an answer does.

use unit::features::monitor::WatchKind;
use unit::mesh::message::LOCALHOST;
use unit::mesh::{Addr, MeshNode};
use unit::types::{Instruction, PAD};
use unit::vm::checks::process_search;
use unit::vm::state::{MutationClass, Packing, Purpose, Time};
use unit::vm::{Reply, Request, VM};

fn machine() -> VM {
    let mut vm = VM::new();
    vm.load_prelude();
    vm
}

fn at(now: u64) -> Time {
    Time { now, epoch: 1_700_000_000_000 + now, nanos: (1_700_000_000_000 + now) * 1_000_000 + 7 }
}

/// Runs a line; the closure answers what the machine asks.
fn play(vm: &mut VM, line: &str, answer: &mut dyn FnMut(&Request) -> Reply) -> String {
    vm.begin_line(line);
    finish(vm, answer)
}

fn finish(vm: &mut VM, answer: &mut dyn FnMut(&Request) -> Reply) -> String {
    loop {
        vm.run(1_000_000);
        let reply = match &vm.pending {
            Some(q) => answer(q),
            None => break,
        };
        let t = vm.read_time();
        vm.resume(reply, t);
    }
    shown(vm)
}

fn shown(vm: &mut VM) -> String {
    let mut s = String::new();
    for p in vm.take_console() {
        s.push_str(&p.text);
    }
    s
}

fn nothing(_: &Request) -> Reply {
    panic!("nothing should be asked")
}

fn words(vm: &VM) -> String {
    let mut s = String::new();
    for i in 0..vm.stack[1] as usize {
        s.push(vm.memory[vm.stack[0] as usize + i] as u8 as char);
    }
    s
}

// -----------------------------------------------------------------------
// Files, HTTP, shell, environment
// -----------------------------------------------------------------------

#[test]
fn file_read_puts_bytes_into_the_scratch_area() {
    let mut vm = machine();
    let mut asked = String::new();
    play(&mut vm, "FILE-READ\" notes.txt\"", &mut |q| match q {
        Request::FileRead { path } => {
            asked = path.clone();
            Reply::Bytes(b"hello".to_vec())
        }
        _ => panic!("unexpected request"),
    });
    assert_eq!(asked, "notes.txt");
    assert_eq!(vm.stack, vec![PAD as i64, 5]);
    assert_eq!(words(&vm), "hello");
    assert_eq!(vm.io_log, vec!["FILE-READ notes.txt"]);
}

#[test]
fn file_read_fault_leaves_two_zeros() {
    let mut vm = machine();
    let out = play(&mut vm, "FILE-READ\" gone\"", &mut |_| Reply::Fault("no such file".into()));
    assert_eq!(vm.stack, vec![0, 0]);
    assert!(out.contains("FILE-READ: no such file"));
}

#[test]
fn file_write_hands_over_the_cells() {
    let mut vm = machine();
    let mut written = Vec::new();
    play(&mut vm, "65 100 ! 66 101 ! 100 2 FILE-WRITE\" out.bin\"", &mut |q| match q {
        Request::FileWrite { path, data } => {
            assert_eq!(path, "out.bin");
            written = data.clone();
            Reply::Done
        }
        _ => panic!("unexpected request"),
    });
    assert_eq!(written, b"AB".to_vec());
    assert!(vm.stack.is_empty());
}

#[test]
fn sandbox_bars_writing_deleting_posting_and_commands() {
    let mut vm = machine();
    play(&mut vm, "SANDBOX-ON", &mut nothing);
    play(&mut vm, "SHELL-ENABLE", &mut nothing);
    let out = play(&mut vm, "1 1 FILE-WRITE\" x\"", &mut nothing);
    assert!(out.contains("FILE-WRITE: blocked by sandbox"));
    vm.stack.clear();
    play(&mut vm, "FILE-DELETE\" x\"", &mut nothing);
    assert_eq!(vm.stack, vec![0]);
    vm.stack.clear();
    play(&mut vm, "HTTP-POST\" http://a/\"", &mut nothing);
    assert_eq!(vm.stack, vec![0, 0, 0]);
    vm.stack.clear();
    let out = play(&mut vm, "SHELL\" ls\"", &mut nothing);
    assert_eq!(vm.stack, vec![0, 0, -1]);
    assert!(out.contains("SHELL: blocked by sandbox"));
}

#[test]
fn shell_is_off_until_enabled() {
    let mut vm = machine();
    let out = play(&mut vm, "SHELL\" ls\"", &mut nothing);
    assert!(out.contains("SHELL: disabled (use SHELL-ENABLE from REPL)"));
    assert_eq!(vm.stack, vec![0, 0, -1]);
    vm.stack.clear();
    assert_eq!(play(&mut vm, "SHELL-ENABLE", &mut nothing), "shell: ENABLED\n");
    play(&mut vm, "SHELL\" ls\"", &mut |q| match q {
        Request::Shell { command } => {
            assert_eq!(command, "ls");
            Reply::Response { body: b"a\n".to_vec(), code: 3 }
        }
        _ => panic!("unexpected request"),
    });
    assert_eq!(vm.stack, vec![PAD as i64, 2, 3]);
}

#[test]
fn http_get_leaves_address_length_and_status() {
    let mut vm = machine();
    play(&mut vm, "HTTP-GET\" http://a/b\"", &mut |q| match q {
        Request::HttpGet { url } => {
            assert_eq!(url, "http://a/b");
            Reply::Response { body: b"ok".to_vec(), code: 200 }
        }
        _ => panic!("unexpected request"),
    });
    assert_eq!(vm.stack, vec![PAD as i64, 2, 200]);
}

#[test]
fn environment_variable_is_text_in_the_scratch_area() {
    let mut vm = machine();
    play(&mut vm, "ENV\" USER\"", &mut |_| Reply::Text("ann".into()));
    assert_eq!(words(&vm), "ann");
    vm.stack.clear();
    play(&mut vm, "ENV\" NOBODY\"", &mut |_| Reply::Done);
    assert_eq!(vm.stack, vec![0, 0]);
}

#[test]
fn key_gives_a_byte_or_minus_one() {
    let mut vm = machine();
    play(&mut vm, "KEY", &mut |_| Reply::Byte(65));
    play(&mut vm, "KEY", &mut |_| Reply::Done);
    assert_eq!(vm.stack, vec![65, -1]);
}

#[test]
fn host_word_in_a_definition_asks_when_it_runs() {
    let mut vm = machine();
    play(&mut vm, ": T FILE-EXISTS\" f\" ;", &mut nothing);
    play(&mut vm, "T", &mut |q| match q {
        Request::FileExists { path } => {
            assert_eq!(path, "f");
            Reply::Flag(true)
        }
        _ => panic!("unexpected request"),
    });
    assert_eq!(vm.stack, vec![-1]);
}

#[test]
fn the_log_of_host_words_keeps_fifty() {
    let mut vm = machine();
    for i in 0..60 {
        let line = format!("FILE-EXISTS\" f{}\" DROP", i);
        play(&mut vm, &line, &mut |_| Reply::Flag(false));
    }
    assert_eq!(vm.io_log.len(), 50);
    assert_eq!(vm.io_log[49], "FILE-EXISTS f59");
    assert_eq!(vm.io_log[0], "FILE-EXISTS f10");
}

#[test]
fn timestamp_is_in_seconds() {
    let mut vm = machine();
    vm.begin_line("TIMESTAMP");
    while vm.is_ready() {
        vm.step(at(5_000));
    }
    assert_eq!(vm.stack, vec![1_700_000_005]);
}

// -----------------------------------------------------------------------
// Persistence and identity
// -----------------------------------------------------------------------

#[test]
fn save_and_load_bring_a_word_back() {
    let mut vm = machine();
    vm.node_id_cache = Some([1, 2, 3, 4, 5, 6, 7, 8]);
    play(&mut vm, ": SQUARE DUP * ;", &mut nothing);
    let mut kept = Vec::new();
    let out = play(&mut vm, "SAVE", &mut |q| match q {
        Request::SaveState { id, data, quiet } => {
            assert_eq!(*id, [1, 2, 3, 4, 5, 6, 7, 8]);
            assert!(!*quiet);
            kept = data.clone();
            Reply::Text("/home/ann/.unit/0102030405060708".into())
        }
        _ => panic!("unexpected request"),
    });
    assert_eq!(
        out,
        format!("saved {} bytes to /home/ann/.unit/0102030405060708\n", kept.len())
    );
    let mut other = VM::new();
    other.node_id_cache = Some([9; 8]);
    let out = play(&mut other, "LOAD-STATE 7 SQUARE", &mut |_| Reply::Bytes(kept.clone()));
    assert!(out.contains("state restored"));
    assert_eq!(other.stack, vec![49]);
}

#[test]
fn load_tells_missing_and_corrupt_states_apart() {
    let mut vm = machine();
    assert_eq!(play(&mut vm, "LOAD-STATE", &mut nothing), "load: no node ID\n");
    vm.node_id_cache = Some([1; 8]);
    assert_eq!(play(&mut vm, "LOAD-STATE", &mut |_| Reply::Done), "load: no saved state\n");
    let out = play(&mut vm, "LOAD-STATE", &mut |_| Reply::Bytes(vec![1, 2, 3]));
    assert_eq!(out, "load: corrupt state file\n");
}

#[test]
fn save_without_identity_or_with_a_fault() {
    let mut vm = machine();
    assert_eq!(play(&mut vm, "SAVE", &mut nothing), "save: no node ID (mesh offline)\n");
    vm.node_id_cache = Some([1; 8]);
    let out = play(&mut vm, "SAVE", &mut |_| Reply::Fault("write: full".into()));
    assert_eq!(out, "save failed: write: full\n");
}

#[test]
fn snapshots_are_listed_in_order_without_their_ending() {
    let mut vm = machine();
    vm.node_id_cache = Some([1; 8]);
    let files = vec!["30.bin".to_string(), "notes".to_string(), "10.bin".to_string(), "20.bin.bin".to_string()];
    let out = play(&mut vm, "SNAPSHOTS", &mut |_| Reply::Names(files.clone()));
    assert_eq!(out, "  10\n  20\n  30\n");
    assert_eq!(play(&mut vm, "SNAPSHOTS", &mut |_| Reply::Names(vec![])), "  (no snapshots)\n");
}

#[test]
fn snapshot_is_named_by_its_time() {
    let mut vm = machine();
    vm.node_id_cache = Some([1; 8]);
    vm.begin_line("SNAPSHOT");
    while vm.is_ready() {
        vm.step(at(0));
    }
    match &vm.pending {
        Some(Request::SaveSnapshot { name, .. }) => assert_eq!(name, "1700000000"),
        _ => panic!("unexpected request"),
    }
    vm.resume(Reply::Done, at(0));
    assert_eq!(shown(&mut vm), "snapshot: 1700000000\n");
}

#[test]
fn restore_of_a_missing_or_corrupt_snapshot() {
    let mut vm = machine();
    vm.node_id_cache = Some([1; 8]);
    let out = play(&mut vm, "5 RESTORE", &mut |q| match q {
        Request::LoadSnapshot { name, .. } => {
            assert_eq!(name, "5");
            Reply::Done
        }
        _ => panic!("unexpected request"),
    });
    assert_eq!(out, "snapshot 5 not found\n");
    let out = play(&mut vm, "5 RESTORE", &mut |_| Reply::Bytes(vec![0]));
    assert_eq!(out, "restore: corrupt snapshot\n");
}

#[test]
fn reidentify_takes_the_new_identity() {
    let mut vm = machine();
    let out = play(&mut vm, "REIDENTIFY", &mut |q| match q {
        Request::Reidentify { old } => {
            assert!(old.is_none());
            Reply::Identity([0xAB; 8])
        }
        _ => panic!("unexpected request"),
    });
    assert_eq!(out, "reidentified: none -> abababababababab\n");
    assert_eq!(vm.node_id_cache, Some([0xAB; 8]));
    let out = play(&mut vm, "REIDENTIFY", &mut |_| Reply::Fault("no device".into()));
    assert_eq!(out, "reidentified: abababababababab -> 0000000000000000\n");
}

#[test]
fn bye_saves_quietly_when_asked_to_and_stops() {
    let mut vm = machine();
    vm.node_id_cache = Some([1; 8]);
    assert_eq!(play(&mut vm, "AUTO-SAVE", &mut nothing), "auto-save: ON (every 5 tasks)\n");
    let mut saves = 0;
    play(&mut vm, "BYE 1 2 3", &mut |q| match q {
        Request::SaveState { quiet, .. } => {
            assert!(*quiet);
            saves += 1;
            Reply::Done
        }
        _ => panic!("unexpected request"),
    });
    assert_eq!(saves, 1);
    assert!(!vm.running);
    assert!(vm.stack.is_empty());
}

#[test]
fn reset_forgets_state_and_identity() {
    let mut vm = machine();
    vm.node_id_cache = Some([7; 8]);
    let out = play(&mut vm, "RESET", &mut |q| match q {
        Request::Forget { id } => {
            assert_eq!(*id, Some([7; 8]));
            Reply::Done
        }
        _ => panic!("unexpected request"),
    });
    assert!(out.starts_with("state and identity deleted"));
}

// -----------------------------------------------------------------------
// Children
// -----------------------------------------------------------------------

fn spawner(q: &Request) -> Reply {
    match q {
        Request::Binary { .. } => Reply::Bytes(vec![0x7F; 10]),
        Request::SpawnPackage { package, generation, arrived, .. } => {
            let (binary, state, prelude) = unit::spawn::unpack_package(package).unwrap();
            assert_eq!(binary, vec![0x7F; 10]);
            assert!(unit::persist::deserialize_snapshot(&state).is_some());
            assert_eq!(prelude, unit::prelude::prelude().as_bytes());
            assert_eq!(*generation, 1);
            assert!(!*arrived);
            Reply::Child { pid: 42, port: 0, id: [3; 8] }
        }
        _ => panic!("unexpected request"),
    }
}

#[test]
fn spawn_packs_the_executable_and_remembers_the_child() {
    let mut vm = machine();
    let out = play(&mut vm, "SPAWN", &mut spawner);
    assert_eq!(out, "spawned child pid=42 id=0303030303030303\n");
    assert_eq!(vm.spawn_state.children.len(), 1);
    play(&mut vm, "CHILD-COUNT", &mut nothing);
    assert_eq!(vm.stack, vec![1]);
    let out = play(&mut vm, "CHILDREN", &mut nothing);
    assert!(out.starts_with("  pid=42 id=0303030303030303 age="));
    let out = play(&mut vm, "SPAWN", &mut nothing);
    assert!(out.starts_with("SPAWN: cooldown"), "{}", out);
}

#[test]
fn spawn_n_waives_the_pause() {
    let mut vm = machine();
    play(&mut vm, "3 SPAWN-N", &mut spawner);
    assert_eq!(vm.spawn_state.children.len(), 3);
    assert!(vm.spawn_state.last_spawn.is_some());
}

#[test]
fn spawn_is_refused_in_quarantine_and_when_the_family_is_complete() {
    let mut vm = machine();
    assert_eq!(play(&mut vm, "QUARANTINE", &mut nothing), "quarantine: ON\n");
    assert_eq!(play(&mut vm, "SPAWN", &mut nothing), "SPAWN: quarantine active\n");
    play(&mut vm, "QUARANTINE", &mut nothing);
    assert_eq!(play(&mut vm, "0 MAX-CHILDREN", &mut nothing), "max-children: 0\n");
    assert_eq!(play(&mut vm, "SPAWN", &mut nothing), "SPAWN: max children reached (0)\n");
}

#[test]
fn spawn_tells_what_went_wrong() {
    let mut vm = machine();
    let out = play(&mut vm, "SPAWN", &mut |_| Reply::Fault("read binary: denied".into()));
    assert_eq!(out, "SPAWN: read binary: denied\n");
    let out = play(&mut vm, "SPAWN", &mut |q| match q {
        Request::Binary { .. } => Reply::Bytes(vec![1]),
        _ => Reply::Fault("fork: denied".into()),
    });
    assert_eq!(out, "SPAWN: fork: denied\n");
    assert!(vm.spawn_state.children.is_empty());
}

#[test]
fn package_and_its_size_agree() {
    let mut vm = machine();
    let out = play(&mut vm, "PACKAGE-SIZE", &mut |q| match q {
        Request::Binary { purpose: Packing::Size, .. } => Reply::Bytes(vec![0; 100]),
        _ => panic!("unexpected request"),
    });
    let size = vm.stack[0];
    assert_eq!(out, format!("package size: {} bytes\n", size));
    vm.stack.clear();
    let out = play(&mut vm, "PACKAGE", &mut |_| Reply::Bytes(vec![0; 100]));
    assert_eq!(out, format!("package: {} bytes\n", size));
    assert_eq!(vm.stack[0], PAD as i64);
    assert_eq!(vm.stack[1], size.min(65536 - PAD as i64));
    assert_eq!(&vm.memory[PAD..PAD + 4], &[0x55, 0x52, 0x45, 0x50]);
}

#[test]
fn replicate_to_sends_a_package() {
    let mut vm = machine();
    let mut n = 0;
    let out = play(&mut vm, "REPLICATE-TO\" 10.0.0.1:5000\"", &mut |q| match q {
        Request::Binary { .. } => Reply::Bytes(vec![9; 4]),
        Request::SendPackage { addr, package } => {
            assert_eq!(addr, "10.0.0.1:5000");
            n = package.len();
            Reply::Done
        }
        _ => panic!("unexpected request"),
    });
    assert_eq!(out, format!("sent {} bytes to 10.0.0.1:5000\n", n));
}

#[test]
fn killed_child_is_forgotten() {
    let mut vm = machine();
    play(&mut vm, "SPAWN", &mut spawner);
    let out = play(&mut vm, "42 KILL-CHILD", &mut |q| match q {
        Request::Kill { pid } => {
            assert_eq!(*pid, 42);
            Reply::Done
        }
        _ => panic!("unexpected request"),
    });
    assert_eq!(out, "sent SIGTERM to pid 42\n");
    assert!(vm.spawn_state.children.is_empty());
}

#[test]
fn family_tells_identity_generation_and_parent() {
    let mut vm = machine();
    assert_eq!(play(&mut vm, "FAMILY", &mut nothing), "id: ? gen: 0 parent: none children: 0\n");
    vm.node_id_cache = Some([1; 8]);
    vm.spawn_state.parent_id = Some([2; 8]);
    vm.spawn_state.generation = 3;
    assert_eq!(
        play(&mut vm, "FAMILY", &mut nothing),
        "id: 0101010101010101 gen: 3 parent: 0202020202020202 children: 0\n"
    );
}

// -----------------------------------------------------------------------
// Watches
// -----------------------------------------------------------------------

#[test]
fn a_watch_that_turns_bad_alerts_and_its_handler_earns_a_bonus() {
    let mut vm = machine();
    let out = play(&mut vm, "60 WATCH\" http://a/\"", &mut nothing);
    assert_eq!(out, "watch #1 created (every 60s)\n");
    assert_eq!(vm.stack, vec![1]);
    vm.stack.clear();
    let out = play(&mut vm, "1 ON-ALERT\" 77\"", &mut nothing);
    assert_eq!(out, "alert handler set for watch #1\n");
    let before = vm.fitness.score;
    let out = play(&mut vm, "CHECK-WATCHES", &mut |q| match q {
        Request::Probe { watch, kind: WatchKind::Url(u), .. } => {
            assert_eq!(*watch, 1);
            assert_eq!(u, "http://a/");
            Reply::Response { body: vec![], code: 503 }
        }
        _ => panic!("unexpected request"),
    });
    assert_eq!(out, "ALERT [CRIT] watch #1: HTTP 503\n");
    assert_eq!(vm.stack, vec![77]);
    assert_eq!(vm.fitness.score, before + 15);
    vm.stack.clear();
    play(&mut vm, "ALERT-COUNT WATCH-COUNT", &mut nothing);
    assert_eq!(vm.stack, vec![1, 1]);
}

#[test]
fn a_watch_that_recovers_closes_its_alerts() {
    let mut vm = machine();
    play(&mut vm, "0 WATCH-FILE\" f\"", &mut nothing);
    vm.begin_line("CHECK-WATCHES");
    while vm.is_ready() {
        vm.step(at(0));
    }
    vm.resume(Reply::Done, at(0));
    assert_eq!(vm.monitor.alerts.len(), 1);
    assert_eq!(vm.monitor.alerts[0].message, "not found");
    while vm.is_ready() {
        vm.step(at(0));
    }
    vm.begin_line("CHECK-WATCHES");
    while vm.is_ready() {
        vm.step(at(2_000));
    }
    vm.resume(Reply::Size(12), at(2_005));
    assert!(vm.monitor.alerts.is_empty());
    assert_eq!(vm.monitor.watches[0].last_status.message, "12b");
    assert_eq!(vm.monitor.watches[0].last_status.response_ms, 5);
}

#[test]
fn a_process_is_up_if_the_search_says_so() {
    let mut vm = machine();
    play(&mut vm, "1 WATCH-PROC\" sshd\"", &mut nothing);
    play(&mut vm, "CHECK-WATCHES", &mut |_| Reply::Response { body: b"UP\n".to_vec(), code: 0 });
    assert_eq!(vm.monitor.watches[0].last_status.message, "running");
    let mut vm = machine();
    play(&mut vm, "1 WATCH-PROC\" sshd\"", &mut nothing);
    play(&mut vm, "CHECK-WATCHES", &mut |_| Reply::Response { body: b"DOWN\n".to_vec(), code: 0 });
    assert_eq!(vm.monitor.watches[0].last_status.message, "not running");
}

#[test]
fn heal_checks_and_runs_open_handlers() {
    let mut vm = machine();
    let out = play(&mut vm, "HEAL", &mut nothing);
    assert_eq!(out, "--- heal cycle ---\n  no watches due\n--- heal done ---\n");
    play(&mut vm, "60 WATCH\" http://a/\" ON-ALERT\" 5\"", &mut nothing);
    let out = play(&mut vm, "HEAL", &mut |_| Reply::Fault("refused".into()));
    assert_eq!(
        out,
        "--- heal cycle ---\nALERT [CRIT] watch #1: refused\n  running handler for alert #2\n--- heal done ---\n"
    );
    assert_eq!(vm.stack, vec![5, 5]);
    assert_eq!(play(&mut vm, "2 ACK", &mut nothing), "alert #2 acknowledged\n");
    let out = play(&mut vm, "RUN-HANDLERS", &mut nothing);
    assert_eq!(out, "");
    assert_eq!(vm.stack, vec![5, 5]);
}

#[test]
fn alert_threshold_sets_the_level() {
    let mut vm = machine();
    play(&mut vm, "60 WATCH\" http://a/\" DROP", &mut nothing);
    let out = play(&mut vm, "0 ALERT-THRESHOLD 1\"", &mut nothing);
    assert_eq!(out, "alert threshold set for watch #1\n");
    let out = play(&mut vm, "CHECK-WATCHES", &mut |_| Reply::Fault("x".into()));
    assert_eq!(out, "ALERT [INFO] watch #1: x\n");
}

#[test]
fn every_schedules_the_rest_of_the_line_and_a_tick_runs_it() {
    let mut vm = machine();
    let out = play(&mut vm, "10 EVERY 1 2 +", &mut nothing);
    assert_eq!(out, "schedule #1 every 10s: 1 2 +\n");
    assert_eq!(vm.stack, vec![1]);
    vm.begin_tick();
    finish(&mut vm, &mut nothing);
    assert_eq!(vm.stack, vec![1, 3]);
    vm.begin_tick();
    finish(&mut vm, &mut nothing);
    assert_eq!(vm.stack, vec![1, 3]);
    assert_eq!(play(&mut vm, "1 UNSCHED", &mut nothing), "schedule #1 removed\n");
    assert_eq!(play(&mut vm, "5 EVERY", &mut nothing), "EVERY: no code to schedule\n");
}

#[test]
fn uptime_asks_for_a_percentage() {
    let mut vm = machine();
    let out = play(&mut vm, "9 UPTIME", &mut |q| match q {
        Request::Percent { watch, good, total } => {
            assert_eq!((*watch, *good, *total), (9, 0, 1));
            Reply::Text("0.0".into())
        }
        _ => panic!("unexpected request"),
    });
    assert_eq!(out, "watch #9: 0.0% uptime\n");
    play(&mut vm, "1 WATCH\" u\"", &mut nothing);
    let out = play(&mut vm, "UPTIME", &mut |q| match q {
        Request::Percent { good, total, .. } => {
            assert_eq!((*good, *total), (1, 1));
            Reply::Text("100.0".into())
        }
        _ => panic!("unexpected request"),
    });
    assert_eq!(out, "watch #1: 100.0% uptime\n");
}

#[test]
fn health_of_a_lone_machine() {
    let mut vm = machine();
    play(&mut vm, "HEALTH", &mut nothing);
    assert_eq!(vm.stack, vec![100]);
    play(&mut vm, "60 WATCH\" a\" DROP 60 WATCH\" b\" DROP", &mut nothing);
    play(&mut vm, "CHECK-WATCHES", &mut |q| match q {
        Request::Probe { watch: 1, .. } => Reply::Fault("x".into()),
        _ => Reply::Response { body: vec![], code: 200 },
    });
    vm.stack.clear();
    play(&mut vm, "HEALTH", &mut nothing);
    assert_eq!(vm.stack, vec![30]);
}

// -----------------------------------------------------------------------
// Mutation and evolution
// -----------------------------------------------------------------------

fn change(vm: &VM, name: &str, body: Vec<Instruction>) -> Reply {
    Reply::Changed {
        index: vm.find_word(name).unwrap(),
        body,
        strategy: "constant".into(),
        description: "2 becomes 3".into(),
    }
}

fn tripling(vm: &VM) -> Reply {
    let times = vm.find_word("*").unwrap();
    change(vm, "DBL", vec![Instruction::Literal(3), Instruction::Call(times)])
}

#[test]
fn a_change_is_applied_told_and_undone() {
    let mut vm = machine();
    play(&mut vm, ": DBL 2 * ;", &mut nothing);
    let r = tripling(&vm);
    let mut answer = Some(r);
    let out = play(&mut vm, "MUTATE-WORD\" dbl\"", &mut |q| match q {
        Request::Mutate { index: Some(_), purpose: Purpose::Named, seen, .. } => {
            assert_eq!(seen, "DBL");
            answer.take().unwrap()
        }
        _ => panic!("unexpected request"),
    });
    assert_eq!(out, "mutated: DBL [constant] 2 becomes 3\n");
    play(&mut vm, "5 DBL", &mut nothing);
    assert_eq!(vm.stack, vec![15]);
    assert_eq!(play(&mut vm, "MUTATIONS", &mut nothing), "DBL [constant] 2 becomes 3\n");
    assert_eq!(play(&mut vm, "UNDO-MUTATE", &mut nothing), "undone: DBL [constant]\n");
    play(&mut vm, "5 DBL", &mut nothing);
    assert_eq!(vm.stack, vec![15, 10]);
    assert_eq!(play(&mut vm, "UNDO-MUTATE", &mut nothing), "nothing to undo\n");
    assert_eq!(play(&mut vm, "MUTATIONS", &mut nothing), "  (no mutations)\n");
}

#[test]
fn changes_that_fail_are_told() {
    let mut vm = machine();
    assert_eq!(play(&mut vm, "MUTATE", &mut |_| Reply::Refused), "no mutable words\n");
    assert_eq!(
        play(&mut vm, "MUTATE", &mut |_| Reply::Fault(String::new())),
        "mutation failed (no applicable strategy)\n"
    );
    assert_eq!(
        play(&mut vm, "MUTATE-WORD\" dup\"", &mut |_| Reply::Refused),
        "DUP: not mutable (kernel word)\n"
    );
    assert_eq!(
        play(&mut vm, "MUTATE-WORD\" dup\"", &mut |_| Reply::Fault(String::new())),
        "mutation failed\n"
    );
    assert_eq!(play(&mut vm, "MUTATE-WORD\" nope\"", &mut nothing), "NOPE?\n");
    play(&mut vm, "MUTATE-RANDOM", &mut |_| Reply::Refused);
    assert_eq!(vm.stack, vec![0]);
}

#[test]
fn evolution_keeps_what_scores_no_less() {
    let mut vm = machine();
    play(&mut vm, ": DBL 2 * ;", &mut nothing);
    assert_eq!(play(&mut vm, "BENCHMARK\" 1 DBL\"", &mut nothing), "benchmark set: 1 DBL\n");
    let mut answer = Some(tripling(&vm));
    let out = play(&mut vm, "EVOLVE", &mut |q| match q {
        Request::Mutate { index: None, purpose: Purpose::Evolve, before, .. } => {
            assert_eq!(*before, 10);
            answer.take().unwrap()
        }
        _ => panic!("unexpected request"),
    });
    assert_eq!(
        out,
        "evolve: kept mutation (10 -> 10): DBL [constant] 2 becomes 3\nevolve: own=0 avg=0 evolutions=1\n"
    );
    play(&mut vm, "5 DBL", &mut nothing);
    assert_eq!(vm.stack, vec![15]);
}

#[test]
fn evolution_reverts_what_scores_less() {
    let mut vm = machine();
    play(&mut vm, ": DBL 2 * ;", &mut nothing);
    play(&mut vm, "BENCHMARK\" 1 DBL\"", &mut nothing);
    let drop = vm.find_word("DROP").unwrap();
    let mut answer = Some(change(&vm, "DBL", vec![Instruction::Call(drop)]));
    let out = play(&mut vm, "EVOLVE", &mut |_| answer.take().unwrap());
    assert_eq!(
        out,
        "evolve: reverted mutation (10 -> 0)\nevolve: own=0 avg=0 evolutions=1\n"
    );
    play(&mut vm, "5 DBL", &mut nothing);
    assert_eq!(vm.stack, vec![10]);
    assert!(vm.mutation_history.is_empty());
}

#[test]
fn evolution_without_words_or_without_a_change() {
    let mut vm = machine();
    assert_eq!(play(&mut vm, "EVOLVE", &mut |_| Reply::Refused), "evolve: no mutable words\n");
    assert_eq!(
        play(&mut vm, "EVOLVE", &mut |_| Reply::Fault(String::new())),
        "evolve: mutation failed\nevolve: own=0 avg=0 evolutions=1\n"
    );
}

#[test]
fn a_change_without_effect_is_neutral() {
    let mut vm = machine();
    play(&mut vm, ": DBL 2 * ;", &mut nothing);
    let dbl = vm.find_word("DBL").unwrap();
    let times = vm.find_word("*").unwrap();
    play(&mut vm, "SMART-MUTATE", &mut |q| match q {
        Request::Mutate { purpose: Purpose::Pick, .. } => Reply::Picked(dbl),
        Request::Mutate { purpose: Purpose::Judge, index, seen, .. } => {
            assert_eq!(*index, Some(dbl));
            assert_eq!(seen, "error: stack underflow\n[0][2][1, 2, 6]");
            Reply::Changed {
                index: dbl,
                body: vec![Instruction::Literal(2), Instruction::Call(times)],
                strategy: "same".into(),
                description: "nothing".into(),
            }
        }
        _ => panic!("unexpected request"),
    });
    assert_eq!(vm.stack, vec![-1]);
    assert_eq!(vm.mutation_stats.neutral, 1);
    assert_eq!(
        play(&mut vm, "MUTATION-REPORT", &mut nothing),
        "last: DBL [same] neutral (kept)\n"
    );
}

#[test]
fn a_harmful_change_is_reverted() {
    let mut vm = machine();
    vm.execution_timeout = 0;
    play(&mut vm, ": DBL 2 * ;", &mut nothing);
    play(&mut vm, ": INF BEGIN 0 UNTIL ;", &mut nothing);
    play(&mut vm, "BENCHMARK\" INF\"", &mut nothing);
    let dbl = vm.find_word("DBL").unwrap();
    let times = vm.find_word("*").unwrap();
    play(&mut vm, "SMART-MUTATE", &mut |q| match q {
        Request::Mutate { purpose: Purpose::Pick, .. } => Reply::Picked(dbl),
        _ => Reply::Changed {
            index: dbl,
            body: vec![Instruction::Literal(3), Instruction::Call(times)],
            strategy: "constant".into(),
            description: "2 becomes 3".into(),
        },
    });
    assert_eq!(vm.stack, vec![0]);
    assert!(matches!(vm.last_mutation_result.as_ref().unwrap().class, MutationClass::Harmful));
    vm.stack.clear();
    play(&mut vm, "5 DBL", &mut nothing);
    assert_eq!(vm.stack, vec![10]);
    assert_eq!(
        play(&mut vm, "MUTATION-STATS", &mut nothing),
        "neutral=0 beneficial=0 harmful=1\n"
    );
}

#[test]
fn benchmark_scores_depth() {
    let mut vm = machine();
    play(&mut vm, "RUN-BENCHMARK", &mut nothing);
    play(&mut vm, "BENCHMARK\" 1 2 3\"", &mut nothing);
    play(&mut vm, "RUN-BENCHMARK", &mut nothing);
    assert_eq!(vm.stack, vec![0, 30]);
}

// -----------------------------------------------------------------------
// Goals on a node
// -----------------------------------------------------------------------

fn unit_on_mesh() -> VM {
    let mut vm = machine();
    vm.mesh = Some(MeshNode::start_with_id([1; 8], 4200, &[], 0));
    vm.node_id_cache = Some([1; 8]);
    vm
}

#[test]
fn a_goal_is_claimed_run_and_reported() {
    let mut vm = unit_on_mesh();
    play(&mut vm, "5 GOAL{ 2 3 + }", &mut nothing);
    assert_eq!(vm.stack.len(), 1);
    let goal = vm.stack[0];
    play(&mut vm, "CLAIM", &mut nothing);
    let task = vm.stack[1];
    let m = vm.mesh.as_ref().unwrap();
    assert_eq!(m.goals.goals[0].id as i64, goal);
    let done = &m.goals.tasks[0];
    assert_eq!(done.id as i64, task);
    assert_eq!(done.result.as_ref().unwrap().stack_snapshot, vec![5]);
    assert!(done.result.as_ref().unwrap().success);
}

#[test]
fn auto_claim_runs_tasks_between_lines() {
    let mut vm = unit_on_mesh();
    play(&mut vm, "5 GOAL{ 6 7 * } DROP", &mut nothing);
    play(&mut vm, "AUTO-CLAIM", &mut nothing);
    let before = vm.fitness.score;
    vm.begin_tick();
    let out = finish(&mut vm, &mut |q| match q {
        Request::Incoming => Reply::Done,
        _ => panic!("unexpected request"),
    });
    assert!(out.contains("[auto] claimed task #"));
    let m = vm.mesh.as_ref().unwrap();
    assert_eq!(m.goals.tasks[0].result.as_ref().unwrap().stack_snapshot, vec![42]);
    assert_eq!(vm.fitness.score, before + 15);
}

#[test]
fn a_package_that_arrives_becomes_a_child() {
    let mut vm = unit_on_mesh();
    vm.begin_tick();
    let out = finish(&mut vm, &mut |q| match q {
        Request::Incoming => Reply::Bytes(vec![1, 2, 3]),
        Request::SpawnPackage { package, port, arrived, .. } => {
            assert_eq!(*package, vec![1, 2, 3]);
            assert_eq!(*port, 4200);
            assert!(*arrived);
            Reply::Child { pid: 7, port: 9, id: [5; 8] }
        }
        _ => panic!("unexpected request"),
    });
    assert!(out.contains("[repl] spawned child pid=7 id=0505050505050505\n"));
    assert_eq!(vm.spawn_state.children[0].port, 0);
    assert!(vm.spawn_state.last_spawn.is_none());
}

#[test]
fn browser_goals_reach_the_registry() {
    let mut vm = unit_on_mesh();
    vm.ws_events.push(unit::features::ws_bridge::WsEvent::GoalSubmit { code: "1 2 +".into(), priority: 4 });
    vm.ws_events.push(unit::features::ws_bridge::WsEvent::ClientConnected { id: "b".into() });
    vm.begin_tick();
    let out = finish(&mut vm, &mut |_| Reply::Done);
    assert!(out.contains("from browser: 1 2 +\n"));
    assert!(out.contains("[ws] browser connected: b\n"));
    assert_eq!(vm.mesh.as_ref().unwrap().goals.goals[0].priority, 4);
    assert!(vm.ws_events.is_empty());
    assert!(vm.ws_mesh_json.starts_with("{\"type\":\"mesh_state\",\"self_id\":\"0101010101010101\""));
}

#[test]
fn broadcast_escapes_quotes_only() {
    let mut vm = machine();
    let out = play(&mut vm, "WS-BROADCAST\" a\\b\"", &mut nothing);
    assert_eq!(out, "ws broadcast: a\\b\n");
    assert_eq!(vm.ws_mesh_json, "{\"type\":\"broadcast\",\"message\":\"a\\b\"}");
}

#[test]
fn prompt_depends_on_the_state() {
    let mut vm = machine();
    assert_eq!(vm.prompt(), " ok\n> ");
    play(&mut vm, ": HALF", &mut nothing);
    assert_eq!(vm.prompt(), "  ");
}

#[test]
fn files_are_listed_in_order() {
    let mut vm = VM::new();
    let files = vec!["b.txt".to_string(), "a.txt".to_string(), "a".to_string(), "B".to_string()];
    let out = play(&mut vm, "FILE-LIST\" /tmp\"", &mut |_| Reply::Names(files.clone()));
    assert_eq!(out, "  B\n  a\n  a.txt\n  b.txt\n");
}

#[test]
fn search_for_a_process() {
    assert_eq!(process_search("sshd"), "pgrep -x sshd >/dev/null 2>&1 && echo UP || echo DOWN");
}

#[test]
fn proposals_are_numbered_by_the_nanosecond() {
    let mut numbers: Vec<u64> = Vec::new();
    for nanos in [1_700_000_000_005_000_017, 1_700_000_000_005_000_018] {
        let mut vm = machine();
        let seed = Addr::V4 { ip: LOCALHOST, port: 4300 };
        vm.mesh = Some(MeshNode::start_with_id([1; 8], 4200, &[seed], 0));
        vm.begin_line("PROPOSE");
        for _ in 0..10_000 {
            vm.step(Time { now: 5, epoch: 1_700_000_000_005, nanos });
        }
        assert_eq!(shown(&mut vm).contains("PROPOSE: proposal submitted to mesh"), true);
        numbers.push(vm.mesh.as_ref().unwrap().proposals[0].id);
    }
    assert_eq!(numbers, vec![1_700_000_000_005_000_017, 1_700_000_000_005_000_018]);
}

#[test]
fn one_reading_gives_milliseconds_and_nanoseconds() {
    let t = machine().read_time();
    assert!(t.epoch > 1_500_000_000_000);
    assert_eq!(t.nanos / 1_000_000, t.epoch);
}
