//! What each built-in word does, by its name.

use crate::mesh::node::TrustLevel;
use crate::vm::base;
use crate::vm::bridge;
use crate::vm::checks;
use crate::vm::compile;
use crate::vm::dispatch;
use crate::vm::evolve;
use crate::vm::family;
use crate::vm::goal_words;
use crate::vm::host;
use crate::vm::keep;
use crate::vm::machine;
use crate::vm::net;
use crate::vm::net::Switch;
use crate::vm::ops;
use crate::vm::sandbox;
use crate::vm::state::{Time, VmV};
use crate::vm::table;
use crate::vm::trials;
use crate::vm::words;
use crate::vm::words::Binary;
use vstd::prelude::*;

verus! {

/// True if the built-in word at this place of the list has this name, and is run while compiling or
/// not.
pub open spec fn called(i: int, name: Seq<char>, at_once: bool) -> bool {
    table::builtin(i).0 == name && table::builtin(i).2 == at_once
}

/// The machine after the built-in word at this place of the list.
pub open spec fn done_by(i: int, v: VmV, t: Time) -> VmV {
    dispatch::primitive(v, table::builtin(i).1, t)
}

/// The words of the stack, of arithmetic and of output.
#[verifier::spinoff_prover]
#[verifier::rlimit(40)]
pub proof fn law_stack_names(v: VmV, t: Time)
    ensures
        called(0, "DUP"@, false) && done_by(0, v, t) == words::p_dup(v),
        called(1, "DROP"@, false) && done_by(1, v, t) == words::p_drop(v),
        called(2, "SWAP"@, false) && done_by(2, v, t) == words::p_swap(v),
        called(3, "OVER"@, false) && done_by(3, v, t) == words::p_over(v),
        called(4, "ROT"@, false) && done_by(4, v, t) == words::p_rot(v),
        called(5, "@"@, false) && done_by(5, v, t) == words::p_fetch(v),
        called(6, "!"@, false) && done_by(6, v, t) == words::p_store(v),
        called(7, "+"@, false) && done_by(7, v, t) == words::p_binary(v, Binary::Plus),
        called(8, "-"@, false) && done_by(8, v, t) == words::p_binary(v, Binary::Minus),
        called(9, "*"@, false) && done_by(9, v, t) == words::p_binary(v, Binary::Times),
        called(10, "/"@, false) && done_by(10, v, t) == words::p_div(v),
        called(11, "MOD"@, false) && done_by(11, v, t) == words::p_mod(v),
        called(12, "="@, false) && done_by(12, v, t) == words::p_binary(v, Binary::Equal),
        called(13, "<"@, false) && done_by(13, v, t) == words::p_binary(v, Binary::Less),
        called(14, ">"@, false) && done_by(14, v, t) == words::p_binary(v, Binary::Greater),
        called(15, "AND"@, false) && done_by(15, v, t) == words::p_binary(v, Binary::Both),
        called(16, "OR"@, false) && done_by(16, v, t) == words::p_binary(v, Binary::Either),
        called(17, "NOT"@, false) && done_by(17, v, t) == words::p_not(v),
        called(18, "EMIT"@, false) && done_by(18, v, t) == words::p_emit(v),
        called(19, "KEY"@, false) && done_by(19, v, t) == host::p_key(v),
        called(20, "CR"@, false) && done_by(20, v, t) == base::emit(v, "\n"@),
        called(21, "."@, false) && done_by(21, v, t) == words::p_dot(v),
        called(22, ".S"@, false) && done_by(22, v, t) == words::p_dot_s(v),
{
    reveal(dispatch::stack_word);
    reveal(dispatch::primitive);
}

/// The words that define words and those that lead through them.
#[verifier::spinoff_prover]
#[verifier::rlimit(40)]
pub proof fn law_defining_names(v: VmV, t: Time)
    ensures
        called(23, ":"@, false) && done_by(23, v, t) == compile::p_colon(v),
        called(24, ";"@, true) && done_by(24, v, t) == compile::p_semicolon(v),
        called(25, "CREATE"@, false) && done_by(25, v, t) == compile::p_create(v),
        called(26, "DOES>"@, true) && done_by(26, v, t) == v,
        called(27, "VARIABLE"@, false) && done_by(27, v, t) == compile::p_variable(v),
        called(28, "CONSTANT"@, false) && done_by(28, v, t) == compile::p_constant(v),
        called(29, "IF"@, true) && done_by(29, v, t) == compile::p_if(v),
        called(30, "ELSE"@, true) && done_by(30, v, t) == compile::p_else(v),
        called(31, "THEN"@, true) && done_by(31, v, t) == compile::p_then(v),
        called(32, "DO"@, true) && done_by(32, v, t) == compile::p_do(v),
        called(33, "LOOP"@, true) && done_by(33, v, t) == compile::p_loop(v),
        called(34, "BEGIN"@, true) && done_by(34, v, t) == compile::p_begin(v),
        called(35, "UNTIL"@, true) && done_by(35, v, t) == compile::p_until(v),
        called(36, "WHILE"@, true) && done_by(36, v, t) == compile::p_while(v),
        called(37, "REPEAT"@, true) && done_by(37, v, t) == compile::p_repeat(v),
        called(38, ".\""@, true) && done_by(38, v, t) == compile::p_dot_quote(v),
        called(39, "("@, true) && done_by(39, v, t) == compile::p_paren(v),
        called(40, "\\"@, true) && done_by(40, v, t) == compile::p_backslash(v),
        called(41, "WORDS"@, false) && done_by(41, v, t) == words::p_words(v),
        called(42, "SEE"@, false) && done_by(42, v, t) == words::p_see(v),
        called(43, "QUIT"@, false) && done_by(43, v, t) == words::p_quit(v),
        called(44, "BYE"@, false) && done_by(44, v, t) == keep::p_bye(v),
{
    reveal(dispatch::defining_word);
    reveal(dispatch::primitive);
}

/// The words of the mesh.
#[verifier::spinoff_prover]
#[verifier::rlimit(40)]
pub proof fn law_mesh_names(v: VmV, t: Time)
    ensures
        called(45, "SEND"@, false) && done_by(45, v, t) == net::p_send(v),
        called(46, "RECV"@, false) && done_by(46, v, t) == net::p_recv(v),
        called(47, "PEERS"@, false) && done_by(47, v, t) == net::p_peers(v),
        called(48, "REPLICATE"@, false) && done_by(48, v, t) == net::p_replicate(v),
        called(49, "MUTATE"@, false) && done_by(49, v, t) == net::p_mutate(v),
        called(50, "RECURSE"@, true) && done_by(50, v, t) == compile::p_recurse(v),
        called(51, "MESH-STATUS"@, false) && done_by(51, v, t) == net::p_mesh_status(v, t),
        called(52, "PROPOSE"@, false) && done_by(52, v, t) == net::p_propose(v, t),
        called(53, "LOAD"@, false) && done_by(53, v, t) == net::p_load(v),
        called(54, "CAPACITY"@, false) && done_by(54, v, t) == net::p_capacity(v),
        called(55, "ID"@, false) && done_by(55, v, t) == net::p_id(v),
        called(56, "TYPE"@, false) && done_by(56, v, t) == net::p_type(v),
{
    reveal(dispatch::mesh_word);
    reveal(dispatch::primitive);
}

/// The words of goals and tasks.
#[verifier::spinoff_prover]
#[verifier::rlimit(40)]
pub proof fn law_goal_names(v: VmV, t: Time)
    ensures
        called(57, "GOAL\""@, true) && done_by(57, v, t) == goal_words::p_goal(v, t),
        called(58, "GOALS"@, false) && done_by(58, v, t) == goal_words::p_goals(v),
        called(59, "TASKS"@, false) && done_by(59, v, t) == goal_words::p_tasks(v),
        called(60, "TASK-STATUS"@, false) && done_by(60, v, t) == goal_words::p_task_status(v),
        called(61, "CANCEL"@, false) && done_by(61, v, t) == goal_words::p_cancel(v),
        called(62, "STEER"@, false) && done_by(62, v, t) == goal_words::p_steer(v),
        called(63, "REPORT"@, false) && done_by(63, v, t) == goal_words::p_report(v),
        called(64, "CLAIM"@, false) && done_by(64, v, t) == sandbox::p_claim(v, t),
        called(65, "COMPLETE"@, false) && done_by(65, v, t) == goal_words::p_complete(v),
        called(66, "GOAL{"@, true) && done_by(66, v, t) == goal_words::p_goal_exec(v, t),
        called(67, "EVAL\""@, true) && done_by(67, v, t) == goal_words::p_eval(v),
        called(68, "RESULT"@, false) && done_by(68, v, t) == goal_words::p_result(v),
        called(69, "AUTO-CLAIM"@, false) && done_by(69, v, t) == goal_words::p_auto_claim(v),
        called(70, "TIMEOUT"@, false) && done_by(70, v, t) == goal_words::p_timeout(v),
        called(71, "GOAL-RESULT"@, false) && done_by(71, v, t) == goal_words::p_goal_result(v),
{
    reveal(dispatch::goal_word);
    reveal(dispatch::primitive);
}

/// The words that ask the host.
#[verifier::spinoff_prover]
#[verifier::rlimit(40)]
pub proof fn law_host_names(v: VmV, t: Time)
    ensures
        called(72, "FILE-READ\""@, true) && done_by(72, v, t) == host::p_io(v, 0),
        called(73, "FILE-WRITE\""@, true) && done_by(73, v, t) == host::p_io(v, 1),
        called(74, "FILE-EXISTS\""@, true) && done_by(74, v, t) == host::p_io(v, 2),
        called(75, "FILE-LIST\""@, true) && done_by(75, v, t) == host::p_io(v, 3),
        called(76, "FILE-DELETE\""@, true) && done_by(76, v, t) == host::p_io(v, 4),
        called(77, "HTTP-GET\""@, true) && done_by(77, v, t) == host::p_io(v, 5),
        called(78, "HTTP-POST\""@, true) && done_by(78, v, t) == host::p_io(v, 6),
        called(79, "SHELL\""@, true) && done_by(79, v, t) == host::p_io(v, 7),
        called(80, "ENV\""@, true) && done_by(80, v, t) == host::p_io(v, 8),
        called(81, "TIMESTAMP"@, false) && done_by(81, v, t) == host::p_timestamp(v, t),
        called(82, "SLEEP"@, false) && done_by(82, v, t) == host::p_sleep(v),
        called(83, "SANDBOX-ON"@, false) && done_by(83, v, t) == host::p_sandbox(v, true),
        called(84, "SANDBOX-OFF"@, false) && done_by(84, v, t) == host::p_sandbox(v, false),
        called(85, "IO-LOG"@, false) && done_by(85, v, t) == host::p_io_log(v),
{
    reveal(dispatch::host_word);
    reveal(dispatch::primitive);
}

/// The words of scores and changes.
#[verifier::spinoff_prover]
#[verifier::rlimit(40)]
pub proof fn law_evolution_names(v: VmV, t: Time)
    ensures
        called(86, "MUTATE"@, false) && done_by(86, v, t) == evolve::p_mutate_rand(v),
        called(87, "MUTATE-WORD\""@, true) && done_by(87, v, t) == evolve::p_mutate_word(v),
        called(88, "UNDO-MUTATE"@, false) && done_by(88, v, t) == evolve::p_undo(v),
        called(89, "MUTATIONS"@, false) && done_by(89, v, t) == evolve::p_mutations(v),
        called(90, "FITNESS"@, false) && done_by(90, v, t) == evolve::p_fitness(v),
        called(91, "LEADERBOARD"@, false) && done_by(91, v, t) == evolve::p_leaderboard(v),
        called(92, "RATE"@, false) && done_by(92, v, t) == evolve::p_rate(v),
        called(93, "EVOLVE"@, false) && done_by(93, v, t) == trials::p_evolve(v, t),
        called(94, "AUTO-EVOLVE"@, false) && done_by(94, v, t) == evolve::p_auto_evolve(v),
        called(95, "BENCHMARK\""@, true) && done_by(95, v, t) == evolve::p_benchmark(v),
        called(96, "TRUST"@, false) && done_by(96, v, t) == host::p_trust(v),
        called(97, "TRUST-ALL"@, false) && done_by(97, v, t) == host::p_trust_clear(v, true),
        called(98, "TRUST-NONE"@, false) && done_by(98, v, t) == host::p_trust_clear(v, false),
        called(99, "SHELL-ENABLE"@, false) && done_by(99, v, t) == host::p_shell_enable(v),
{
    reveal(dispatch::evolution_word);
    reveal(dispatch::primitive);
}

/// The words that keep a machine and bring it back.
#[verifier::spinoff_prover]
#[verifier::rlimit(40)]
pub proof fn law_keeping_names(v: VmV, t: Time)
    ensures
        called(100, "REIDENTIFY"@, false) && done_by(100, v, t) == keep::p_reidentify(v),
        called(101, "SAVE"@, false) && done_by(101, v, t) == keep::p_save(v),
        called(102, "LOAD-STATE"@, false) && done_by(102, v, t) == keep::p_load_state(v),
        called(103, "AUTO-SAVE"@, false) && done_by(103, v, t) == keep::p_auto_save(v),
        called(104, "RESET"@, false) && done_by(104, v, t) == keep::p_reset(v),
        called(105, "SNAPSHOTS"@, false) && done_by(105, v, t) == keep::p_snapshots(v),
        called(106, "SNAPSHOT"@, false) && done_by(106, v, t) == keep::p_snapshot(v, t),
        called(107, "RESTORE"@, false) && done_by(107, v, t) == keep::p_restore(v),
{
    reveal(dispatch::keeping_word);
    reveal(dispatch::primitive);
}

/// The words of loops and of goals that are shared out.
#[verifier::spinoff_prover]
#[verifier::rlimit(40)]
pub proof fn law_loop_names(v: VmV, t: Time)
    ensures
        called(108, "I"@, false) && done_by(108, v, t) == words::p_i(v),
        called(109, "J"@, false) && done_by(109, v, t) == words::p_j(v),
        called(182, "SUBTASK{"@, true) && done_by(182, v, t) == goal_words::p_subtask(v, t),
        called(183, "FORK"@, false) && done_by(183, v, t) == goal_words::p_fork(v, t),
        called(184, "RESULTS"@, false) && done_by(184, v, t) == goal_words::p_results(v),
        called(185, "REDUCE\""@, true) && done_by(185, v, t) == goal_words::p_reduce(v),
        called(186, "PROGRESS"@, false) && done_by(186, v, t) == goal_words::p_progress(v),
{
    reveal(dispatch::loop_word);
    reveal(dispatch::primitive);
}

/// The words of parents and children.
#[verifier::spinoff_prover]
#[verifier::rlimit(40)]
pub proof fn law_family_names(v: VmV, t: Time)
    ensures
        called(110, "SPAWN"@, false) && done_by(110, v, t) == family::p_spawn(v, t),
        called(111, "SPAWN-N"@, false) && done_by(111, v, t) == family::p_spawn_n(v),
        called(112, "PACKAGE"@, false) && done_by(112, v, t) == family::p_package(v),
        called(113, "PACKAGE-SIZE"@, false) && done_by(113, v, t) == family::p_package_size(v),
        called(114, "CHILDREN"@, false) && done_by(114, v, t) == family::p_children(v, t),
        called(115, "FAMILY"@, false) && done_by(115, v, t) == family::p_family(v),
        called(116, "GENERATION"@, false) && done_by(116, v, t) == family::p_generation(v),
        called(117, "KILL-CHILD"@, false) && done_by(117, v, t) == family::p_kill_child(v),
        called(118, "REPLICATE-TO\""@, true) && done_by(118, v, t) == family::p_replicate_to(v),
        called(119, "ACCEPT-REPLICATE"@, false) && done_by(119, v, t) == family::p_accept_replicate(v, true),
        called(120, "DENY-REPLICATE"@, false) && done_by(120, v, t) == family::p_accept_replicate(v, false),
        called(121, "QUARANTINE"@, false) && done_by(121, v, t) == family::p_quarantine(v),
        called(122, "MAX-CHILDREN"@, false) && done_by(122, v, t) == family::p_max_children(v),
{
    reveal(dispatch::family_word);
    reveal(dispatch::primitive);
}

/// The words of watches, alerts and schedules.
#[verifier::spinoff_prover]
#[verifier::rlimit(40)]
pub proof fn law_watch_names(v: VmV, t: Time)
    ensures
        called(123, "WATCH\""@, true) && done_by(123, v, t) == ops::p_watch(v, 0, t),
        called(124, "WATCH-FILE\""@, true) && done_by(124, v, t) == ops::p_watch(v, 1, t),
        called(125, "WATCH-PROC\""@, true) && done_by(125, v, t) == ops::p_watch(v, 2, t),
        called(126, "WATCHES"@, false) && done_by(126, v, t) == ops::p_watches(v, t),
        called(127, "UNWATCH"@, false) && done_by(127, v, t) == ops::p_unwatch(v),
        called(128, "WATCH-LOG"@, false) && done_by(128, v, t) == ops::p_watch_log(v),
        called(129, "ON-ALERT\""@, true) && done_by(129, v, t) == ops::p_on_alert(v),
        called(130, "ALERTS"@, false) && done_by(130, v, t) == ops::p_alerts(v),
        called(131, "ACK"@, false) && done_by(131, v, t) == ops::p_ack(v),
        called(132, "ALERT-HISTORY"@, false) && done_by(132, v, t) == ops::p_alert_history(v),
        called(133, "DASHBOARD"@, false) && done_by(133, v, t) == ops::p_dashboard(v),
        called(134, "HEALTH"@, false) && done_by(134, v, t) == ops::p_health(v),
        called(135, "UPTIME"@, false) && done_by(135, v, t) == ops::p_uptime(v),
        called(136, "EVERY"@, false) && done_by(136, v, t) == ops::p_every(v),
        called(137, "SCHEDULE"@, false) && done_by(137, v, t) == ops::p_schedule(v, t),
        called(138, "UNSCHED"@, false) && done_by(138, v, t) == ops::p_unsched(v),
        called(139, "HEAL"@, false) && done_by(139, v, t) == checks::p_heal(v, t),
        called(140, "HEALTH-PORT"@, false) && done_by(140, v, t) == ops::p_health_port(v),
        called(141, "ALERT-THRESHOLD"@, true) && done_by(141, v, t) == ops::p_alert_threshold(v),
{
    reveal(dispatch::watch_word);
    reveal(dispatch::primitive);
}

/// The words of the bridge.
#[verifier::spinoff_prover]
#[verifier::rlimit(40)]
pub proof fn law_bridge_names(v: VmV, t: Time)
    ensures
        called(142, "WS-STATUS"@, false) && done_by(142, v, t) == bridge::p_ws_status(v),
        called(143, "WS-CLIENTS"@, false) && done_by(143, v, t) == bridge::p_ws_clients(v, t),
        called(144, "WS-PORT"@, false) && done_by(144, v, t) == bridge::p_ws_port(v),
        called(145, "WS-BROADCAST\""@, true) && done_by(145, v, t) == bridge::p_ws_broadcast(v),
{
    reveal(dispatch::bridge_word);
    reveal(dispatch::primitive);
}

/// The words of the swarm.
#[verifier::spinoff_prover]
#[verifier::rlimit(40)]
pub proof fn law_swarm_names(v: VmV, t: Time)
    ensures
        called(146, "DISCOVER"@, false) && done_by(146, v, t) == net::p_discover(v),
        called(147, "AUTO-DISCOVER"@, false) && done_by(147, v, t) == net::p_switch(v, Switch::Discover),
        called(148, "SHARE\""@, true) && done_by(148, v, t) == net::p_share(v),
        called(149, "SHARE-ALL"@, false) && done_by(149, v, t) == net::p_share_all(v),
        called(150, "AUTO-SHARE"@, false) && done_by(150, v, t) == net::p_switch(v, Switch::Share),
        called(151, "SHARED-WORDS"@, false) && done_by(151, v, t) == net::p_shared_words(v),
        called(152, "AUTO-SPAWN"@, false) && done_by(152, v, t) == net::p_switch(v, Switch::Spawn),
        called(153, "AUTO-CULL"@, false) && done_by(153, v, t) == net::p_switch(v, Switch::Cull),
        called(154, "MIN-UNITS"@, false) && done_by(154, v, t) == net::p_min_units(v),
        called(155, "MAX-UNITS"@, false) && done_by(155, v, t) == net::p_max_units(v),
        called(156, "SWARM-STATUS"@, false) && done_by(156, v, t) == net::p_swarm_status(v),
{
    reveal(dispatch::swarm_word);
    reveal(dispatch::primitive);
}

/// The words of trust and consent.
#[verifier::spinoff_prover]
#[verifier::rlimit(40)]
pub proof fn law_consent_names(v: VmV, t: Time)
    ensures
        called(157, "TRUST-ALL"@, false) && done_by(157, v, t) == net::p_set_trust(v, TrustLevel::All),
        called(158, "TRUST-MESH"@, false) && done_by(158, v, t) == net::p_set_trust(v, TrustLevel::Mesh),
        called(159, "TRUST-FAMILY"@, false) && done_by(159, v, t) == net::p_set_trust(v, TrustLevel::Family),
        called(160, "TRUST-NONE"@, false) && done_by(160, v, t) == net::p_set_trust(v, TrustLevel::Nobody),
        called(161, "TRUST-LEVEL"@, false) && done_by(161, v, t) == net::p_trust_level(v),
        called(162, "REQUESTS"@, false) && done_by(162, v, t) == net::p_requests(v, t),
        called(163, "ACCEPT"@, false) && done_by(163, v, t) == net::p_accept(v, t),
        called(164, "DENY"@, false) && done_by(164, v, t) == net::p_deny(v, t),
        called(165, "DENY-ALL"@, false) && done_by(165, v, t) == net::p_deny_all(v, t),
        called(166, "REPLICATION-LOG"@, false) && done_by(166, v, t) == net::p_replication_log(v),
{
    reveal(dispatch::consent_word);
    reveal(dispatch::primitive);
}

/// The words of trials, and those that count.
#[verifier::spinoff_prover]
#[verifier::rlimit(40)]
pub proof fn law_count_names(v: VmV, t: Time)
    ensures
        called(167, "GOAL-COUNT"@, false) && done_by(167, v, t) == net::p_goal_count(v),
        called(168, "TASK-COUNT"@, false) && done_by(168, v, t) == net::p_task_count(v),
        called(169, "WATCH-COUNT"@, false) && done_by(169, v, t) == ops::p_watch_count(v),
        called(170, "ALERT-COUNT"@, false) && done_by(170, v, t) == ops::p_alert_count(v),
        called(171, "CHILD-COUNT"@, false) && done_by(171, v, t) == family::p_child_count(v),
        called(172, "MESH-AVG-FITNESS"@, false) && done_by(172, v, t) == net::p_mesh_average(v),
        called(173, "CHECK-WATCHES"@, false) && done_by(173, v, t) == checks::p_check_watches(v, t),
        called(174, "RUN-HANDLERS"@, false) && done_by(174, v, t) == checks::p_run_handlers(v),
        called(175, "RUN-BENCHMARK"@, false) && done_by(175, v, t) == trials::p_run_benchmark(v, t),
        called(176, "MUTATE-RANDOM"@, false) && done_by(176, v, t) == evolve::p_mutate_random(v),
        called(177, "UNDO-LAST-MUTATION"@, false) && done_by(177, v, t) == evolve::p_undo(v),
        called(178, "PEER-COUNT"@, false) && done_by(178, v, t) == ops::p_peer_count(v),
        called(179, "SMART-MUTATE"@, false) && done_by(179, v, t) == trials::p_smart_mutate(v),
        called(180, "MUTATION-REPORT"@, false) && done_by(180, v, t) == trials::p_mutation_report(v),
        called(181, "MUTATION-STATS"@, false) && done_by(181, v, t) == trials::p_mutation_stats(v),
{
    reveal(dispatch::count_word);
    reveal(dispatch::primitive);
}

/// A built-in word does the same in a body as when it is typed.
#[verifier::spinoff_prover]
#[verifier::rlimit(40)]
pub proof fn law_compiled_words(v: VmV, i: int, t: Time)
    requires
        0 <= i < 187,
    ensures
        machine::run_time(v, table::builtin(i).1, t) == done_by(i, v, t),
{
    reveal(machine::run_time);
}

} // verus!
