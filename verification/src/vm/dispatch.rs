//! From the number of a built-in word to what it does.

use crate::mesh::node::TrustLevel;
use crate::text;
use crate::text::{push_usize, text};
use crate::vm::base;
use crate::vm::bridge;
use crate::vm::checks;
use crate::vm::compile;
use crate::vm::evolve;
use crate::vm::family;
use crate::vm::goal_words;
use crate::vm::host;
use crate::vm::keep;
use crate::vm::net;
use crate::vm::net::Switch;
use crate::vm::ops;
use crate::vm::sandbox;
use crate::vm::state::{Time, VmV, VM};
use crate::vm::trials;
use crate::vm::words;
use crate::vm::words::Binary;
use vstd::prelude::*;

verus! {

/// The machine after a number that no built-in word has.
#[verifier::opaque]
pub open spec fn unknown(v: VmV, id: usize) -> VmV {
    base::complained(v, "unknown primitive "@ + text::dec(id as nat) + "\n"@)
}

/// Stack, arithmetic and output.
#[verifier::opaque]
pub open spec fn stack_word(v: VmV, id: usize, t: Time) -> VmV {
    if id == 0 {
        words::p_dup(v)
    } else if id == 1 {
        words::p_drop(v)
    } else if id == 2 {
        words::p_swap(v)
    } else if id == 3 {
        words::p_over(v)
    } else if id == 4 {
        words::p_rot(v)
    } else if id == 5 {
        words::p_fetch(v)
    } else if id == 6 {
        words::p_store(v)
    } else if id == 7 {
        words::p_binary(v, Binary::Plus)
    } else if id == 8 {
        words::p_binary(v, Binary::Minus)
    } else if id == 9 {
        words::p_binary(v, Binary::Times)
    } else if id == 10 {
        words::p_div(v)
    } else if id == 11 {
        words::p_mod(v)
    } else if id == 12 {
        words::p_binary(v, Binary::Equal)
    } else if id == 13 {
        words::p_binary(v, Binary::Less)
    } else if id == 14 {
        words::p_binary(v, Binary::Greater)
    } else if id == 15 {
        words::p_binary(v, Binary::Both)
    } else if id == 16 {
        words::p_binary(v, Binary::Either)
    } else if id == 17 {
        words::p_not(v)
    } else if id == 18 {
        words::p_emit(v)
    } else if id == 19 {
        host::p_key(v)
    } else if id == 20 {
        base::emit(v, "\n"@)
    } else if id == 21 {
        words::p_dot(v)
    } else if id == 22 {
        words::p_dot_s(v)
    } else {
        unknown(v, id)
    }
}

/// Definitions, comments and the end of a session.
#[verifier::opaque]
pub open spec fn defining_word(v: VmV, id: usize, t: Time) -> VmV {
    if id == 23 {
        compile::p_colon(v)
    } else if id == 24 {
        compile::p_semicolon(v)
    } else if id == 25 {
        compile::p_create(v)
    } else if id == 26 {
        v
    } else if id == 27 {
        compile::p_variable(v)
    } else if id == 28 {
        compile::p_constant(v)
    } else if id == 29 {
        compile::p_if(v)
    } else if id == 30 {
        compile::p_else(v)
    } else if id == 31 {
        compile::p_then(v)
    } else if id == 32 {
        compile::p_do(v)
    } else if id == 33 {
        compile::p_loop(v)
    } else if id == 34 {
        compile::p_begin(v)
    } else if id == 35 {
        compile::p_until(v)
    } else if id == 36 {
        compile::p_while(v)
    } else if id == 37 {
        compile::p_repeat(v)
    } else if id == 38 {
        compile::p_dot_quote(v)
    } else if id == 39 {
        compile::p_paren(v)
    } else if id == 40 {
        compile::p_backslash(v)
    } else if id == 41 {
        words::p_words(v)
    } else if id == 42 {
        words::p_see(v)
    } else if id == 43 {
        words::p_quit(v)
    } else if id == 44 {
        keep::p_bye(v)
    } else {
        unknown(v, id)
    }
}

/// The mesh.
#[verifier::opaque]
pub open spec fn mesh_word(v: VmV, id: usize, t: Time) -> VmV {
    if id == 45 {
        net::p_send(v)
    } else if id == 46 {
        net::p_recv(v)
    } else if id == 47 {
        net::p_peers(v)
    } else if id == 48 {
        net::p_replicate(v)
    } else if id == 49 {
        net::p_mutate(v)
    } else if id == 50 {
        compile::p_recurse(v)
    } else if id == 51 {
        net::p_mesh_status(v, t)
    } else if id == 52 {
        net::p_propose(v, t)
    } else if id == 53 {
        net::p_load(v)
    } else if id == 54 {
        net::p_capacity(v)
    } else if id == 55 {
        net::p_id(v)
    } else if id == 56 {
        net::p_type(v)
    } else {
        unknown(v, id)
    }
}

/// Goals and tasks.
#[verifier::opaque]
pub open spec fn goal_word(v: VmV, id: usize, t: Time) -> VmV {
    if id == 57 {
        goal_words::p_goal(v, t)
    } else if id == 58 {
        goal_words::p_goals(v)
    } else if id == 59 {
        goal_words::p_tasks(v)
    } else if id == 60 {
        goal_words::p_task_status(v)
    } else if id == 61 {
        goal_words::p_cancel(v)
    } else if id == 62 {
        goal_words::p_steer(v)
    } else if id == 63 {
        goal_words::p_report(v)
    } else if id == 64 {
        sandbox::p_claim(v, t)
    } else if id == 65 {
        goal_words::p_complete(v)
    } else if id == 66 {
        goal_words::p_goal_exec(v, t)
    } else if id == 67 {
        goal_words::p_eval(v)
    } else if id == 68 {
        goal_words::p_result(v)
    } else if id == 69 {
        goal_words::p_auto_claim(v)
    } else if id == 70 {
        goal_words::p_timeout(v)
    } else if id == 71 {
        goal_words::p_goal_result(v)
    } else {
        unknown(v, id)
    }
}

/// The host.
#[verifier::opaque]
pub open spec fn host_word(v: VmV, id: usize, t: Time) -> VmV {
    if id == 72 {
        host::p_io(v, 0)
    } else if id == 73 {
        host::p_io(v, 1)
    } else if id == 74 {
        host::p_io(v, 2)
    } else if id == 75 {
        host::p_io(v, 3)
    } else if id == 76 {
        host::p_io(v, 4)
    } else if id == 77 {
        host::p_io(v, 5)
    } else if id == 78 {
        host::p_io(v, 6)
    } else if id == 79 {
        host::p_io(v, 7)
    } else if id == 80 {
        host::p_io(v, 8)
    } else if id == 81 {
        host::p_timestamp(v, t)
    } else if id == 82 {
        host::p_sleep(v)
    } else if id == 83 {
        host::p_sandbox(v, true)
    } else if id == 84 {
        host::p_sandbox(v, false)
    } else if id == 85 {
        host::p_io_log(v)
    } else {
        unknown(v, id)
    }
}

/// Mutation, fitness and trust.
#[verifier::opaque]
pub open spec fn evolution_word(v: VmV, id: usize, t: Time) -> VmV {
    if id == 86 {
        evolve::p_mutate_rand(v)
    } else if id == 87 {
        evolve::p_mutate_word(v)
    } else if id == 88 {
        evolve::p_undo(v)
    } else if id == 89 {
        evolve::p_mutations(v)
    } else if id == 90 {
        evolve::p_fitness(v)
    } else if id == 91 {
        evolve::p_leaderboard(v)
    } else if id == 92 {
        evolve::p_rate(v)
    } else if id == 93 {
        trials::p_evolve(v, t)
    } else if id == 94 {
        evolve::p_auto_evolve(v)
    } else if id == 95 {
        evolve::p_benchmark(v)
    } else if id == 96 {
        host::p_trust(v)
    } else if id == 97 {
        host::p_trust_clear(v, true)
    } else if id == 98 {
        host::p_trust_clear(v, false)
    } else if id == 99 {
        host::p_shell_enable(v)
    } else {
        unknown(v, id)
    }
}

/// Identity and persistence.
#[verifier::opaque]
pub open spec fn keeping_word(v: VmV, id: usize, t: Time) -> VmV {
    if id == 199 {
        keep::p_reidentify(v)
    } else if id == 200 {
        keep::p_save(v)
    } else if id == 201 {
        keep::p_load_state(v)
    } else if id == 202 {
        keep::p_auto_save(v)
    } else if id == 203 {
        keep::p_reset(v)
    } else if id == 204 {
        keep::p_snapshots(v)
    } else if id == 205 {
        keep::p_snapshot(v, t)
    } else if id == 206 {
        keep::p_restore(v)
    } else {
        unknown(v, id)
    }
}

/// Subtasks and loop indices.
#[verifier::opaque]
pub open spec fn loop_word(v: VmV, id: usize, t: Time) -> VmV {
    if id == 210 {
        goal_words::p_subtask(v, t)
    } else if id == 211 {
        goal_words::p_fork(v, t)
    } else if id == 212 {
        goal_words::p_results(v)
    } else if id == 213 {
        goal_words::p_reduce(v)
    } else if id == 214 {
        goal_words::p_progress(v)
    } else if id == 215 {
        words::p_i(v)
    } else if id == 216 {
        words::p_j(v)
    } else {
        unknown(v, id)
    }
}

/// Children and packages.
#[verifier::opaque]
pub open spec fn family_word(v: VmV, id: usize, t: Time) -> VmV {
    if id == 220 {
        family::p_spawn(v, t)
    } else if id == 221 {
        family::p_spawn_n(v)
    } else if id == 222 {
        family::p_package(v)
    } else if id == 223 {
        family::p_package_size(v)
    } else if id == 224 {
        family::p_children(v, t)
    } else if id == 225 {
        family::p_family(v)
    } else if id == 226 {
        family::p_generation(v)
    } else if id == 227 {
        family::p_kill_child(v)
    } else if id == 228 {
        family::p_replicate_to(v)
    } else if id == 229 {
        family::p_accept_replicate(v, true)
    } else if id == 230 {
        family::p_accept_replicate(v, false)
    } else if id == 231 {
        family::p_quarantine(v)
    } else if id == 232 {
        family::p_max_children(v)
    } else {
        unknown(v, id)
    }
}

/// Watches, alerts and schedules.
#[verifier::opaque]
pub open spec fn watch_word(v: VmV, id: usize, t: Time) -> VmV {
    if id == 300 {
        ops::p_watch(v, 0, t)
    } else if id == 301 {
        ops::p_watch(v, 1, t)
    } else if id == 302 {
        ops::p_watch(v, 2, t)
    } else if id == 303 {
        ops::p_watches(v, t)
    } else if id == 304 {
        ops::p_unwatch(v)
    } else if id == 305 {
        ops::p_watch_log(v)
    } else if id == 306 {
        ops::p_on_alert(v)
    } else if id == 307 {
        ops::p_alerts(v)
    } else if id == 308 {
        ops::p_ack(v)
    } else if id == 309 {
        ops::p_alert_history(v)
    } else if id == 310 {
        ops::p_dashboard(v)
    } else if id == 311 {
        ops::p_health(v)
    } else if id == 312 {
        ops::p_uptime(v)
    } else if id == 313 {
        ops::p_every(v)
    } else if id == 314 {
        ops::p_schedule(v, t)
    } else if id == 315 {
        ops::p_unsched(v)
    } else if id == 316 {
        checks::p_heal(v, t)
    } else if id == 317 {
        ops::p_health_port(v)
    } else if id == 318 {
        ops::p_alert_threshold(v)
    } else {
        unknown(v, id)
    }
}

/// The WebSocket bridge.
#[verifier::opaque]
pub open spec fn bridge_word(v: VmV, id: usize, t: Time) -> VmV {
    if id == 320 {
        bridge::p_ws_status(v)
    } else if id == 321 {
        bridge::p_ws_clients(v, t)
    } else if id == 322 {
        bridge::p_ws_port(v)
    } else if id == 323 {
        bridge::p_ws_broadcast(v)
    } else {
        unknown(v, id)
    }
}

/// The swarm.
#[verifier::opaque]
pub open spec fn swarm_word(v: VmV, id: usize, t: Time) -> VmV {
    if id == 330 {
        net::p_discover(v)
    } else if id == 331 {
        net::p_switch(v, Switch::Discover)
    } else if id == 332 {
        net::p_share(v)
    } else if id == 333 {
        net::p_share_all(v)
    } else if id == 334 {
        net::p_switch(v, Switch::Share)
    } else if id == 335 {
        net::p_shared_words(v)
    } else if id == 336 {
        net::p_switch(v, Switch::Spawn)
    } else if id == 337 {
        net::p_switch(v, Switch::Cull)
    } else if id == 338 {
        net::p_min_units(v)
    } else if id == 339 {
        net::p_max_units(v)
    } else if id == 340 {
        net::p_swarm_status(v)
    } else {
        unknown(v, id)
    }
}

/// Consent to replication.
#[verifier::opaque]
pub open spec fn consent_word(v: VmV, id: usize, t: Time) -> VmV {
    if id == 350 {
        net::p_set_trust(v, TrustLevel::All)
    } else if id == 351 {
        net::p_set_trust(v, TrustLevel::Mesh)
    } else if id == 352 {
        net::p_set_trust(v, TrustLevel::Family)
    } else if id == 353 {
        net::p_set_trust(v, TrustLevel::Nobody)
    } else if id == 354 {
        net::p_trust_level(v)
    } else if id == 355 {
        net::p_requests(v, t)
    } else if id == 356 {
        net::p_accept(v, t)
    } else if id == 357 {
        net::p_deny(v, t)
    } else if id == 358 {
        net::p_deny_all(v, t)
    } else if id == 359 {
        net::p_replication_log(v)
    } else {
        unknown(v, id)
    }
}

/// Plain numbers and single steps.
#[verifier::opaque]
pub open spec fn count_word(v: VmV, id: usize, t: Time) -> VmV {
    if id == 400 {
        net::p_goal_count(v)
    } else if id == 401 {
        net::p_task_count(v)
    } else if id == 402 {
        ops::p_watch_count(v)
    } else if id == 403 {
        ops::p_alert_count(v)
    } else if id == 404 {
        family::p_child_count(v)
    } else if id == 405 {
        net::p_mesh_average(v)
    } else if id == 406 {
        checks::p_check_watches(v, t)
    } else if id == 407 {
        checks::p_run_handlers(v)
    } else if id == 408 {
        trials::p_run_benchmark(v, t)
    } else if id == 409 {
        evolve::p_mutate_random(v)
    } else if id == 410 {
        evolve::p_undo(v)
    } else if id == 411 {
        ops::p_peer_count(v)
    } else if id == 412 {
        trials::p_smart_mutate(v)
    } else if id == 413 {
        trials::p_mutation_report(v)
    } else if id == 414 {
        trials::p_mutation_stats(v)
    } else {
        unknown(v, id)
    }
}

/// What the built-in word with this number does.
#[verifier::opaque]
pub open spec fn primitive(v: VmV, id: usize, t: Time) -> VmV {
    if id <= 22 {
        stack_word(v, id, t)
    } else if id <= 44 {
        defining_word(v, id, t)
    } else if id <= 56 {
        mesh_word(v, id, t)
    } else if id <= 71 {
        goal_word(v, id, t)
    } else if id <= 85 {
        host_word(v, id, t)
    } else if id <= 99 {
        evolution_word(v, id, t)
    } else if id <= 206 {
        keeping_word(v, id, t)
    } else if id <= 216 {
        loop_word(v, id, t)
    } else if id <= 232 {
        family_word(v, id, t)
    } else if id <= 318 {
        watch_word(v, id, t)
    } else if id <= 323 {
        bridge_word(v, id, t)
    } else if id <= 340 {
        swarm_word(v, id, t)
    } else if id <= 359 {
        consent_word(v, id, t)
    } else if id <= 414 {
        count_word(v, id, t)
    } else {
        unknown(v, id)
    }
}

impl VM {
    fn unknown_primitive(&mut self, id: usize)
        ensures
            final(self)@ == unknown(old(self)@, id),
    {
        reveal(unknown);
        let mut s = text("unknown primitive ");
        push_usize(&mut s, id);
        s.append("\n");
        self.complain(s.as_str());
    }

    fn do_stack_word(&mut self, id: usize, t: Time)
        ensures
            final(self)@ == stack_word(old(self)@, id, t),
    {
        reveal(stack_word);
        match id {
            0 => self.prim_dup(),
            1 => self.prim_drop(),
            2 => self.prim_swap(),
            3 => self.prim_over(),
            4 => self.prim_rot(),
            5 => self.prim_fetch(),
            6 => self.prim_store(),
            7 => self.prim_binary(Binary::Plus),
            8 => self.prim_binary(Binary::Minus),
            9 => self.prim_binary(Binary::Times),
            10 => self.prim_div(),
            11 => self.prim_mod(),
            12 => self.prim_binary(Binary::Equal),
            13 => self.prim_binary(Binary::Less),
            14 => self.prim_binary(Binary::Greater),
            15 => self.prim_binary(Binary::Both),
            16 => self.prim_binary(Binary::Either),
            17 => self.prim_not(),
            18 => self.prim_emit(),
            19 => self.prim_key(),
            20 => self.emit_str("\n"),
            21 => self.prim_dot(),
            22 => self.prim_dot_s(),
            _ => self.unknown_primitive(id),
        }
    }

    fn do_defining_word(&mut self, id: usize, t: Time)
        ensures
            final(self)@ == defining_word(old(self)@, id, t),
    {
        reveal(defining_word);
        match id {
            23 => self.prim_colon(),
            24 => self.prim_semicolon(),
            25 => self.prim_create(),
            26 => self.prim_does(),
            27 => self.prim_variable(),
            28 => self.prim_constant(),
            29 => self.prim_if(),
            30 => self.prim_else(),
            31 => self.prim_then(),
            32 => self.prim_do(),
            33 => self.prim_loop(),
            34 => self.prim_begin(),
            35 => self.prim_until(),
            36 => self.prim_while(),
            37 => self.prim_repeat(),
            38 => self.prim_dot_quote(),
            39 => self.prim_paren(),
            40 => self.prim_backslash(),
            41 => self.prim_words(),
            42 => self.prim_see(),
            43 => self.prim_quit(),
            44 => self.prim_bye(),
            _ => self.unknown_primitive(id),
        }
    }

    fn do_mesh_word(&mut self, id: usize, t: Time)
        ensures
            final(self)@ == mesh_word(old(self)@, id, t),
    {
        reveal(mesh_word);
        match id {
            45 => self.prim_send(),
            46 => self.prim_recv(),
            47 => self.prim_peers(),
            48 => self.prim_replicate(),
            49 => self.prim_mutate(),
            50 => self.prim_recurse(),
            51 => self.prim_mesh_status(t),
            52 => self.prim_propose(t),
            53 => self.prim_mesh_load(),
            54 => self.prim_mesh_capacity(),
            55 => self.prim_id(),
            56 => self.prim_type(),
            _ => self.unknown_primitive(id),
        }
    }

    fn do_goal_word(&mut self, id: usize, t: Time)
        ensures
            final(self)@ == goal_word(old(self)@, id, t),
    {
        reveal(goal_word);
        match id {
            57 => self.prim_goal(t),
            58 => self.prim_goals(),
            59 => self.prim_tasks(),
            60 => self.prim_task_status(),
            61 => self.prim_cancel(),
            62 => self.prim_steer(),
            63 => self.prim_report(),
            64 => self.prim_claim(t),
            65 => self.prim_complete(),
            66 => self.prim_goal_exec(t),
            67 => self.prim_eval(),
            68 => self.prim_result(),
            69 => self.prim_auto_claim(),
            70 => self.prim_timeout(),
            71 => self.prim_goal_result(),
            _ => self.unknown_primitive(id),
        }
    }

    fn do_host_word(&mut self, id: usize, t: Time)
        ensures
            final(self)@ == host_word(old(self)@, id, t),
    {
        reveal(host_word);
        match id {
            72 => self.io_immediate(0),
            73 => self.io_immediate(1),
            74 => self.io_immediate(2),
            75 => self.io_immediate(3),
            76 => self.io_immediate(4),
            77 => self.io_immediate(5),
            78 => self.io_immediate(6),
            79 => self.io_immediate(7),
            80 => self.io_immediate(8),
            81 => self.prim_timestamp(t),
            82 => self.prim_sleep(),
            83 => self.prim_sandbox(true),
            84 => self.prim_sandbox(false),
            85 => self.prim_io_log(),
            _ => self.unknown_primitive(id),
        }
    }

    fn do_evolution_word(&mut self, id: usize, t: Time)
        ensures
            final(self)@ == evolution_word(old(self)@, id, t),
    {
        reveal(evolution_word);
        match id {
            86 => self.prim_mutate_rand(),
            87 => self.prim_mutate_word(),
            88 => self.prim_undo_mutate(),
            89 => self.prim_mutations(),
            90 => self.prim_fitness(),
            91 => self.prim_leaderboard(),
            92 => self.prim_rate(),
            93 => self.prim_evolve(t),
            94 => self.prim_auto_evolve(),
            95 => self.prim_benchmark(),
            96 => self.prim_trust(),
            97 => self.prim_trust_clear(true),
            98 => self.prim_trust_clear(false),
            99 => self.prim_shell_enable(),
            _ => self.unknown_primitive(id),
        }
    }

    fn do_keeping_word(&mut self, id: usize, t: Time)
        ensures
            final(self)@ == keeping_word(old(self)@, id, t),
    {
        reveal(keeping_word);
        match id {
            199 => self.prim_reidentify(),
            200 => self.prim_save(),
            201 => self.prim_load_state(),
            202 => self.prim_auto_save(),
            203 => self.prim_reset(),
            204 => self.prim_snapshots(),
            205 => self.prim_snapshot(t),
            206 => self.prim_restore(),
            _ => self.unknown_primitive(id),
        }
    }

    fn do_loop_word(&mut self, id: usize, t: Time)
        ensures
            final(self)@ == loop_word(old(self)@, id, t),
    {
        reveal(loop_word);
        match id {
            210 => self.prim_subtask(t),
            211 => self.prim_fork(t),
            212 => self.prim_results(),
            213 => self.prim_reduce(),
            214 => self.prim_progress(),
            215 => self.prim_i(),
            216 => self.prim_j(),
            _ => self.unknown_primitive(id),
        }
    }

    fn do_family_word(&mut self, id: usize, t: Time)
        ensures
            final(self)@ == family_word(old(self)@, id, t),
    {
        reveal(family_word);
        match id {
            220 => self.prim_spawn(t),
            221 => self.prim_spawn_n(),
            222 => self.prim_package(),
            223 => self.prim_package_size(),
            224 => self.prim_children(t),
            225 => self.prim_family(),
            226 => self.prim_generation(),
            227 => self.prim_kill_child(),
            228 => self.prim_replicate_to(),
            229 => self.prim_accept_replicate(true),
            230 => self.prim_accept_replicate(false),
            231 => self.prim_quarantine(),
            232 => self.prim_max_children(),
            _ => self.unknown_primitive(id),
        }
    }

    fn do_watch_word(&mut self, id: usize, t: Time)
        ensures
            final(self)@ == watch_word(old(self)@, id, t),
    {
        reveal(watch_word);
        match id {
            300 => self.prim_watch(0, t),
            301 => self.prim_watch(1, t),
            302 => self.prim_watch(2, t),
            303 => self.prim_watches(t),
            304 => self.prim_unwatch(),
            305 => self.prim_watch_log(),
            306 => self.prim_on_alert(),
            307 => self.prim_alerts(),
            308 => self.prim_ack(),
            309 => self.prim_alert_history(),
            310 => self.prim_dashboard(),
            311 => self.prim_health(),
            312 => self.prim_uptime(),
            313 => self.prim_every(),
            314 => self.prim_schedule(t),
            315 => self.prim_unsched(),
            316 => self.prim_heal(t),
            317 => self.prim_health_port(),
            318 => self.prim_alert_threshold(),
            _ => self.unknown_primitive(id),
        }
    }

    fn do_bridge_word(&mut self, id: usize, t: Time)
        ensures
            final(self)@ == bridge_word(old(self)@, id, t),
    {
        reveal(bridge_word);
        match id {
            320 => self.prim_ws_status(),
            321 => self.prim_ws_clients(t),
            322 => self.prim_ws_port(),
            323 => self.prim_ws_broadcast(),
            _ => self.unknown_primitive(id),
        }
    }

    fn do_swarm_word(&mut self, id: usize, t: Time)
        ensures
            final(self)@ == swarm_word(old(self)@, id, t),
    {
        reveal(swarm_word);
        match id {
            330 => self.prim_discover(),
            331 => self.prim_switch(Switch::Discover),
            332 => self.prim_share_word(),
            333 => self.prim_share_all(),
            334 => self.prim_switch(Switch::Share),
            335 => self.prim_shared_words(),
            336 => self.prim_switch(Switch::Spawn),
            337 => self.prim_switch(Switch::Cull),
            338 => self.prim_min_units(),
            339 => self.prim_max_units(),
            340 => self.prim_swarm_status(),
            _ => self.unknown_primitive(id),
        }
    }

    fn do_consent_word(&mut self, id: usize, t: Time)
        ensures
            final(self)@ == consent_word(old(self)@, id, t),
    {
        reveal(consent_word);
        match id {
            350 => self.prim_set_trust(TrustLevel::All),
            351 => self.prim_set_trust(TrustLevel::Mesh),
            352 => self.prim_set_trust(TrustLevel::Family),
            353 => self.prim_set_trust(TrustLevel::Nobody),
            354 => self.prim_trust_level(),
            355 => self.prim_requests(t),
            356 => self.prim_accept_req(t),
            357 => self.prim_deny_req(t),
            358 => self.prim_deny_all_req(t),
            359 => self.prim_replication_log(),
            _ => self.unknown_primitive(id),
        }
    }

    fn do_count_word(&mut self, id: usize, t: Time)
        ensures
            final(self)@ == count_word(old(self)@, id, t),
    {
        reveal(count_word);
        match id {
            400 => self.prim_goal_count(),
            401 => self.prim_task_count(),
            402 => self.prim_watch_count(),
            403 => self.prim_alert_count(),
            404 => self.prim_child_count(),
            405 => self.prim_mesh_avg_fitness(),
            406 => self.prim_check_watches(t),
            407 => self.prim_run_handlers(),
            408 => self.prim_run_benchmark(t),
            409 => self.prim_mutate_random_atom(),
            410 => self.prim_undo_mutate(),
            411 => self.prim_peer_count(),
            412 => self.prim_smart_mutate(),
            413 => self.prim_mutation_report(),
            414 => self.prim_mutation_stats(),
            _ => self.unknown_primitive(id),
        }
    }

    /// Runs the built-in word with this number.
    pub(crate) fn execute_primitive(&mut self, id: usize, t: Time)
        ensures
            final(self)@ == primitive(old(self)@, id, t),
    {
        reveal(primitive);
        if id <= 22 {
            self.do_stack_word(id, t);
        } else if id <= 44 {
            self.do_defining_word(id, t);
        } else if id <= 56 {
            self.do_mesh_word(id, t);
        } else if id <= 71 {
            self.do_goal_word(id, t);
        } else if id <= 85 {
            self.do_host_word(id, t);
        } else if id <= 99 {
            self.do_evolution_word(id, t);
        } else if id <= 206 {
            self.do_keeping_word(id, t);
        } else if id <= 216 {
            self.do_loop_word(id, t);
        } else if id <= 232 {
            self.do_family_word(id, t);
        } else if id <= 318 {
            self.do_watch_word(id, t);
        } else if id <= 323 {
            self.do_bridge_word(id, t);
        } else if id <= 340 {
            self.do_swarm_word(id, t);
        } else if id <= 359 {
            self.do_consent_word(id, t);
        } else if id <= 414 {
            self.do_count_word(id, t);
        } else {
            self.unknown_primitive(id);
        }
    }
}

} // verus!
