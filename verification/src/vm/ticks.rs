//! The work between two lines of input.

use crate::mesh::node;
use crate::mesh::node::{MeshV, SharedV, SharedWord};
use crate::text;
use crate::text::{push_usize, text};
use crate::vm::base;
use crate::vm::bridge;
use crate::vm::checks;
use crate::vm::family;
use crate::vm::net;
use crate::vm::sandbox;
use crate::vm::state;
use crate::vm::state::{Frame, FrameV, Job, Time, VmV, VM};
use crate::vm::trials;
use vstd::prelude::*;

verus! {

/// Why the unit proposes to replicate of its own accord.
pub open spec fn auto_reason(words: nat) -> Seq<char> {
    "auto: goal_load dict="@ + text::dec(words)
}

/// The machine with a proposal to replicate, if its goals call for one.
#[verifier::opaque]
pub open spec fn replicate_checked(v: VmV, t: Time) -> VmV {
    match v.mesh {
        Some(m) => if m.replicate_needed {
            let (m2, e) = net::propose(
                MeshV { replicate_needed: false, ..m },
                v.dict.len(),
                net::mesh_state(v.dict, v.memory, v.here, m),
                auto_reason(v.dict.len()),
                t,
            );
            let w = net::with_mesh(v, m2);
            match e {
                None => base::printed(w, "auto-replication proposed\n"@),
                Some(s) => if v.silent {
                    w
                } else {
                    base::complained(w, "auto-replicate: "@ + s + "\n"@)
                },
            }
        } else {
            v
        },
        None => v,
    }
}

/// Lines of shared words.
pub open spec fn sources(s: Seq<SharedV>) -> Seq<(Option<u32>, Seq<char>)> {
    Seq::new(s.len(), |i: int| (None, s[i].source))
}

/// The machine about to compile the words that peers have shared.
#[verifier::opaque]
pub open spec fn words_received(v: VmV) -> VmV {
    match v.mesh {
        Some(m) => base::framed(
            net::with_mesh(v, (MeshV { word_inbox: Seq::empty(), ..m })),
            FrameV::Jobs { jobs: sources(m.word_inbox), next: 0, heal: false },
        ),
        None => v,
    }
}

/// How many kinds of work there are between two lines.
pub const STAGES: u8 = 8;

/// The next kind of work between two lines of input.
#[verifier::opaque]
pub open spec fn ticked(v: VmV, stage: u8, t: Time) -> VmV {
    if stage < STAGES {
        let w = base::framed(v, FrameV::Tick { stage: (stage + 1) as u8 });
        if stage == 0 {
            sandbox::claim_checked(w, t)
        } else if stage == 1 {
            replicate_checked(w, t)
        } else if stage == 2 {
            trials::evolve_checked(w, t)
        } else if stage == 3 {
            family::incoming_checked(w)
        } else if stage == 4 {
            checks::monitor_ticked(w, t)
        } else if stage == 5 {
            words_received(w)
        } else if stage == 6 {
            bridge::events_polled(w, t)
        } else {
            bridge::json_updated(w)
        }
    } else {
        v
    }
}

fn lines_of(words: &[SharedWord]) -> (jobs: Vec<Job>)
    ensures
        state::job_views(jobs@) == sources(node::shared_views(words@)),
{
    let mut jobs: Vec<Job> = Vec::new();
    let ghost all = sources(node::shared_views(words@));
    let mut i: usize = 0;
    while i < words.len()
        invariant
            i <= words@.len(),
            all == sources(node::shared_views(words@)),
            state::job_views(jobs@) == all.take(i as int),
        decreases words@.len() - i,
    {
        let ghost before = state::job_views(jobs@);
        let job = Job { alert: None, code: words[i].body_source.clone() };
        let ghost j = job@;
        jobs.push(job);
        assert(state::job_views(jobs@) =~= before.push(j));
        assert(all[i as int] == j);
        i = i + 1;
        assert(all.take(i as int) =~= all.take(i - 1).push(all[i - 1]));
    }
    assert(all.take(i as int) =~= all);
    jobs
}

impl VM {
    fn check_auto_replicate(&mut self, t: Time)
        ensures
            final(self)@ == replicate_checked(old(self)@, t),
    {
        reveal(replicate_checked);
        let silent = self.silent;
        if let Some(mut m) = self.take_mesh() {
            if !m.should_auto_replicate() {
                self.put_mesh(m);
                return ;
            }
            m.clear_auto_replicate();
            let mut reason = text("auto: goal_load dict=");
            push_usize(&mut reason, self.dictionary.len());
            let e = self.propose(&mut m, reason.as_str(), t);
            self.put_mesh(m);
            match e {
                None => self.print_str("auto-replication proposed\n"),
                Some(e) => {
                    if !silent {
                        let mut s = text("auto-replicate: ");
                        s.append(e.as_str());
                        s.append("\n");
                        self.complain(s.as_str());
                    }
                },
            }
        }
    }

    fn process_shared_words(&mut self)
        ensures
            final(self)@ == words_received(old(self)@),
    {
        reveal(words_received);
        if let Some(mut m) = self.take_mesh() {
            let words = m.recv_shared_words();
            self.put_mesh(m);
            let jobs = lines_of(&words);
            self.enter(Frame::Jobs { jobs, next: 0, heal: false });
        }
    }

    pub(crate) fn step_tick(&mut self, stage: u8, t: Time)
        ensures
            final(self)@ == ticked(old(self)@, stage, t),
    {
        reveal(ticked);
        if stage < STAGES {
            self.enter(Frame::Tick { stage: stage + 1 });
            match stage {
                0 => self.check_auto_claim(t),
                1 => self.check_auto_replicate(t),
                2 => self.check_auto_evolve(t),
                3 => self.check_incoming_replications(),
                4 => self.tick_monitor(t),
                5 => self.process_shared_words(),
                6 => self.poll_ws_events(t),
                _ => self.update_ws_mesh_json(),
            }
        }
    }
}

} // verus!
