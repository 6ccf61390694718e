//! The machine and its mathematical form.

use crate::clock::Clock;
use crate::features::fitness::{FitV, FitnessTracker};
use crate::features::monitor;
use crate::features::monitor::{KindV, MonV, MonitorState, WatchKind};
use crate::features::ws_bridge::{BridgeV, EventV, WsBridgeState, WsEvent};
use crate::goals;
use crate::goals::{ResultV, TaskResult};
use crate::mesh::node;
use crate::mesh::node::{MeshNode, MeshV};
use crate::spawn::{SpawnState, SpawnV};
use crate::text;
use crate::types;
use crate::types::{Cell, Entry, Instruction, Op, WordV};
use crate::wire::NodeId;
use vstd::prelude::*;

verus! {

// ---------------------------------------------------------------------------
// Parts
// ---------------------------------------------------------------------------

/// The time at which a step is taken: milliseconds of the machine's clock, and milliseconds and
/// nanoseconds since the Unix epoch.
#[derive(Clone, Copy, Debug)]
pub struct Time {
    pub now: u64,
    pub epoch: u64,
    pub nanos: u64,
}

/// A change to a word, with what is needed to undo it.
#[derive(Debug)]
pub struct MutationRecord {
    pub word_index: usize,
    pub word_name: String,
    pub strategy: String,
    pub description: String,
    pub old_body: Vec<Instruction>,
}

/// The mathematical form of a change.
pub struct RecordV {
    pub index: usize,
    pub name: Seq<char>,
    pub strategy: Seq<char>,
    pub description: Seq<char>,
    pub old_body: Seq<Op>,
}

impl View for MutationRecord {
    type V = RecordV;

    open spec fn view(&self) -> RecordV {
        RecordV {
            index: self.word_index,
            name: self.word_name@,
            strategy: self.strategy@,
            description: self.description@,
            old_body: types::ops(self.old_body@),
        }
    }
}

pub open spec fn record_views(s: Seq<MutationRecord>) -> Seq<RecordV> {
    Seq::new(s.len(), |i: int| s[i]@)
}

/// What a change did to a word.
#[derive(Clone, Copy, Debug, PartialEq, Eq, Structural)]
pub enum MutationClass {
    /// The word behaves as before.
    Neutral,
    /// The word behaves otherwise, and the benchmark does not fail.
    Beneficial,
    /// The word behaves otherwise, and the benchmark fails.
    Harmful,
}

/// How many changes of each class there were.
#[derive(Clone, Copy, Debug)]
pub struct MutationStats {
    pub neutral: u32,
    pub beneficial: u32,
    pub harmful: u32,
}

/// The outcome of the last judged change.
#[derive(Debug)]
pub struct SmartMutationResult {
    pub word_name: String,
    pub strategy: String,
    pub class: MutationClass,
    pub kept: bool,
}

/// The mathematical form of an outcome.
pub struct OutcomeV {
    pub name: Seq<char>,
    pub strategy: Seq<char>,
    pub class: MutationClass,
    pub kept: bool,
}

impl View for SmartMutationResult {
    type V = OutcomeV;

    open spec fn view(&self) -> OutcomeV {
        OutcomeV {
            name: self.word_name@,
            strategy: self.strategy@,
            class: self.class,
            kept: self.kept,
        }
    }
}

pub open spec fn opt_outcome(o: Option<SmartMutationResult>) -> Option<OutcomeV> {
    match o {
        Some(r) => Some(r@),
        None => None,
    }
}

// ---------------------------------------------------------------------------
// Frames
// ---------------------------------------------------------------------------

/// What a sandbox puts aside, and puts back at its end.
#[derive(Debug)]
pub struct Saved {
    pub stack: Vec<Cell>,
    pub rstack: Vec<Cell>,
    pub silent: bool,
    pub compiling: bool,
    pub current_def: Option<Entry>,
    pub output_buffer: Option<String>,
    pub deadline: Option<u64>,
    pub timed_out: bool,
    pub sandbox_active: bool,
}

/// The mathematical form of what a sandbox puts aside.
pub struct SavedV {
    pub stack: Seq<i64>,
    pub rstack: Seq<i64>,
    pub silent: bool,
    pub compiling: bool,
    pub def: Option<WordV>,
    pub output: Option<Seq<char>>,
    pub deadline: Option<u64>,
    pub timed_out: bool,
    pub sandbox: bool,
}

impl View for Saved {
    type V = SavedV;

    open spec fn view(&self) -> SavedV {
        SavedV {
            stack: self.stack@,
            rstack: self.rstack@,
            silent: self.silent,
            compiling: self.compiling,
            def: opt_word(self.current_def),
            output: text::opt_text(self.output_buffer),
            deadline: self.deadline,
            timed_out: self.timed_out,
            sandbox: self.sandbox_active,
        }
    }
}

pub open spec fn opt_word(o: Option<Entry>) -> Option<WordV> {
    match o {
        Some(e) => Some(e@),
        None => None,
    }
}

/// What follows a benchmark.
#[derive(Debug)]
pub enum Scored {
    /// Its score goes to the stack.
    Push,
    /// A word is changed; the average score of the mesh is told at the end.
    EvolveBefore { average: i64 },
    /// The change is judged by the score before it.
    EvolveAfter { average: i64, before: i64, record: MutationRecord },
    /// A change that altered a word is judged.
    Judge { record: MutationRecord },
}

/// The mathematical form of what follows a benchmark.
pub enum ScoredV {
    Push,
    EvolveBefore { average: i64 },
    EvolveAfter { average: i64, before: i64, record: RecordV },
    Judge { record: RecordV },
}

impl View for Scored {
    type V = ScoredV;

    open spec fn view(&self) -> ScoredV {
        match self {
            Scored::Push => ScoredV::Push,
            Scored::EvolveBefore { average } => ScoredV::EvolveBefore { average: *average },
            Scored::EvolveAfter { average, before, record } => ScoredV::EvolveAfter {
                average: *average,
                before: *before,
                record: record@,
            },
            Scored::Judge { record } => ScoredV::Judge { record: record@ },
        }
    }
}

/// What follows a run in the sandbox.
#[derive(Debug)]
pub enum After {
    /// The result is handed out.
    Return,
    /// The result of a task that was claimed by hand.
    Claim { task_id: u64 },
    /// The result of a task that was claimed automatically.
    AutoClaim { task_id: u64, start: u64 },
    /// The result is turned into a score.
    Score { start: u64, next: Scored },
}

/// The mathematical form of what follows a run in the sandbox.
pub enum AfterV {
    Return,
    Claim { task_id: u64 },
    AutoClaim { task_id: u64, start: u64 },
    Score { start: u64, next: ScoredV },
}

impl View for After {
    type V = AfterV;

    open spec fn view(&self) -> AfterV {
        match self {
            After::Return => AfterV::Return,
            After::Claim { task_id } => AfterV::Claim { task_id: *task_id },
            After::AutoClaim { task_id, start } => AfterV::AutoClaim {
                task_id: *task_id,
                start: *start,
            },
            After::Score { start, next } => AfterV::Score { start: *start, next: next@ },
        }
    }
}

/// What follows checks of watches.
#[derive(Clone, Copy, Debug, PartialEq, Eq, Structural)]
pub enum AfterChecks {
    Nothing,
    /// The handlers of open alerts run.
    Heal,
    /// The schedules that are due run.
    Schedules,
}

/// A line to run, with the alert that it handles if that is to be told.
#[derive(Debug)]
pub struct Job {
    pub alert: Option<u32>,
    pub code: String,
}

impl View for Job {
    type V = (Option<u32>, Seq<char>);

    open spec fn view(&self) -> (Option<u32>, Seq<char>) {
        (self.alert, self.code@)
    }
}

pub open spec fn job_views(s: Seq<Job>) -> Seq<(Option<u32>, Seq<char>)> {
    Seq::new(s.len(), |i: int| s[i]@)
}

/// Work that the machine has begun. The last frame is the one at work.
#[allow(inconsistent_fields)]
#[derive(Debug)]
pub enum Frame {
    /// The rest of the input line.
    Line,
    /// The rest of a compiled body.
    Body { body: Vec<Instruction>, ip: usize },
    /// The rest of a run in the sandbox.
    Sandbox { saved: Saved, lines: Vec<String>, next: usize, after: After },
    /// The part of a goal before SPLIT, which says how to divide the rest.
    Split { saved: Vec<Cell>, code: String, rest: String, priority: Cell },
    /// Lines to run one after the other; the end of a heal cycle is told.
    Jobs { jobs: Vec<Job>, next: usize, heal: bool },
    /// Watches to check one after the other.
    Checks { ids: Vec<u32>, next: usize, after: AfterChecks },
    /// An alert handler is at work, which earns a bonus.
    Bonus,
    /// A reduction over values.
    Reduce { values: Vec<Cell>, next: usize, code: String },
    /// Children to spawn one after the other.
    SpawnMany { next: usize, count: usize },
    /// A word whose behaviour is observed, before or after a change.
    Probe {
        index: usize,
        body: Vec<Instruction>,
        round: u8,
        saved: Vec<Cell>,
        seen: String,
        change: Option<Change>,
    },
    /// The prelude; the machine is silent until its end.
    Prelude { lines: Vec<String>, next: usize, silent: bool },
    /// The work between two lines of input.
    Tick { stage: u8 },
}

/// A change under observation.
#[derive(Debug)]
pub struct Change {
    pub record: MutationRecord,
    /// How the word behaved before.
    pub before: String,
}

/// The mathematical form of a frame.
#[allow(inconsistent_fields)]
pub enum FrameV {
    Line,
    Body { body: Seq<Op>, ip: usize },
    Sandbox { saved: SavedV, lines: Seq<Seq<char>>, next: usize, after: AfterV },
    Split { saved: Seq<i64>, code: Seq<char>, rest: Seq<char>, priority: i64 },
    Jobs { jobs: Seq<(Option<u32>, Seq<char>)>, next: usize, heal: bool },
    Checks { ids: Seq<u32>, next: usize, after: AfterChecks },
    Bonus,
    Reduce { values: Seq<i64>, next: usize, code: Seq<char> },
    SpawnMany { next: usize, count: usize },
    Probe {
        index: usize,
        body: Seq<Op>,
        round: u8,
        saved: Seq<i64>,
        seen: Seq<char>,
        change: Option<ChangeV>,
    },
    Prelude { lines: Seq<Seq<char>>, next: usize, silent: bool },
    Tick { stage: u8 },
}

/// The mathematical form of a change under observation.
pub struct ChangeV {
    pub record: RecordV,
    pub before: Seq<char>,
}

pub open spec fn opt_change(o: Option<Change>) -> Option<ChangeV> {
    match o {
        Some(c) => Some(ChangeV { record: c.record@, before: c.before@ }),
        None => None,
    }
}

impl View for Frame {
    type V = FrameV;

    open spec fn view(&self) -> FrameV {
        match self {
            Frame::Line => FrameV::Line,
            Frame::Body { body, ip } => FrameV::Body { body: types::ops(body@), ip: *ip },
            Frame::Sandbox { saved, lines, next, after } => FrameV::Sandbox {
                saved: saved@,
                lines: text::texts(lines@),
                next: *next,
                after: after@,
            },
            Frame::Split { saved, code, rest, priority } => FrameV::Split {
                saved: saved@,
                code: code@,
                rest: rest@,
                priority: *priority,
            },
            Frame::Jobs { jobs, next, heal } => FrameV::Jobs {
                jobs: job_views(jobs@),
                next: *next,
                heal: *heal,
            },
            Frame::Checks { ids, next, after } => FrameV::Checks {
                ids: ids@,
                next: *next,
                after: *after,
            },
            Frame::Bonus => FrameV::Bonus,
            Frame::Reduce { values, next, code } => FrameV::Reduce {
                values: values@,
                next: *next,
                code: code@,
            },
            Frame::SpawnMany { next, count } => FrameV::SpawnMany { next: *next, count: *count },
            Frame::Probe { index, body, round, saved, seen, change } => FrameV::Probe {
                index: *index,
                body: types::ops(body@),
                round: *round,
                saved: saved@,
                seen: seen@,
                change: opt_change(*change),
            },
            Frame::Prelude { lines, next, silent } => FrameV::Prelude {
                lines: text::texts(lines@),
                next: *next,
                silent: *silent,
            },
            Frame::Tick { stage } => FrameV::Tick { stage: *stage },
        }
    }
}

pub open spec fn frame_views(s: Seq<Frame>) -> Seq<FrameV> {
    Seq::new(s.len(), |i: int| s[i]@)
}

// ---------------------------------------------------------------------------
// Requests to the host
// ---------------------------------------------------------------------------

/// Why a word is to be changed.
#[derive(Clone, Copy, Debug, PartialEq, Eq, Structural)]
pub enum Purpose {
    /// The word MUTATE, which tells what it did.
    Tell,
    /// The word MUTATE-RANDOM, which leaves a flag.
    Flag,
    /// The word MUTATE-WORD".
    Named,
    /// The word SMART-MUTATE: which word is to be changed.
    Pick,
    /// The word SMART-MUTATE: the change itself.
    Judge,
    /// The word EVOLVE.
    Evolve,
}

/// What a package is made for.
#[derive(Debug)]
pub enum Packing {
    /// The word SPAWN.
    Spawn,
    /// The word PACKAGE.
    Store,
    /// The word PACKAGE-SIZE.
    Size,
    /// The word REPLICATE-TO".
    Send { addr: String },
}

/// The mathematical form of what a package is made for.
pub enum PackingV {
    Spawn,
    Store,
    Size,
    Send { addr: Seq<char> },
}

impl View for Packing {
    type V = PackingV;

    open spec fn view(&self) -> PackingV {
        match self {
            Packing::Spawn => PackingV::Spawn,
            Packing::Store => PackingV::Store,
            Packing::Size => PackingV::Size,
            Packing::Send { addr } => PackingV::Send { addr: addr@ },
        }
    }
}

/// What the machine needs from its host before it can go on.
#[allow(inconsistent_fields)]
#[derive(Debug)]
pub enum Request {
    Key,
    FileRead { path: String },
    FileWrite { path: String, data: Vec<u8> },
    FileExists { path: String },
    FileList { path: String },
    FileDelete { path: String },
    HttpGet { url: String },
    HttpPost { url: String, body: Vec<u8> },
    Shell { command: String },
    Env { name: String },
    Sleep { millis: u64 },
    /// Keep the state of this unit. Quietly, or telling where it is kept.
    SaveState { id: NodeId, data: Vec<u8>, quiet: bool },
    LoadState { id: NodeId },
    /// Delete the state of this unit, if it has an identity, and the kept identity.
    Forget { id: Option<NodeId> },
    ListSnapshots { id: NodeId },
    SaveSnapshot { id: NodeId, name: String, data: Vec<u8> },
    LoadSnapshot { id: NodeId, name: String },
    /// Make up a new identity, keep it, and move the state of the old one to it.
    Reidentify { old: Option<NodeId> },
    /// Read the executable of this unit, to be packed with this state.
    Binary { purpose: Packing, state: Vec<u8> },
    /// Start a child from this package, which this unit made or which has arrived.
    SpawnPackage { package: Vec<u8>, port: u16, generation: u32, arrived: bool },
    Kill { pid: u32 },
    SendPackage { addr: String, package: Vec<u8> },
    /// Look after a watch.
    Probe { watch: u32, kind: WatchKind, start: u64 },
    /// Change a word, or any word that can be changed.
    Mutate { index: Option<usize>, purpose: Purpose, average: i64, before: i64, seen: String },
    /// Show a share as a percentage.
    Percent { watch: u32, good: usize, total: usize },
    /// A replication package that has arrived.
    Incoming,
}

/// The mathematical form of a request.
#[allow(inconsistent_fields)]
pub enum RequestV {
    Key,
    FileRead { path: Seq<char> },
    FileWrite { path: Seq<char>, data: Seq<u8> },
    FileExists { path: Seq<char> },
    FileList { path: Seq<char> },
    FileDelete { path: Seq<char> },
    HttpGet { url: Seq<char> },
    HttpPost { url: Seq<char>, body: Seq<u8> },
    Shell { command: Seq<char> },
    Env { name: Seq<char> },
    Sleep { millis: u64 },
    SaveState { id: Seq<u8>, data: Seq<u8>, quiet: bool },
    LoadState { id: Seq<u8> },
    Forget { id: Option<Seq<u8>> },
    ListSnapshots { id: Seq<u8> },
    SaveSnapshot { id: Seq<u8>, name: Seq<char>, data: Seq<u8> },
    LoadSnapshot { id: Seq<u8>, name: Seq<char> },
    Reidentify { old: Option<Seq<u8>> },
    Binary { purpose: PackingV, state: Seq<u8> },
    SpawnPackage { package: Seq<u8>, port: u16, generation: u32, arrived: bool },
    Kill { pid: u32 },
    SendPackage { addr: Seq<char>, package: Seq<u8> },
    Probe { watch: u32, kind: KindV, start: u64 },
    Mutate { index: Option<usize>, purpose: Purpose, average: i64, before: i64, seen: Seq<char> },
    Percent { watch: u32, good: usize, total: usize },
    Incoming,
}

impl View for Request {
    type V = RequestV;

    open spec fn view(&self) -> RequestV {
        match self {
            Request::Key => RequestV::Key,
            Request::FileRead { path } => RequestV::FileRead { path: path@ },
            Request::FileWrite { path, data } => RequestV::FileWrite { path: path@, data: data@ },
            Request::FileExists { path } => RequestV::FileExists { path: path@ },
            Request::FileList { path } => RequestV::FileList { path: path@ },
            Request::FileDelete { path } => RequestV::FileDelete { path: path@ },
            Request::HttpGet { url } => RequestV::HttpGet { url: url@ },
            Request::HttpPost { url, body } => RequestV::HttpPost { url: url@, body: body@ },
            Request::Shell { command } => RequestV::Shell { command: command@ },
            Request::Env { name } => RequestV::Env { name: name@ },
            Request::Sleep { millis } => RequestV::Sleep { millis: *millis },
            Request::SaveState { id, data, quiet } => RequestV::SaveState {
                id: id@,
                data: data@,
                quiet: *quiet,
            },
            Request::LoadState { id } => RequestV::LoadState { id: id@ },
            Request::Forget { id } => RequestV::Forget { id: goals::opt_id(*id) },
            Request::ListSnapshots { id } => RequestV::ListSnapshots { id: id@ },
            Request::SaveSnapshot { id, name, data } => RequestV::SaveSnapshot {
                id: id@,
                name: name@,
                data: data@,
            },
            Request::LoadSnapshot { id, name } => RequestV::LoadSnapshot { id: id@, name: name@ },
            Request::Reidentify { old: o } => RequestV::Reidentify { old: goals::opt_id(*o) },
            Request::Binary { purpose, state } => RequestV::Binary {
                purpose: purpose@,
                state: state@,
            },
            Request::SpawnPackage { package, port, generation, arrived } => RequestV::SpawnPackage {
                package: package@,
                port: *port,
                generation: *generation,
                arrived: *arrived,
            },
            Request::Kill { pid } => RequestV::Kill { pid: *pid },
            Request::SendPackage { addr, package } => RequestV::SendPackage {
                addr: addr@,
                package: package@,
            },
            Request::Probe { watch, kind, start } => RequestV::Probe {
                watch: *watch,
                kind: kind@,
                start: *start,
            },
            Request::Mutate { index, purpose, average, before, seen } => RequestV::Mutate {
                index: *index,
                purpose: *purpose,
                average: *average,
                before: *before,
                seen: seen@,
            },
            Request::Percent { watch, good, total } => RequestV::Percent {
                watch: *watch,
                good: *good,
                total: *total,
            },
            Request::Incoming => RequestV::Incoming,
        }
    }
}

pub open spec fn opt_request(o: Option<Request>) -> Option<RequestV> {
    match o {
        Some(r) => Some(r@),
        None => None,
    }
}

/// What the host answers.
#[allow(inconsistent_fields)]
#[derive(Debug)]
pub enum Reply {
    /// It was done, or there is nothing.
    Done,
    /// It could not be done.
    Fault(String),
    Flag(bool),
    Byte(u8),
    Bytes(Vec<u8>),
    Response { body: Vec<u8>, code: i64 },
    Names(Vec<String>),
    Text(String),
    Size(u64),
    Identity(NodeId),
    Child { pid: u32, port: u16, id: NodeId },
    /// The word at this place can be changed.
    Picked(usize),
    /// The new body of a word, and how it came about.
    Changed { index: usize, body: Vec<Instruction>, strategy: String, description: String },
    /// No word, or not this word, can be changed.
    Refused,
}

/// The mathematical form of an answer.
#[allow(inconsistent_fields)]
pub enum ReplyV {
    Done,
    Fault(Seq<char>),
    Flag(bool),
    Byte(u8),
    Bytes(Seq<u8>),
    Response { body: Seq<u8>, code: i64 },
    Names(Seq<Seq<char>>),
    Text(Seq<char>),
    Size(u64),
    Identity(Seq<u8>),
    Child { pid: u32, port: u16, id: Seq<u8> },
    Picked(usize),
    Changed { index: usize, body: Seq<Op>, strategy: Seq<char>, description: Seq<char> },
    Refused,
}

impl View for Reply {
    type V = ReplyV;

    open spec fn view(&self) -> ReplyV {
        match self {
            Reply::Done => ReplyV::Done,
            Reply::Fault(s) => ReplyV::Fault(s@),
            Reply::Flag(b) => ReplyV::Flag(*b),
            Reply::Byte(b) => ReplyV::Byte(*b),
            Reply::Bytes(b) => ReplyV::Bytes(b@),
            Reply::Response { body, code } => ReplyV::Response { body: body@, code: *code },
            Reply::Names(v) => ReplyV::Names(text::texts(v@)),
            Reply::Text(s) => ReplyV::Text(s@),
            Reply::Size(n) => ReplyV::Size(*n),
            Reply::Identity(id) => ReplyV::Identity(id@),
            Reply::Child { pid, port, id } => ReplyV::Child { pid: *pid, port: *port, id: id@ },
            Reply::Picked(i) => ReplyV::Picked(*i),
            Reply::Changed { index, body, strategy, description } => ReplyV::Changed {
                index: *index,
                body: types::ops(body@),
                strategy: strategy@,
                description: description@,
            },
            Reply::Refused => ReplyV::Refused,
        }
    }
}

// ---------------------------------------------------------------------------
// The console
// ---------------------------------------------------------------------------

/// Text for the terminal.
#[derive(Debug)]
pub struct Printed {
    /// Whether it goes to the error stream.
    pub error: bool,
    pub text: String,
}

impl View for Printed {
    type V = (bool, Seq<char>);

    open spec fn view(&self) -> (bool, Seq<char>) {
        (self.error, self.text@)
    }
}

pub open spec fn printed_views(s: Seq<Printed>) -> Seq<(bool, Seq<char>)> {
    Seq::new(s.len(), |i: int| s[i]@)
}

/// The name of a built-in word, and its number.
#[derive(Debug)]
pub struct PrimName {
    pub name: String,
    pub id: usize,
}

impl View for PrimName {
    type V = (Seq<char>, usize);

    open spec fn view(&self) -> (Seq<char>, usize) {
        (self.name@, self.id)
    }
}

pub open spec fn name_views(s: Seq<PrimName>) -> Seq<(Seq<char>, usize)> {
    Seq::new(s.len(), |i: int| s[i]@)
}

pub open spec fn event_views(s: Seq<WsEvent>) -> Seq<EventV> {
    Seq::new(s.len(), |i: int| s[i]@)
}

pub open spec fn opt_mesh(o: Option<MeshNode>) -> Option<MeshV> {
    match o {
        Some(m) => Some(m@),
        None => None,
    }
}

pub open spec fn opt_bridge(o: Option<WsBridgeState>) -> Option<BridgeV> {
    match o {
        Some(b) => Some(b@),
        None => None,
    }
}

// ---------------------------------------------------------------------------
// The machine
// ---------------------------------------------------------------------------

/// The Forth machine. It performs no input or output itself: text for the terminal waits in
/// `console`, and what it needs from its host stands in `pending`.
pub struct VM {
    pub stack: Vec<Cell>,
    pub rstack: Vec<Cell>,
    pub dictionary: Vec<Entry>,
    pub memory: Vec<Cell>,
    /// The next free address.
    pub here: usize,
    pub primitive_names: Vec<PrimName>,
    pub compiling: bool,
    pub current_def: Option<Entry>,
    pub input_buffer: Vec<char>,
    pub input_pos: usize,
    pub running: bool,
    pub silent: bool,
    /// The unit's part of the mesh; none if it is offline.
    pub mesh: Option<MeshNode>,
    /// Where output goes, if not to the console.
    pub output_buffer: Option<String>,
    /// When a run in the sandbox has to end.
    pub deadline: Option<u64>,
    pub timed_out: bool,
    /// The time that a run in the sandbox may take, in seconds.
    pub execution_timeout: u64,
    pub auto_claim: bool,
    /// Texts that compiled words refer to by number.
    pub code_strings: Vec<String>,
    pub sandbox_active: bool,
    pub shell_enabled: bool,
    pub trusted_peers: Vec<NodeId>,
    pub io_log: Vec<String>,
    pub mutation_history: Vec<MutationRecord>,
    pub mutation_stats: MutationStats,
    pub last_mutation_result: Option<SmartMutationResult>,
    pub fitness: FitnessTracker,
    pub spawn_state: SpawnState,
    pub monitor: MonitorState,
    pub ws_state: Option<WsBridgeState>,
    pub ws_events: Vec<WsEvent>,
    pub ws_mesh_json: String,
    /// How deep control words are nested in a definition without a name.
    pub anon_depth: i32,
    pub auto_save_enabled: bool,
    pub auto_save_interval: u32,
    pub tasks_since_save: u32,
    pub node_id_cache: Option<NodeId>,
    /// Work that has been begun.
    pub frames: Vec<Frame>,
    /// What the machine waits for.
    pub pending: Option<Request>,
    /// Text for the terminal, oldest first.
    pub console: Vec<Printed>,
    /// Set when a program did what no machine can do: it called a word that does not exist,
    /// patched a branch that does not exist, or divided the least cell by -1.
    pub crashed: bool,
    /// The result of the last run in the sandbox.
    pub last_result: Option<TaskResult>,
    pub clock: Clock,
}

/// The mathematical form of the machine.
pub struct VmV {
    pub stack: Seq<i64>,
    pub rstack: Seq<i64>,
    pub dict: Seq<WordV>,
    pub memory: Seq<i64>,
    pub here: usize,
    pub names: Seq<(Seq<char>, usize)>,
    pub compiling: bool,
    pub def: Option<WordV>,
    pub input: Seq<char>,
    pub pos: usize,
    pub running: bool,
    pub silent: bool,
    pub mesh: Option<MeshV>,
    pub output: Option<Seq<char>>,
    pub deadline: Option<u64>,
    pub timed_out: bool,
    pub timeout: u64,
    pub auto_claim: bool,
    pub codes: Seq<Seq<char>>,
    pub sandbox: bool,
    pub shell: bool,
    pub trusted: Seq<Seq<u8>>,
    pub io_log: Seq<Seq<char>>,
    pub history: Seq<RecordV>,
    pub stats: MutationStats,
    pub last_mutation: Option<OutcomeV>,
    pub fitness: FitV,
    pub spawn: SpawnV,
    pub monitor: MonV,
    pub ws: Option<BridgeV>,
    pub ws_events: Seq<EventV>,
    pub mesh_json: Seq<char>,
    pub anon: i32,
    pub auto_save: bool,
    pub save_every: u32,
    pub since_save: u32,
    pub node_id: Option<Seq<u8>>,
    pub frames: Seq<FrameV>,
    pub pending: Option<RequestV>,
    pub console: Seq<(bool, Seq<char>)>,
    pub crashed: bool,
    pub result: Option<ResultV>,
}

impl View for VM {
    type V = VmV;

    open spec fn view(&self) -> VmV {
        VmV {
            stack: self.stack@,
            rstack: self.rstack@,
            dict: types::words(self.dictionary@),
            memory: self.memory@,
            here: self.here,
            names: name_views(self.primitive_names@),
            compiling: self.compiling,
            def: opt_word(self.current_def),
            input: self.input_buffer@,
            pos: self.input_pos,
            running: self.running,
            silent: self.silent,
            mesh: opt_mesh(self.mesh),
            output: text::opt_text(self.output_buffer),
            deadline: self.deadline,
            timed_out: self.timed_out,
            timeout: self.execution_timeout,
            auto_claim: self.auto_claim,
            codes: text::texts(self.code_strings@),
            sandbox: self.sandbox_active,
            shell: self.shell_enabled,
            trusted: node::id_views(self.trusted_peers@),
            io_log: text::texts(self.io_log@),
            history: record_views(self.mutation_history@),
            stats: self.mutation_stats,
            last_mutation: opt_outcome(self.last_mutation_result),
            fitness: self.fitness@,
            spawn: self.spawn_state@,
            monitor: self.monitor@,
            ws: opt_bridge(self.ws_state),
            ws_events: event_views(self.ws_events@),
            mesh_json: self.ws_mesh_json@,
            anon: self.anon_depth,
            auto_save: self.auto_save_enabled,
            save_every: self.auto_save_interval,
            since_save: self.tasks_since_save,
            node_id: goals::opt_id(self.node_id_cache),
            frames: frame_views(self.frames@),
            pending: opt_request(self.pending),
            console: printed_views(self.console@),
            crashed: self.crashed,
            result: goals::opt_result(self.last_result),
        }
    }
}

} // verus!
