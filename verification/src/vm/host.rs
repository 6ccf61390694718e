//! Words that need the host: files, HTTP, the shell and the environment.

use crate::mesh::node;
use crate::mesh::node::{has_id, push_hex16};
use crate::order;
use crate::order::sort_texts;
use crate::text;
use crate::text::{push_usize, text};
use crate::types::{Cell, Instruction, Op};
use crate::vm::base;
use crate::vm::goal_words;
use crate::vm::net;
use crate::vm::state::{Reply, ReplyV, Request, RequestV, Time, VmV, VM};
use crate::vm::words;
use crate::vm::words::flag;
use crate::wire;
use crate::wire::{write_u64, NodeId};
use vstd::prelude::*;
use vstd::utf8::*;

verus! {

/// The number of the built-in word that runs compiled host words.
pub const P_IO_RT: usize = 103;

/// The most operations that the log of host words keeps.
pub const IO_KEPT: usize = 50;

// ---------------------------------------------------------------------------
// The log
// ---------------------------------------------------------------------------

/// The log with one more operation; of more than fifty the oldest is dropped.
pub open spec fn with_io(s: Seq<Seq<char>>, e: Seq<char>) -> Seq<Seq<char>> {
    if s.len() >= IO_KEPT {
        s.push(e).skip(1)
    } else {
        s.push(e)
    }
}

/// The machine after it has noted an operation.
#[verifier::opaque]
pub open spec fn io_noted(v: VmV, e: Seq<char>) -> VmV {
    VmV { io_log: with_io(v.io_log, e), ..v }
}

/// The log of host words never holds more than fifty operations.
pub proof fn law_io_log_bounded(v: VmV, e: Seq<char>)
    requires
        v.io_log.len() <= IO_KEPT,
    ensures
        io_noted(v, e).io_log.len() <= IO_KEPT,
        io_noted(v, e).io_log.last() == e,
{
    reveal(io_noted);
}

/// Operations as lines.
pub open spec fn io_lines(s: Seq<Seq<char>>) -> Seq<char>
    decreases s.len(),
{
    if s.len() == 0 {
        Seq::empty()
    } else {
        io_lines(s.drop_last()) + ("  "@ + s.last() + "\n"@)
    }
}

/// IO-LOG ( -- )
#[verifier::opaque]
pub open spec fn p_io_log(v: VmV) -> VmV {
    if v.io_log.len() == 0 {
        base::emit(v, "  (no I/O operations logged)\n"@)
    } else {
        base::emit(v, "--- I/O log ---\n"@ + io_lines(v.io_log) + "---\n"@)
    }
}

impl VM {
    /// Notes an operation.
    fn log_io(&mut self, what: &str, arg: &str)
        ensures
            final(self)@ == io_noted(old(self)@, what@ + arg@),
    {
        reveal(io_noted);
        let ghost before = self@.io_log;
        let mut s = text(what);
        s.append(arg);
        self.io_log.push(s);
        assert(self@.io_log =~= before.push(what@ + arg@));
        if self.io_log.len() > IO_KEPT {
            let _ = self.io_log.remove(0);
            assert(self@.io_log =~= before.push(what@ + arg@).skip(1));
        }
    }

    pub(crate) fn prim_io_log(&mut self)
        ensures
            final(self)@ == p_io_log(old(self)@),
    {
        reveal(p_io_log);
        if self.io_log.len() == 0 {
            self.emit_str("  (no I/O operations logged)\n");
            return;
        }
        let mut out = text("--- I/O log ---\n");
        let ghost start = out@;
        let ghost es = self@.io_log;
        let mut i: usize = 0;
        assert(out@ =~= start + io_lines(es.take(0)));
        while i < self.io_log.len()
            invariant
                i <= self.io_log@.len(),
                self == old(self),
                es == self@.io_log,
                out@ == start + io_lines(es.take(i as int)),
            decreases self.io_log@.len() - i,
        {
            assert(es[i as int] == self.io_log@[i as int]@);
            let mut s = text("  ");
            s.append(self.io_log[i].as_str());
            s.append("\n");
            out.append(s.as_str());
            i = i + 1;
            assert(es.take(i as int).drop_last() =~= es.take(i - 1));
            assert(out@ =~= start + io_lines(es.take(i as int)));
        }
        assert(es.take(i as int) =~= es);
        out.append("---\n");
        self.emit_str(out.as_str());
    }
}

// ---------------------------------------------------------------------------
// Operations
// ---------------------------------------------------------------------------

/// The text of a write operation.
pub open spec fn sized(path: Seq<char>, n: usize) -> Seq<char> {
    path + " ("@ + text::dec(n as nat) + " bytes)"@
}

/// FILE-WRITE" path" ( addr n -- )
#[verifier::opaque]
pub open spec fn io_write(v: VmV, path: Seq<char>) -> VmV {
    if v.sandbox {
        base::complained(v, "FILE-WRITE"@ + ": blocked by sandbox\n"@)
    } else {
        let (n, v) = base::popped(v);
        let (a, v) = base::popped(v);
        if n < 0 {
            base::crash(v)
        } else {
            base::asked(
                io_noted(v, "FILE-WRITE "@ + sized(path, n as usize)),
                RequestV::FileWrite {
                    path,
                    data: net::bytes_at(v.memory, a as usize, n as usize as int),
                },
            )
        }
    }
}

/// FILE-DELETE" path" ( -- flag )
#[verifier::opaque]
pub open spec fn io_delete(v: VmV, path: Seq<char>) -> VmV {
    if v.sandbox {
        base::pushed(base::complained(v, "FILE-DELETE"@ + ": blocked by sandbox\n"@), 0)
    } else {
        base::asked(io_noted(v, "FILE-DELETE "@ + path), RequestV::FileDelete { path })
    }
}

/// The machine with three more cells on the stack.
pub open spec fn pushed3(v: VmV, a: i64, b: i64, c: i64) -> VmV {
    base::pushed(base::pushed(base::pushed(v, a), b), c)
}

/// HTTP-POST" url" ( addr n -- addr n status )
#[verifier::opaque]
pub open spec fn io_post(v: VmV, url: Seq<char>) -> VmV {
    if v.sandbox {
        pushed3(base::complained(v, "HTTP-POST"@ + ": blocked by sandbox\n"@), 0, 0, 0)
    } else {
        let (n, v) = base::popped(v);
        let (a, v) = base::popped(v);
        if n < 0 {
            base::crash(v)
        } else {
            base::asked(
                io_noted(v, "HTTP-POST "@ + sized(url, n as usize)),
                RequestV::HttpPost {
                    url,
                    body: net::bytes_at(v.memory, a as usize, n as usize as int),
                },
            )
        }
    }
}

/// SHELL" command" ( -- addr n exit )
#[verifier::opaque]
pub open spec fn io_shell(v: VmV, command: Seq<char>) -> VmV {
    if v.sandbox {
        pushed3(base::complained(v, "SHELL: blocked by sandbox\n"@), 0, 0, -1i64)
    } else if !v.shell {
        pushed3(base::complained(v, "SHELL: disabled (use SHELL-ENABLE from REPL)\n"@), 0, 0, -1i64)
    } else {
        base::asked(io_noted(v, "SHELL "@ + command), RequestV::Shell { command })
    }
}

/// The host word with this number.
#[verifier::opaque]
pub open spec fn io_done(v: VmV, op: i64, s: Seq<char>) -> VmV {
    if op == 0 {
        base::asked(io_noted(v, "FILE-READ "@ + s), RequestV::FileRead { path: s })
    } else if op == 1 {
        io_write(v, s)
    } else if op == 2 {
        base::asked(io_noted(v, "FILE-EXISTS "@ + s), RequestV::FileExists { path: s })
    } else if op == 3 {
        base::asked(io_noted(v, "FILE-LIST "@ + s), RequestV::FileList { path: s })
    } else if op == 4 {
        io_delete(v, s)
    } else if op == 5 {
        base::asked(io_noted(v, "HTTP-GET "@ + s), RequestV::HttpGet { url: s })
    } else if op == 6 {
        io_post(v, s)
    } else if op == 7 {
        io_shell(v, s)
    } else if op == 8 {
        base::asked(io_noted(v, "ENV "@ + s), RequestV::Env { name: s })
    } else {
        v
    }
}

/// A host word with a text. In a definition it is compiled.
#[verifier::opaque]
pub open spec fn p_io(v: VmV, op: i64) -> VmV {
    let (s, v) = base::parsed(v, '"');
    if v.compiling {
        let (i, v) = base::stored(v, s);
        base::compiled(
            base::compiled(base::compiled(v, Op::Literal(i)), Op::Literal(op)),
            Op::Primitive(P_IO_RT),
        )
    } else {
        io_done(v, op, s)
    }
}

/// A host word in a compiled word.
#[verifier::opaque]
pub open spec fn p_io_rt(v: VmV) -> VmV {
    let (op, v) = base::popped(v);
    let (i, v) = base::popped(v);
    match goal_words::code_at(v, i as usize) {
        Some(s) => io_done(v, op, s),
        None => v,
    }
}

impl VM {
    fn push3(&mut self, a: Cell, b: Cell, c: Cell)
        ensures
            final(self)@ == pushed3(old(self)@, a, b, c),
    {
        self.push(a);
        self.push(b);
        self.push(c);
    }

    fn blocked(&mut self, what: &str)
        ensures
            final(self)@ == base::complained(old(self)@, what@ + ": blocked by sandbox\n"@),
    {
        let mut s = text(what);
        s.append(": blocked by sandbox\n");
        self.complain(s.as_str());
    }

    fn sized(path: &str, n: usize) -> (s: String)
        ensures
            s@ == sized(path@, n),
    {
        let mut s = text(path);
        s.append(" (");
        push_usize(&mut s, n);
        s.append(" bytes)");
        s
    }

    fn do_file_write(&mut self, path: &str)
        ensures
            final(self)@ == io_write(old(self)@, path@),
    {
        reveal(io_write);
        if self.sandbox_active {
            self.blocked("FILE-WRITE");
            return;
        }
        let n = self.pop();
        let addr = self.pop() as usize;
        if n < 0 {
            self.crash();
            return;
        }
        let data = self.cells_as_bytes(addr, n as usize);
        self.log_io("FILE-WRITE ", Self::sized(path, n as usize).as_str());
        self.ask(Request::FileWrite { path: text(path), data });
    }

    fn do_file_delete(&mut self, path: &str)
        ensures
            final(self)@ == io_delete(old(self)@, path@),
    {
        reveal(io_delete);
        if self.sandbox_active {
            self.blocked("FILE-DELETE");
            self.push(0);
            return;
        }
        self.log_io("FILE-DELETE ", path);
        self.ask(Request::FileDelete { path: text(path) });
    }

    fn do_http_post(&mut self, url: &str)
        ensures
            final(self)@ == io_post(old(self)@, url@),
    {
        reveal(io_post);
        if self.sandbox_active {
            self.blocked("HTTP-POST");
            self.push3(0, 0, 0);
            return;
        }
        let n = self.pop();
        let addr = self.pop() as usize;
        if n < 0 {
            self.crash();
            return;
        }
        let body = self.cells_as_bytes(addr, n as usize);
        self.log_io("HTTP-POST ", Self::sized(url, n as usize).as_str());
        self.ask(Request::HttpPost { url: text(url), body });
    }

    fn do_shell(&mut self, command: &str)
        ensures
            final(self)@ == io_shell(old(self)@, command@),
    {
        reveal(io_shell);
        if self.sandbox_active {
            self.complain("SHELL: blocked by sandbox\n");
            self.push3(0, 0, -1);
            return;
        }
        if !self.shell_enabled {
            self.complain("SHELL: disabled (use SHELL-ENABLE from REPL)\n");
            self.push3(0, 0, -1);
            return;
        }
        self.log_io("SHELL ", command);
        self.ask(Request::Shell { command: text(command) });
    }

    fn execute_io(&mut self, op: Cell, s: &str)
        ensures
            final(self)@ == io_done(old(self)@, op, s@),
    {
        reveal(io_done);
        if op == 0 {
            self.log_io("FILE-READ ", s);
            self.ask(Request::FileRead { path: text(s) });
        } else if op == 1 {
            self.do_file_write(s);
        } else if op == 2 {
            self.log_io("FILE-EXISTS ", s);
            self.ask(Request::FileExists { path: text(s) });
        } else if op == 3 {
            self.log_io("FILE-LIST ", s);
            self.ask(Request::FileList { path: text(s) });
        } else if op == 4 {
            self.do_file_delete(s);
        } else if op == 5 {
            self.log_io("HTTP-GET ", s);
            self.ask(Request::HttpGet { url: text(s) });
        } else if op == 6 {
            self.do_http_post(s);
        } else if op == 7 {
            self.do_shell(s);
        } else if op == 8 {
            self.log_io("ENV ", s);
            self.ask(Request::Env { name: text(s) });
        }
    }

    pub(crate) fn io_immediate(&mut self, op: Cell)
        ensures
            final(self)@ == p_io(old(self)@, op),
    {
        reveal(p_io);
        let s = self.parse_until('"');
        if self.compiling {
            let i = self.store_text(s);
            self.compile(Instruction::Literal(i));
            self.compile(Instruction::Literal(op));
            self.compile(Instruction::Primitive(P_IO_RT));
        } else {
            self.execute_io(op, s.as_str());
        }
    }

    pub(crate) fn rt_io(&mut self)
        ensures
            final(self)@ == p_io_rt(old(self)@),
    {
        reveal(p_io_rt);
        let op = self.pop();
        let i = self.pop() as usize;
        match self.text_at(i) {
            Some(s) => self.execute_io(op, s.as_str()),
            None => {},
        }
    }
}

// ---------------------------------------------------------------------------
// Replies
// ---------------------------------------------------------------------------

/// The machine after a host word has failed: told unless it is silent.
#[verifier::opaque]
pub open spec fn io_failed(v: VmV, what: Seq<char>, e: Seq<char>) -> VmV {
    if v.silent {
        v
    } else {
        base::complained(v, what + ": "@ + e + "\n"@)
    }
}

/// What is told of a failure.
pub open spec fn fault_of(r: ReplyV) -> Seq<char> {
    match r {
        ReplyV::Fault(e) => e,
        _ => "no answer"@,
    }
}

/// The machine after a reply with a body and a code, or without.
#[verifier::opaque]
pub open spec fn answered_with(v: VmV, what: Seq<char>, r: ReplyV, otherwise: i64) -> VmV {
    match r {
        ReplyV::Response { body, code } => base::pushed(net::padded(v, body), code),
        _ => pushed3(io_failed(v, what, fault_of(r)), 0, 0, otherwise),
    }
}

/// The machine after the reply to a host word.
#[verifier::opaque]
pub open spec fn io_replied(v: VmV, q: RequestV, r: ReplyV) -> VmV {
    match q {
        RequestV::Key => base::pushed(v, match r {
            ReplyV::Byte(b) => b as i64,
            _ => -1i64,
        }),
        RequestV::FileRead { .. } => match r {
            ReplyV::Bytes(b) => net::padded(v, b),
            _ => base::pushed(base::pushed(io_failed(v, "FILE-READ"@, fault_of(r)), 0), 0),
        },
        RequestV::FileWrite { .. } => match r {
            ReplyV::Done => v,
            _ => io_failed(v, "FILE-WRITE"@, fault_of(r)),
        },
        RequestV::FileExists { .. } => base::pushed(v, match r {
            ReplyV::Flag(b) => words::truth(b),
            _ => 0,
        }),
        RequestV::FileList { .. } => match r {
            ReplyV::Names(s) => base::emit(v, io_lines(order::sorted(s))),
            _ => io_failed(v, "FILE-LIST"@, fault_of(r)),
        },
        RequestV::FileDelete { .. } => base::pushed(v, match r {
            ReplyV::Done => -1i64,
            _ => 0,
        }),
        RequestV::HttpGet { .. } => answered_with(v, "HTTP-GET"@, r, 0),
        RequestV::HttpPost { .. } => answered_with(v, "HTTP-POST"@, r, 0),
        RequestV::Shell { .. } => answered_with(v, "SHELL"@, r, -1i64),
        RequestV::Env { .. } => match r {
            ReplyV::Text(s) => net::padded(v, encode_utf8(s)),
            _ => base::pushed(base::pushed(v, 0), 0),
        },
        _ => v,
    }
}

pub(crate) fn fault_text(r: &Reply) -> (s: String)
    ensures
        s@ == fault_of(r@),
{
    match r {
        Reply::Fault(e) => e.clone(),
        _ => text("no answer"),
    }
}

/// Names as lines.
pub(crate) fn format_names(v: &[String]) -> (out: String)
    ensures
        out@ == io_lines(text::texts(v@)),
{
    let mut out = String::new();
    let ghost es = text::texts(v@);
    let mut i: usize = 0;
    assert(out@ =~= io_lines(es.take(0)));
    while i < v.len()
        invariant
            i <= v@.len(),
            es == text::texts(v@),
            out@ == io_lines(es.take(i as int)),
        decreases v@.len() - i,
    {
        assert(es[i as int] == v@[i as int]@);
        let mut s = text("  ");
        s.append(v[i].as_str());
        s.append("\n");
        out.append(s.as_str());
        i = i + 1;
        assert(es.take(i as int).drop_last() =~= es.take(i - 1));
    }
    assert(es.take(i as int) =~= es);
    out
}

impl VM {
    fn io_failed(&mut self, what: &str, r: &Reply)
        ensures
            final(self)@ == io_failed(old(self)@, what@, fault_of(r@)),
    {
        reveal(io_failed);
        if !self.silent {
            let mut s = text(what);
            s.append(": ");
            s.append(fault_text(r).as_str());
            s.append("\n");
            self.complain(s.as_str());
        }
    }

    fn take_response(&mut self, what: &str, r: &Reply, otherwise: Cell)
        ensures
            final(self)@ == answered_with(old(self)@, what@, r@, otherwise),
    {
        reveal(answered_with);
        match r {
            Reply::Response { body, code } => {
                self.give_bytes(body);
                self.push(*code);
            },
            _ => {
                self.io_failed(what, r);
                self.push3(0, 0, otherwise);
            },
        }
    }

    /// Goes on after the reply to a host word.
    pub(crate) fn resume_io(&mut self, q: &Request, r: &Reply)
        ensures
            final(self)@ == io_replied(old(self)@, q@, r@),
    {
        reveal(io_replied);
        match q {
            Request::Key => {
                let x: Cell = match r {
                    Reply::Byte(b) => *b as Cell,
                    _ => -1,
                };
                self.push(x);
            },
            Request::FileRead { .. } => match r {
                Reply::Bytes(b) => self.give_bytes(b),
                _ => {
                    self.io_failed("FILE-READ", r);
                    self.push(0);
                    self.push(0);
                },
            },
            Request::FileWrite { .. } => match r {
                Reply::Done => {},
                _ => self.io_failed("FILE-WRITE", r),
            },
            Request::FileExists { .. } => {
                let x: Cell = match r {
                    Reply::Flag(b) => flag(*b),
                    _ => 0,
                };
                self.push(x);
            },
            Request::FileList { .. } => match r {
                Reply::Names(v) => {
                    let s = format_names(&sort_texts(v));
                    self.emit_str(s.as_str());
                },
                _ => self.io_failed("FILE-LIST", r),
            },
            Request::FileDelete { .. } => {
                let x: Cell = match r {
                    Reply::Done => -1,
                    _ => 0,
                };
                self.push(x);
            },
            Request::HttpGet { .. } => self.take_response("HTTP-GET", r, 0),
            Request::HttpPost { .. } => self.take_response("HTTP-POST", r, 0),
            Request::Shell { .. } => self.take_response("SHELL", r, -1),
            Request::Env { .. } => match r {
                Reply::Text(s) => self.give_bytes(s.as_str().as_bytes()),
                _ => {
                    self.push(0);
                    self.push(0);
                },
            },
            _ => {},
        }
    }
}

// ---------------------------------------------------------------------------
// Time, switches and trust
// ---------------------------------------------------------------------------

/// KEY ( -- byte )
#[verifier::opaque]
pub open spec fn p_key(v: VmV) -> VmV {
    base::asked(v, RequestV::Key)
}

/// TIMESTAMP ( -- seconds )
#[verifier::opaque]
pub open spec fn p_timestamp(v: VmV, t: Time) -> VmV {
    base::pushed(v, net::seconds(t) as i64)
}

/// SLEEP ( ms -- )
#[verifier::opaque]
pub open spec fn p_sleep(v: VmV) -> VmV {
    let (ms, v) = base::popped(v);
    if ms > 0 {
        base::asked(v, RequestV::Sleep { millis: ms as u64 })
    } else {
        v
    }
}

/// SANDBOX-ON and SANDBOX-OFF ( -- )
#[verifier::opaque]
pub open spec fn p_sandbox(v: VmV, on: bool) -> VmV {
    base::emit(VmV { sandbox: on, ..v }, if on {
        "sandbox: ON\n"@
    } else {
        "sandbox: OFF\n"@
    })
}

/// SHELL-ENABLE ( -- )
#[verifier::opaque]
pub open spec fn p_shell_enable(v: VmV) -> VmV {
    base::emit(VmV { shell: !v.shell, ..v }, "shell: "@ + (if v.shell {
        "DISABLED"@
    } else {
        "ENABLED"@
    }) + "\n"@)
}

/// TRUST ( id -- )
#[verifier::opaque]
pub open spec fn p_trust(v: VmV) -> VmV {
    let (x, v) = base::popped(v);
    let id = wire::w64(x as u64 as nat);
    base::emit(VmV { trusted: node::with_vote(v.trusted, id), ..v }, "trusted: "@ + node::hex16(x as u64) + "\n"@)
}

/// The words that clear the trusted peers ( -- )
#[verifier::opaque]
pub open spec fn p_trust_clear(v: VmV, all: bool) -> VmV {
    base::emit(VmV { trusted: Seq::empty(), ..v }, if all {
        "trust: ALL (cleared)\n"@
    } else {
        "trust: NONE\n"@
    })
}

impl VM {
    pub(crate) fn prim_key(&mut self)
        ensures
            final(self)@ == p_key(old(self)@),
    {
        reveal(p_key);
        self.ask(Request::Key);
    }

    pub(crate) fn prim_timestamp(&mut self, t: Time)
        ensures
            final(self)@ == p_timestamp(old(self)@, t),
    {
        reveal(p_timestamp);
        self.push((t.epoch / 1000) as Cell);
    }

    pub(crate) fn prim_sleep(&mut self)
        ensures
            final(self)@ == p_sleep(old(self)@),
    {
        reveal(p_sleep);
        let ms = self.pop();
        if ms > 0 {
            self.ask(Request::Sleep { millis: ms as u64 });
        }
    }

    pub(crate) fn prim_sandbox(&mut self, on: bool)
        ensures
            final(self)@ == p_sandbox(old(self)@, on),
    {
        reveal(p_sandbox);
        self.sandbox_active = on;
        if on {
            self.emit_str("sandbox: ON\n");
        } else {
            self.emit_str("sandbox: OFF\n");
        }
    }

    pub(crate) fn prim_shell_enable(&mut self)
        ensures
            final(self)@ == p_shell_enable(old(self)@),
    {
        reveal(p_shell_enable);
        let was = self.shell_enabled;
        self.shell_enabled = !was;
        let mut s = text("shell: ");
        s.append(if was {
            "DISABLED"
        } else {
            "ENABLED"
        });
        s.append("\n");
        self.emit_str(s.as_str());
    }

    pub(crate) fn prim_trust(&mut self)
        ensures
            final(self)@ == p_trust(old(self)@),
    {
        reveal(p_trust);
        let x = self.pop() as u64;
        let mut b: Vec<u8> = Vec::new();
        write_u64(&mut b, x);
        assert(b@ =~= wire::w64(x as nat));
        proof {
            wire::lemma_be(x as nat, 8);
        }
        let id: NodeId = [b[0], b[1], b[2], b[3], b[4], b[5], b[6], b[7]];
        assert(id@ =~= wire::w64(x as nat));
        let ghost before = self.trusted_peers@;
        let ghost v = self@;
        if !has_id(&self.trusted_peers, &id) {
            self.trusted_peers.push(id);
            assert(node::id_views(self.trusted_peers@) =~= node::id_views(before).push(id@));
        }
        assert(self@ == VmV { trusted: node::with_vote(v.trusted, id@), ..v });
        let mut s = text("trusted: ");
        push_hex16(&mut s, x);
        s.append("\n");
        self.emit_str(s.as_str());
    }

    pub(crate) fn prim_trust_clear(&mut self, all: bool)
        ensures
            final(self)@ == p_trust_clear(old(self)@, all),
    {
        reveal(p_trust_clear);
        self.trusted_peers.clear();
        assert(node::id_views(self.trusted_peers@) =~= Seq::<Seq<u8>>::empty());
        if all {
            self.emit_str("trust: ALL (cleared)\n");
        } else {
            self.emit_str("trust: NONE\n");
        }
    }
}

} // verus!
