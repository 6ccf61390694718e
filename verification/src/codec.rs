//! The byte form of dictionaries and memory, shared by state packets and state files.

use crate::types;
use crate::types::{Cell, Entry, Instruction, Op, WordV};
use crate::wire;
use crate::wire::{
    write_i64, write_len32, write_long_string, write_string, write_u8, Input, Reader,
};
use vstd::prelude::*;
use vstd::utf8::*;

verus! {

/// An instruction: a tag, then its operand. `long` gives texts a length of four bytes instead of
/// two.
pub open spec fn w_op(op: Op, long: bool) -> Seq<u8> {
    match op {
        Op::Primitive(id) => wire::w8(0) + wire::w32(id as nat),
        Op::Literal(v) => wire::w8(1) + wire::wi64(v as int),
        Op::Call(i) => wire::w8(2) + wire::w32(i as nat),
        Op::StringLit(s) => wire::w8(3) + (if long {
            wire::wlong(s)
        } else {
            wire::wtext(s)
        }),
        Op::Branch(o) => wire::w8(4) + wire::wi64(o as int),
        Op::BranchIfZero(o) => wire::w8(5) + wire::wi64(o as int),
    }
}

/// Instructions in a row.
pub open spec fn w_ops(s: Seq<Op>, long: bool) -> Seq<u8>
    decreases s.len(),
{
    if s.len() == 0 {
        Seq::empty()
    } else {
        w_ops(s.drop_last(), long) + w_op(s.last(), long)
    }
}

/// The flags of a dictionary entry.
pub open spec fn flags(w: WordV) -> int {
    (if w.immediate {
        1int
    } else {
        0
    }) + (if w.hidden {
        2int
    } else {
        0
    })
}

/// A dictionary entry.
pub open spec fn w_word(w: WordV, long: bool) -> Seq<u8> {
    wire::wtext(w.name) + wire::w8(flags(w)) + wire::w32(w.body.len()) + w_ops(w.body, long)
}

/// Dictionary entries in a row.
pub open spec fn w_words(s: Seq<WordV>, long: bool) -> Seq<u8>
    decreases s.len(),
{
    if s.len() == 0 {
        Seq::empty()
    } else {
        w_words(s.drop_last(), long) + w_word(s.last(), long)
    }
}

/// Cells in a row.
pub open spec fn w_cells(s: Seq<i64>) -> Seq<u8>
    decreases s.len(),
{
    if s.len() == 0 {
        Seq::empty()
    } else {
        w_cells(s.drop_last()) + wire::wi64(s.last() as int)
    }
}

/// Identities in a row.
pub open spec fn w_ids(s: Seq<u64>) -> Seq<u8>
    decreases s.len(),
{
    if s.len() == 0 {
        Seq::empty()
    } else {
        w_ids(s.drop_last()) + wire::w64(s.last() as nat)
    }
}

/// The part of memory that is in use: the first `here` cells.
pub open spec fn used(memory: Seq<i64>, here: usize) -> Seq<i64> {
    if here < memory.len() {
        memory.take(here as int)
    } else {
        memory
    }
}

/// Memory: the next free address, the number of cells in use, and those cells.
pub open spec fn w_memory(memory: Seq<i64>, here: usize) -> Seq<u8> {
    wire::w32(here as nat) + wire::w32(used(memory, here).len()) + w_cells(used(memory, here))
}

/// Appends an instruction.
pub fn write_instruction(buf: &mut Vec<u8>, instr: &Instruction, long: bool)
    ensures
        final(buf)@ == old(buf)@ + w_op(instr@, long),
{
    match instr {
        Instruction::Primitive(id) => {
            write_u8(buf, 0);
            write_len32(buf, *id);
        },
        Instruction::Literal(v) => {
            write_u8(buf, 1);
            write_i64(buf, *v);
        },
        Instruction::Call(i) => {
            write_u8(buf, 2);
            write_len32(buf, *i);
        },
        Instruction::StringLit(s) => {
            write_u8(buf, 3);
            if long {
                write_long_string(buf, s.as_str());
            } else {
                write_string(buf, s.as_str());
            }
        },
        Instruction::Branch(o) => {
            write_u8(buf, 4);
            write_i64(buf, *o);
        },
        Instruction::BranchIfZero(o) => {
            write_u8(buf, 5);
            write_i64(buf, *o);
        },
    }
    assert(buf@ =~= old(buf)@ + w_op(instr@, long));
}

/// Appends the entries of a dictionary.
pub fn write_dictionary(buf: &mut Vec<u8>, d: &[Entry], long: bool)
    ensures
        final(buf)@ == old(buf)@ + wire::w32(d@.len()) + w_words(types::words(d@), long),
{
    write_len32(buf, d.len());
    let ghost start = buf@;
    let ghost ws = types::words(d@);
    let mut i: usize = 0;
    assert(ws.take(0) =~= Seq::<WordV>::empty());
    assert(buf@ =~= start + w_words(ws.take(0), long));
    while i < d.len()
        invariant
            i <= d@.len(),
            ws == types::words(d@),
            buf@ == start + w_words(ws.take(i as int), long),
        decreases d@.len() - i,
    {
        let e = &d[i];
        let ghost before = buf@;
        write_string(buf, e.name.as_str());
        let f: u8 = (if e.immediate {
            1
        } else {
            0
        }) + (if e.hidden {
            2
        } else {
            0
        });
        write_u8(buf, f);
        write_len32(buf, e.body.len());
        let ghost mid = buf@;
        let ghost os = types::ops(e.body@);
        let mut k: usize = 0;
        assert(os.take(0) =~= Seq::<Op>::empty());
        assert(buf@ =~= mid + w_ops(os.take(0), long));
        while k < e.body.len()
            invariant
                k <= e.body@.len(),
                os == types::ops(e.body@),
                buf@ == mid + w_ops(os.take(k as int), long),
            decreases e.body@.len() - k,
        {
            write_instruction(buf, &e.body[k], long);
            k = k + 1;
            assert(os.take(k as int).drop_last() =~= os.take(k - 1));
            assert(buf@ =~= mid + w_ops(os.take(k as int), long));
        }
        i = i + 1;
        proof {
            assert(os.take(k as int) =~= os);
            assert(buf@ =~= before + w_word(e@, long));
            assert(ws.take(i as int).drop_last() =~= ws.take(i - 1));
            assert(buf@ =~= start + w_words(ws.take(i as int), long));
        }
    }
    assert(ws.take(i as int) =~= ws);
}

/// Appends cells in a row.
pub fn write_cells(buf: &mut Vec<u8>, v: &[Cell], n: usize)
    requires
        n <= v@.len(),
    ensures
        final(buf)@ == old(buf)@ + w_cells(v@.take(n as int)),
{
    let mut i: usize = 0;
    assert(v@.take(0) =~= Seq::<i64>::empty());
    assert(buf@ =~= old(buf)@ + w_cells(v@.take(0)));
    while i < n
        invariant
            i <= n <= v@.len(),
            buf@ == old(buf)@ + w_cells(v@.take(i as int)),
        decreases n - i,
    {
        write_i64(buf, v[i]);
        i = i + 1;
        assert(v@.take(i as int).drop_last() =~= v@.take(i - 1));
        assert(buf@ =~= old(buf)@ + w_cells(v@.take(i as int)));
    }
}

/// Appends identities in a row.
pub fn write_ids(buf: &mut Vec<u8>, v: &[u64])
    ensures
        final(buf)@ == old(buf)@ + w_ids(v@),
{
    let mut i: usize = 0;
    assert(v@.take(0) =~= Seq::<u64>::empty());
    assert(buf@ =~= old(buf)@ + w_ids(v@.take(0)));
    while i < v.len()
        invariant
            i <= v@.len(),
            buf@ == old(buf)@ + w_ids(v@.take(i as int)),
        decreases v@.len() - i,
    {
        wire::write_u64(buf, v[i]);
        i = i + 1;
        assert(v@.take(i as int).drop_last() =~= v@.take(i - 1));
        assert(buf@ =~= old(buf)@ + w_ids(v@.take(i as int)));
    }
    assert(v@.take(i as int) =~= v@);
}

/// Appends memory.
pub fn write_memory(buf: &mut Vec<u8>, memory: &[Cell], here: usize)
    ensures
        final(buf)@ == old(buf)@ + w_memory(memory@, here),
{
    let n: usize = if here < memory.len() {
        here
    } else {
        memory.len()
    };
    write_len32(buf, here);
    write_len32(buf, n);
    write_cells(buf, memory, n);
    assert(memory@.take(n as int) =~= used(memory@, here));
    assert(buf@ =~= old(buf)@ + w_memory(memory@, here));
}

/// Takes an instruction. An unknown tag counts as running past the end.
pub open spec fn get_op(i: Input, long: bool) -> (Op, Input) {
    let (tag, i) = wire::get_nat(i, 1);
    if tag == 0 {
        let (n, i) = wire::get_nat(i, 4);
        (Op::Primitive(n as usize), i)
    } else if tag == 1 {
        let (v, i) = wire::get_int(i);
        (Op::Literal(v as i64), i)
    } else if tag == 2 {
        let (n, i) = wire::get_nat(i, 4);
        (Op::Call(n as usize), i)
    } else if tag == 3 {
        let (s, i) = wire::get_text(i, if long {
            4
        } else {
            2
        });
        (Op::StringLit(s), i)
    } else if tag == 4 {
        let (v, i) = wire::get_int(i);
        (Op::Branch(v as i64), i)
    } else if tag == 5 {
        let (v, i) = wire::get_int(i);
        (Op::BranchIfZero(v as i64), i)
    } else {
        (Op::Literal(0), wire::failed())
    }
}

/// Takes `n` instructions.
pub open spec fn get_ops(i: Input, n: int, long: bool) -> (Seq<Op>, Input)
    decreases n,
{
    if n <= 0 {
        (Seq::empty(), i)
    } else {
        let (s, i) = get_ops(i, n - 1, long);
        let (op, i) = get_op(i, long);
        (s.push(op), i)
    }
}

/// Takes a dictionary entry.
pub open spec fn get_word(i: Input, long: bool) -> (WordV, Input) {
    let (name, i) = wire::get_text(i, 2);
    let (f, i) = wire::get_nat(i, 1);
    let (n, i) = wire::get_nat(i, 4);
    let (body, i) = get_ops(i, n as int, long);
    (WordV { name, immediate: f % 2 == 1, hidden: (f / 2) % 2 == 1, body }, i)
}

/// Takes `n` dictionary entries.
pub open spec fn get_words(i: Input, n: int, long: bool) -> (Seq<WordV>, Input)
    decreases n,
{
    if n <= 0 {
        (Seq::empty(), i)
    } else {
        let (s, i) = get_words(i, n - 1, long);
        let (w, i) = get_word(i, long);
        (s.push(w), i)
    }
}

/// Takes `n` cells.
pub open spec fn get_cells(i: Input, n: int) -> (Seq<i64>, Input)
    decreases n,
{
    if n <= 0 {
        (Seq::empty(), i)
    } else {
        let (s, i) = get_cells(i, n - 1);
        let (v, i) = wire::get_int(i);
        (s.push(v as i64), i)
    }
}

/// Takes `n` identities.
pub open spec fn get_ids(i: Input, n: int) -> (Seq<u64>, Input)
    decreases n,
{
    if n <= 0 {
        (Seq::empty(), i)
    } else {
        let (s, i) = get_ids(i, n - 1);
        let (v, i) = wire::get_nat(i, 8);
        (s.push(v as u64), i)
    }
}

/// A machine's memory with these cells at its start and zeros behind them.
pub open spec fn filled(cells: Seq<i64>) -> Seq<i64> {
    Seq::new(65536, |j: int| if j < cells.len() {
        cells[j]
    } else {
        0
    })
}

/// Takes memory: the cells, of which at most as many are taken as a machine has, and the next free
/// address.
pub open spec fn get_memory(i: Input) -> (Seq<i64>, nat, Input) {
    let (here, i) = wire::get_nat(i, 4);
    let (n, i) = wire::get_nat(i, 4);
    let (cells, i) = get_cells(i, if n < 65536 {
        n as int
    } else {
        65536
    });
    (filled(cells), here, i)
}

/// Takes given bytes; anything else counts as running past the end.
pub open spec fn expect(i: Input, bytes: Seq<u8>) -> Input {
    let (b, i) = wire::get_bytes(i, bytes.len() as int);
    if i.ok && b == bytes {
        i
    } else {
        wire::failed()
    }
}

/// Nothing more is taken once the input has run out.
pub proof fn lemma_failed(n: int, long: bool)
    ensures
        get_ops(wire::failed(), n, long).1 == wire::failed(),
        get_words(wire::failed(), n, long).1 == wire::failed(),
        get_cells(wire::failed(), n).1 == wire::failed(),
        get_ids(wire::failed(), n).1 == wire::failed(),
    decreases n,
{
    if n > 0 {
        lemma_failed(n - 1, long);
    }
}

proof fn lemma_ops_keep_failing(i: Input, k: int, n: int, long: bool)
    requires
        0 <= k <= n,
        get_ops(i, k, long).1 == wire::failed(),
    ensures
        get_ops(i, n, long).1 == wire::failed(),
    decreases n,
{
    if k < n {
        lemma_ops_keep_failing(i, k, n - 1, long);
    }
}

proof fn lemma_words_keep_failing(i: Input, k: int, n: int, long: bool)
    requires
        0 <= k <= n,
        get_words(i, k, long).1 == wire::failed(),
    ensures
        get_words(i, n, long).1 == wire::failed(),
    decreases n,
{
    if k < n {
        lemma_words_keep_failing(i, k, n - 1, long);
        let j = get_words(i, n - 1, long).1;
        let (name, j1) = wire::get_text(j, 2);
        let (f, j2) = wire::get_nat(j1, 1);
        let (m, j3) = wire::get_nat(j2, 4);
        lemma_failed(m as int, long);
    }
}

proof fn lemma_cells_keep_failing(i: Input, k: int, n: int)
    requires
        0 <= k <= n,
        get_cells(i, k).1 == wire::failed(),
    ensures
        get_cells(i, n).1 == wire::failed(),
    decreases n,
{
    if k < n {
        lemma_cells_keep_failing(i, k, n - 1);
    }
}

proof fn lemma_ids_keep_failing(i: Input, k: int, n: int)
    requires
        0 <= k <= n,
        get_ids(i, k).1 == wire::failed(),
    ensures
        get_ids(i, n).1 == wire::failed(),
    decreases n,
{
    if k < n {
        lemma_ids_keep_failing(i, k, n - 1);
    }
}

/// An input that has run out is `wire::failed()`.
pub open spec fn canonical(i: Input) -> bool {
    i.ok || i == wire::failed()
}

/// Takes an instruction.
pub fn read_instruction(r: &mut Reader, long: bool) -> (op: Instruction)
    requires
        old(r).wf(),
    ensures
        final(r).wf(),
        (op@, final(r)@) == get_op(old(r)@, long),
{
    let tag = r.read_u8();
    proof {
        wire::lemma_pow256();
    }
    match tag {
        0 => {
            let n = r.read_u32();
            Instruction::Primitive(n as usize)
        },
        1 => Instruction::Literal(r.read_i64()),
        2 => {
            let n = r.read_u32();
            Instruction::Call(n as usize)
        },
        3 => {
            let s = if long {
                r.read_long_string()
            } else {
                r.read_string()
            };
            Instruction::StringLit(s)
        },
        4 => Instruction::Branch(r.read_i64()),
        5 => Instruction::BranchIfZero(r.read_i64()),
        _ => {
            r.fail();
            Instruction::Literal(0)
        },
    }
}

/// Takes `n` instructions.
fn read_body(r: &mut Reader, n: u32, long: bool) -> (body: Vec<Instruction>)
    requires
        old(r).wf(),
        canonical(old(r)@),
    ensures
        final(r).wf(),
        canonical(final(r)@),
        final(r)@ == get_ops(old(r)@, n as int, long).1,
        final(r)@.ok ==> types::ops(body@) == get_ops(old(r)@, n as int, long).0,
{
    let mut body: Vec<Instruction> = Vec::new();
    let mut k: u32 = 0;
    assert(types::ops(body@) =~= Seq::<Op>::empty());
    while k < n && r.good()
        invariant
            k <= n,
            r.wf(),
            canonical(r@),
            r@ == get_ops(old(r)@, k as int, long).1,
            r@.ok ==> types::ops(body@) == get_ops(old(r)@, k as int, long).0,
        decreases n - k,
    {
        let ghost before = types::ops(body@);
        let op = read_instruction(r, long);
        body.push(op);
        assert(types::ops(body@) =~= before.push(op@));
        k = k + 1;
    }
    proof {
        if !r@.ok {
            lemma_ops_keep_failing(old(r)@, k as int, n as int, long);
        }
    }
    body
}

/// Takes a dictionary of `n` entries.
pub fn read_dictionary(r: &mut Reader, n: u32, long: bool) -> (d: Vec<Entry>)
    requires
        old(r).wf(),
        canonical(old(r)@),
    ensures
        final(r).wf(),
        canonical(final(r)@),
        final(r)@ == get_words(old(r)@, n as int, long).1,
        final(r)@.ok ==> types::words(d@) == get_words(old(r)@, n as int, long).0,
{
    let mut d: Vec<Entry> = Vec::new();
    let mut k: u32 = 0;
    assert(types::words(d@) =~= Seq::<WordV>::empty());
    while k < n && r.good()
        invariant
            k <= n,
            r.wf(),
            canonical(r@),
            r@ == get_words(old(r)@, k as int, long).1,
            r@.ok ==> types::words(d@) == get_words(old(r)@, k as int, long).0,
        decreases n - k,
    {
        let ghost before = types::words(d@);
        let name = r.read_string();
        let f = r.read_u8();
        let m = r.read_u32();
        let body = read_body(r, m, long);
        let e = Entry { name, immediate: f % 2 == 1, hidden: (f / 2) % 2 == 1, body };
        d.push(e);
        assert(types::words(d@) =~= before.push(e@));
        k = k + 1;
    }
    proof {
        if !r@.ok {
            lemma_words_keep_failing(old(r)@, k as int, n as int, long);
        }
    }
    d
}

/// Takes `n` cells.
pub fn read_cells(r: &mut Reader, n: u32) -> (v: Vec<Cell>)
    requires
        old(r).wf(),
        canonical(old(r)@),
    ensures
        final(r).wf(),
        canonical(final(r)@),
        final(r)@ == get_cells(old(r)@, n as int).1,
        final(r)@.ok ==> v@ == get_cells(old(r)@, n as int).0,
{
    let mut v: Vec<Cell> = Vec::new();
    let mut k: u32 = 0;
    while k < n && r.good()
        invariant
            k <= n,
            r.wf(),
            canonical(r@),
            r@ == get_cells(old(r)@, k as int).1,
            r@.ok ==> v@ == get_cells(old(r)@, k as int).0,
        decreases n - k,
    {
        v.push(r.read_i64());
        k = k + 1;
    }
    proof {
        if !r@.ok {
            lemma_cells_keep_failing(old(r)@, k as int, n as int);
        }
    }
    v
}

/// Takes `n` identities.
pub fn read_ids(r: &mut Reader, n: u32) -> (v: Vec<u64>)
    requires
        old(r).wf(),
        canonical(old(r)@),
    ensures
        final(r).wf(),
        canonical(final(r)@),
        final(r)@ == get_ids(old(r)@, n as int).1,
        final(r)@.ok ==> v@ == get_ids(old(r)@, n as int).0,
{
    let mut v: Vec<u64> = Vec::new();
    let mut k: u32 = 0;
    while k < n && r.good()
        invariant
            k <= n,
            r.wf(),
            canonical(r@),
            r@ == get_ids(old(r)@, k as int).1,
            r@.ok ==> v@ == get_ids(old(r)@, k as int).0,
        decreases n - k,
    {
        v.push(r.read_u64());
        k = k + 1;
    }
    proof {
        if !r@.ok {
            lemma_ids_keep_failing(old(r)@, k as int, n as int);
        }
    }
    v
}

/// Takes memory: the cells of a machine, and the next free address.
pub fn read_memory(r: &mut Reader) -> (m: (Vec<Cell>, u32))
    requires
        old(r).wf(),
        canonical(old(r)@),
    ensures
        final(r).wf(),
        canonical(final(r)@),
        final(r)@ == get_memory(old(r)@).2,
        final(r)@.ok ==> m.0@ == get_memory(old(r)@).0 && m.1 as nat == get_memory(old(r)@).1,
{
    let here = r.read_u32();
    let n = r.read_u32();
    let count: u32 = if n < 65536 {
        n
    } else {
        65536
    };
    let ghost start = r@;
    let mut cells = read_cells(r, count);
    proof {
        lemma_cells_len(start, count as int);
    }
    let ghost taken = cells@;
    while cells.len() < 65536
        invariant
            cells@.len() <= 65536 || cells@ == taken,
            taken.len() <= cells@.len(),
            forall|j: int| 0 <= j < taken.len() ==> cells@[j] == taken[j],
            forall|j: int| taken.len() <= j < cells@.len() ==> cells@[j] == 0,
        decreases 65536 - cells@.len(),
    {
        cells.push(0);
    }
    proof {
        if r@.ok {
            assert(cells@ =~= filled(taken));
        }
    }
    (cells, here)
}

proof fn lemma_cells_len(i: Input, n: int)
    requires
        0 <= n,
    ensures
        get_cells(i, n).0.len() == n,
    decreases n,
{
    if n > 0 {
        lemma_cells_len(i, n - 1);
    }
}

/// Takes given bytes.
pub fn read_expected(r: &mut Reader, bytes: &[u8])
    requires
        old(r).wf(),
    ensures
        final(r).wf(),
        canonical(final(r)@),
        final(r)@ == expect(old(r)@, bytes@),
{
    let b = r.read_bytes(bytes.len());
    if r.good() {
        let mut i: usize = 0;
        while i < bytes.len()
            invariant
                i <= bytes@.len(),
                b@.len() == bytes@.len(),
                forall|j: int| 0 <= j < i ==> b@[j] == bytes@[j],
                r.wf(),
                r@.ok,
                r@ == wire::get_bytes(old(r)@, bytes@.len() as int).1,
                b@ == wire::get_bytes(old(r)@, bytes@.len() as int).0,
            decreases bytes@.len() - i,
        {
            if b[i] != bytes[i] {
                r.fail();
                return;
            }
            i = i + 1;
        }
        assert(b@ =~= bytes@);
    }
}

// ---------------------------------------------------------------------------
// Reading gives back what was written
// ---------------------------------------------------------------------------

/// True of an instruction whose operand fits in the bytes for it.
pub open spec fn op_fits(op: Op, long: bool) -> bool {
    match op {
        Op::Primitive(id) => id <= u32::MAX,
        Op::Call(i) => i <= u32::MAX,
        Op::StringLit(s) => encode_utf8(s).len() < (if long {
            4294967296
        } else {
            65536int
        }),
        _ => true,
    }
}

/// True of a dictionary entry whose parts fit in the bytes for them.
pub open spec fn word_fits(w: WordV, long: bool) -> bool {
    &&& encode_utf8(w.name).len() < 65536
    &&& w.body.len() <= u32::MAX
    &&& forall|i: int| 0 <= i < w.body.len() ==> op_fits(#[trigger] w.body[i], long)
}

/// True of a dictionary whose entries fit.
pub open spec fn words_fit(s: Seq<WordV>, long: bool) -> bool {
    &&& s.len() <= u32::MAX
    &&& forall|i: int| 0 <= i < s.len() ==> word_fits(#[trigger] s[i], long)
}

proof fn lemma_op_back(op: Op, long: bool, t: Seq<u8>)
    requires
        op_fits(op, long),
    ensures
        get_op(wire::input(w_op(op, long) + t), long) == (op, wire::input(t)),
{
    wire::lemma_pow256();
    match op {
        Op::Primitive(id) => {
            assert(w_op(op, long) + t =~= wire::w8(0) + (wire::w32(id as nat) + t));
            wire::lemma_get_u8(0, wire::w32(id as nat) + t);
            wire::lemma_get_nat(id as nat, 4, t);
        },
        Op::Literal(v) => {
            assert(w_op(op, long) + t =~= wire::w8(1) + (wire::wi64(v as int) + t));
            wire::lemma_get_u8(1, wire::wi64(v as int) + t);
            wire::lemma_get_int(v as int, t);
        },
        Op::Call(i) => {
            assert(w_op(op, long) + t =~= wire::w8(2) + (wire::w32(i as nat) + t));
            wire::lemma_get_u8(2, wire::w32(i as nat) + t);
            wire::lemma_get_nat(i as nat, 4, t);
        },
        Op::StringLit(s) => {
            if long {
                assert(w_op(op, long) + t =~= wire::w8(3) + (wire::wlong(s) + t));
                wire::lemma_get_u8(3, wire::wlong(s) + t);
                wire::lemma_get_text(s, 4, t);
            } else {
                assert(w_op(op, long) + t =~= wire::w8(3) + (wire::wtext(s) + t));
                wire::lemma_get_u8(3, wire::wtext(s) + t);
                wire::lemma_get_text(s, 2, t);
            }
        },
        Op::Branch(v) => {
            assert(w_op(op, long) + t =~= wire::w8(4) + (wire::wi64(v as int) + t));
            wire::lemma_get_u8(4, wire::wi64(v as int) + t);
            wire::lemma_get_int(v as int, t);
        },
        Op::BranchIfZero(v) => {
            assert(w_op(op, long) + t =~= wire::w8(5) + (wire::wi64(v as int) + t));
            wire::lemma_get_u8(5, wire::wi64(v as int) + t);
            wire::lemma_get_int(v as int, t);
        },
    }
}

proof fn lemma_ops_back(s: Seq<Op>, long: bool, t: Seq<u8>)
    requires
        forall|i: int| 0 <= i < s.len() ==> op_fits(#[trigger] s[i], long),
    ensures
        get_ops(wire::input(w_ops(s, long) + t), s.len() as int, long) == (s, wire::input(t)),
    decreases s.len(),
{
    if s.len() == 0 {
        assert(w_ops(s, long) + t =~= t);
        assert(s =~= Seq::<Op>::empty());
    } else {
        let d = s.drop_last();
        let u = w_op(s.last(), long) + t;
        assert(w_ops(s, long) + t =~= w_ops(d, long) + u);
        lemma_ops_back(d, long, u);
        lemma_op_back(s.last(), long, t);
        assert(d.push(s.last()) =~= s);
    }
}

#[verifier::spinoff_prover]
#[verifier::rlimit(40)]
proof fn lemma_word_back(w: WordV, long: bool, t: Seq<u8>)
    requires
        word_fits(w, long),
    ensures
        get_word(wire::input(w_word(w, long) + t), long) == (w, wire::input(t)),
{
    wire::lemma_pow256();
    let t3 = w_ops(w.body, long) + t;
    let t2 = wire::w32(w.body.len()) + t3;
    let t1 = wire::w8(flags(w)) + t2;
    assert(w_word(w, long) + t =~= wire::wtext(w.name) + t1);
    wire::lemma_get_text(w.name, 2, t1);
    wire::lemma_get_u8(flags(w) as nat, t2);
    wire::lemma_get_nat(w.body.len(), 4, t3);
    lemma_ops_back(w.body, long, t);
}

/// Taking a dictionary gives back the one put.
pub proof fn lemma_words_back(s: Seq<WordV>, long: bool, t: Seq<u8>)
    requires
        forall|i: int| 0 <= i < s.len() ==> word_fits(#[trigger] s[i], long),
    ensures
        get_words(wire::input(w_words(s, long) + t), s.len() as int, long) == (s, wire::input(t)),
    decreases s.len(),
{
    if s.len() == 0 {
        assert(w_words(s, long) + t =~= t);
        assert(s =~= Seq::<WordV>::empty());
    } else {
        let d = s.drop_last();
        let u = w_word(s.last(), long) + t;
        assert(w_words(s, long) + t =~= w_words(d, long) + u);
        lemma_words_back(d, long, u);
        lemma_word_back(s.last(), long, t);
        assert(d.push(s.last()) =~= s);
    }
}

/// Taking cells gives back those put.
pub proof fn lemma_cells_back(s: Seq<i64>, t: Seq<u8>)
    ensures
        get_cells(wire::input(w_cells(s) + t), s.len() as int) == (s, wire::input(t)),
    decreases s.len(),
{
    if s.len() == 0 {
        assert(w_cells(s) + t =~= t);
        assert(s =~= Seq::<i64>::empty());
    } else {
        let d = s.drop_last();
        let u = wire::wi64(s.last() as int) + t;
        assert(w_cells(s) + t =~= w_cells(d) + u);
        lemma_cells_back(d, u);
        wire::lemma_get_int(s.last() as int, t);
        assert(d.push(s.last()) =~= s);
    }
}

/// Taking identities gives back those put.
pub proof fn lemma_ids_back(s: Seq<u64>, t: Seq<u8>)
    ensures
        get_ids(wire::input(w_ids(s) + t), s.len() as int) == (s, wire::input(t)),
    decreases s.len(),
{
    if s.len() == 0 {
        assert(w_ids(s) + t =~= t);
        assert(s =~= Seq::<u64>::empty());
    } else {
        let d = s.drop_last();
        let u = wire::w64(s.last() as nat) + t;
        assert(w_ids(s) + t =~= w_ids(d) + u);
        lemma_ids_back(d, u);
        wire::lemma_pow256();
        wire::lemma_get_nat(s.last() as nat, 8, t);
        assert(d.push(s.last()) =~= s);
    }
}

/// Taking memory gives back the cells in use, with zeros behind them, and the next free address.
pub proof fn lemma_memory_back(memory: Seq<i64>, here: usize, t: Seq<u8>)
    requires
        here <= u32::MAX,
        used(memory, here).len() <= 65536,
    ensures
        get_memory(wire::input(w_memory(memory, here) + t)) == (
            filled(used(memory, here)),
            here as nat,
            wire::input(t),
        ),
{
    wire::lemma_pow256();
    let m = used(memory, here);
    let t2 = w_cells(m) + t;
    let t1 = wire::w32(m.len()) + t2;
    assert(w_memory(memory, here) + t =~= wire::w32(here as nat) + t1);
    wire::lemma_get_nat(here as nat, 4, t1);
    wire::lemma_get_nat(m.len(), 4, t2);
    lemma_cells_back(m, t);
}

} // verus!
