//! Cells, compiled instructions and dictionary entries.

use crate::text;
use vstd::prelude::*;

verus! {

/// A stack or memory cell.
pub type Cell = i64;

/// The number of memory cells of a machine.
pub const MEMORY_CELLS: usize = 65536;

/// The address of the scratch area that words with text or byte results fill.
pub const PAD: usize = 64512;

/// One compiled instruction.
#[derive(Debug, PartialEq, Eq)]
pub enum Instruction {
    /// Run the built-in word with this number.
    Primitive(usize),
    /// Push this value.
    Literal(Cell),
    /// Run the body of the dictionary entry with this index.
    Call(usize),
    /// Print this text.
    StringLit(String),
    /// Jump by this offset.
    Branch(i64),
    /// Pop a flag and jump by this offset if it is zero.
    BranchIfZero(i64),
}

/// The mathematical form of an instruction.
pub enum Op {
    Primitive(usize),
    Literal(i64),
    Call(usize),
    StringLit(Seq<char>),
    Branch(i64),
    BranchIfZero(i64),
}

impl View for Instruction {
    type V = Op;

    open spec fn view(&self) -> Op {
        match *self {
            Instruction::Primitive(id) => Op::Primitive(id),
            Instruction::Literal(v) => Op::Literal(v),
            Instruction::Call(i) => Op::Call(i),
            Instruction::StringLit(s) => Op::StringLit(s@),
            Instruction::Branch(o) => Op::Branch(o),
            Instruction::BranchIfZero(o) => Op::BranchIfZero(o),
        }
    }
}

impl Clone for Instruction {
    fn clone(&self) -> (r: Self)
        ensures
            r@ == self@,
    {
        match self {
            Instruction::Primitive(id) => Instruction::Primitive(*id),
            Instruction::Literal(v) => Instruction::Literal(*v),
            Instruction::Call(i) => Instruction::Call(*i),
            Instruction::StringLit(s) => Instruction::StringLit(s.clone()),
            Instruction::Branch(o) => Instruction::Branch(*o),
            Instruction::BranchIfZero(o) => Instruction::BranchIfZero(*o),
        }
    }
}

/// The mathematical form of a body.
pub open spec fn ops(body: Seq<Instruction>) -> Seq<Op> {
    Seq::new(body.len(), |i: int| body[i]@)
}

/// Copies a body.
pub fn clone_body(body: &[Instruction]) -> (r: Vec<Instruction>)
    ensures
        ops(r@) == ops(body@),
{
    let mut r: Vec<Instruction> = Vec::new();
    let mut i: usize = 0;
    while i < body.len()
        invariant
            i <= body@.len(),
            ops(r@) == ops(body@).take(i as int),
        decreases body@.len() - i,
    {
        let ghost before = ops(r@);
        r.push(body[i].clone());
        i = i + 1;
        assert(ops(r@) =~= before.push(ops(body@)[i - 1]));
        assert(ops(r@) =~= ops(body@).take(i as int));
    }
    assert(ops(r@) =~= ops(body@));
    r
}

/// A word of the dictionary.
#[derive(Debug, PartialEq, Eq)]
pub struct Entry {
    pub name: String,
    /// Run at compile time instead of compiled.
    pub immediate: bool,
    /// Not found by name.
    pub hidden: bool,
    pub body: Vec<Instruction>,
}

/// The mathematical form of a dictionary entry.
#[verifier::ext_equal]
pub struct WordV {
    pub name: Seq<char>,
    pub immediate: bool,
    pub hidden: bool,
    pub body: Seq<Op>,
}

impl View for Entry {
    type V = WordV;

    open spec fn view(&self) -> WordV {
        WordV {
            name: self.name@,
            immediate: self.immediate,
            hidden: self.hidden,
            body: ops(self.body@),
        }
    }
}

impl Clone for Entry {
    fn clone(&self) -> (r: Self)
        ensures
            r@ == self@,
    {
        Entry {
            name: self.name.clone(),
            immediate: self.immediate,
            hidden: self.hidden,
            body: clone_body(&self.body),
        }
    }
}

/// The mathematical form of a dictionary.
pub open spec fn words(d: Seq<Entry>) -> Seq<WordV> {
    Seq::new(d.len(), |i: int| d[i]@)
}

/// Copies a dictionary.
pub fn clone_dictionary(d: &[Entry]) -> (r: Vec<Entry>)
    ensures
        words(r@) == words(d@),
{
    let mut r: Vec<Entry> = Vec::new();
    let mut i: usize = 0;
    while i < d.len()
        invariant
            i <= d@.len(),
            words(r@) == words(d@).take(i as int),
        decreases d@.len() - i,
    {
        let ghost before = words(r@);
        r.push(d[i].clone());
        i = i + 1;
        assert(words(r@) =~= before.push(words(d@)[i - 1]));
        assert(words(r@) =~= words(d@).take(i as int));
    }
    assert(words(r@) =~= words(d@));
    r
}

/// Copies a row of strings.
pub fn clone_texts(v: &[String]) -> (r: Vec<String>)
    ensures
        text::texts(r@) == text::texts(v@),
{
    let mut r: Vec<String> = Vec::new();
    let mut i: usize = 0;
    while i < v.len()
        invariant
            i <= v@.len(),
            text::texts(r@) == text::texts(v@).take(i as int),
        decreases v@.len() - i,
    {
        let ghost before = text::texts(r@);
        r.push(v[i].clone());
        i = i + 1;
        assert(text::texts(r@) =~= before.push(text::texts(v@)[i - 1]));
        assert(text::texts(r@) =~= text::texts(v@).take(i as int));
    }
    assert(text::texts(r@) =~= text::texts(v@));
    r
}

/// Copies a row of cells.
pub fn clone_cells(v: &[Cell]) -> (r: Vec<Cell>)
    ensures
        r@ == v@,
{
    let mut r: Vec<Cell> = Vec::new();
    let mut i: usize = 0;
    while i < v.len()
        invariant
            i <= v@.len(),
            r@ == v@.take(i as int),
        decreases v@.len() - i,
    {
        r.push(v[i]);
        i = i + 1;
        assert(r@ =~= v@.take(i as int));
    }
    assert(r@ =~= v@);
    r
}

/// Copies an optional string.
pub fn clone_opt(o: &Option<String>) -> (r: Option<String>)
    ensures
        text::opt_text(r) == text::opt_text(*o),
{
    match o {
        Some(s) => Some(s.clone()),
        None => None,
    }
}

} // verus!
