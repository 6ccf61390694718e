//! The unit in a browser: nothing is kept, and a page drives the machine.

use crate::text;
use crate::text::text;
use crate::wire::NodeId;
use crate::vm::base;
use crate::vm::machine;
use crate::vm::run;
use crate::vm::state::VmV;
use crate::vm::table;
use crate::vm::table::WORD_COUNT;
use crate::vm::VM;
use crate::wire;
use crate::wire::{from_lossy, write_bytes};
use vstd::prelude::*;
use vstd::utf8::*;

verus! {

/// There is no saved identity.
pub fn load_node_id() -> (r: Option<NodeId>)
    ensures
        r.is_none(),
{
    None
}

/// The identity is not kept, without an error.
pub fn save_node_id(_id: &NodeId) -> (r: Result<(), String>)
    ensures
        r.is_ok(),
{
    Ok(())
}

/// There is nothing to delete.
pub fn delete_node_id() -> (r: Result<(), String>)
    ensures
        r.is_ok(),
{
    Ok(())
}

/// There is nothing to rename.
pub fn rename_state(_old: &NodeId, _new: &NodeId) -> (r: Result<(), String>)
    ensures
        r.is_ok(),
{
    Ok(())
}

/// There is no directory.
pub fn state_dir(_id: &NodeId) -> (r: String)
    ensures
        r@ == Seq::<char>::empty(),
{
    let r = String::new();
    assert(r@ =~= Seq::<char>::empty());
    r
}

/// The state cannot be saved.
pub fn save_state(_id: &NodeId, _data: &[u8]) -> (r: Result<(), String>)
    ensures
        r matches Err(e) && e@ == "no persistence on WASM"@,
{
    Err(text("no persistence on WASM"))
}

/// There is no saved state.
pub fn load_state(_id: &NodeId) -> (r: Option<Vec<u8>>)
    ensures
        r.is_none(),
{
    None
}

/// A snapshot cannot be saved.
pub fn save_snapshot(_id: &NodeId, _data: &[u8]) -> (r: Result<String, String>)
    ensures
        r matches Err(e) && e@ == "no persistence on WASM"@,
{
    Err(text("no persistence on WASM"))
}

/// There are no snapshots.
pub fn list_snapshots(_id: &NodeId) -> (r: Vec<String>)
    ensures
        r@.len() == 0,
{
    Vec::new()
}

/// There is no such snapshot.
pub fn load_snapshot(_id: &NodeId, _name: &str) -> (r: Option<Vec<u8>>)
    ensures
        r.is_none(),
{
    None
}

/// There is nothing to delete.
pub fn delete_state(_id: &NodeId) -> (r: Result<(), String>)
    ensures
        r.is_ok(),
{
    Ok(())
}

// ---------------------------------------------------------------------------
// The machine in a page
// ---------------------------------------------------------------------------

/// A machine with the prelude. What the prelude says is not shown.
pub fn boot() -> (vm: VM)
    ensures
        exists|w: VmV|
            {
                &&& #[trigger] run::leads_to(
                    run::loading(
                        machine::with_silent(
                            table::registered(run::blank(), WORD_COUNT as int),
                            true,
                        ),
                    ),
                    w,
                    table::registered(run::blank(), WORD_COUNT as int).frames.len(),
                )
                &&& vm@ == machine::with_silent(w, false)
            },
{
    let mut vm = VM::new();
    let ghost v = vm@;
    vm.set_silent(true);
    assert(vm@.frames == v.frames) by {
        reveal(machine::with_silent);
    }
    vm.load_prelude();
    let ghost w = vm@;
    vm.set_silent(false);
    assert(run::leads_to(run::loading(machine::with_silent(v, true)), w, v.frames.len()));
    vm
}

/// Interprets a line that a page sends, and gives the output with a zero byte at its end.
pub fn eval(vm: &mut VM, input: &[u8]) -> (out: Vec<u8>)
    ensures
        exists|w: VmV|
            {
                &&& #[trigger] run::leads_to(
                    base::lined(
                        run::with_output(old(vm)@, Some(Seq::empty())),
                        wire::text_of(input@),
                    ),
                    w,
                    old(vm)@.frames.len(),
                )
                &&& out@ == encode_utf8(
                    match w.output {
                        Some(s) => s,
                        None => Seq::empty(),
                    },
                ).push(0)
                &&& final(vm)@ == run::with_output(w, None)
            },
{
    let line = from_lossy(input);
    assert(line@ == wire::text_of(input@));
    let empty = String::new();
    assert(empty@ =~= Seq::<char>::empty());
    let ghost v = vm@;
    vm.set_output(Some(empty));
    assert(vm@.frames == v.frames) by {
        reveal(run::with_output);
    }
    vm.interpret_line(line.as_str());
    let ghost w = vm@;
    assert(run::leads_to(
        base::lined(run::with_output(v, Some(Seq::empty())), wire::text_of(input@)),
        w,
        v.frames.len(),
    ));
    let s = vm.take_output();
    let mut out: Vec<u8> = Vec::new();
    write_bytes(&mut out, s.as_str().as_bytes());
    assert(out@ =~= encode_utf8(s@));
    out.push(0);
    out
}

/// Whether the machine still runs.
pub fn is_running(vm: &VM) -> (n: i32)
    ensures
        n == (if vm@.running {
            1i32
        } else {
            0i32
        }),
{
    if vm.running {
        1
    } else {
        0
    }
}

} // verus!
