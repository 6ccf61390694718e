//! The language: edge cases of the words and of the interpreter.

use unit::vm::VM;

fn machine() -> VM {
    let mut vm = VM::new();
    vm.load_prelude();
    vm
}

fn run(line: &str) -> (Vec<i64>, String) {
    let mut vm = machine();
    let out = vm.eval(line);
    (vm.stack, out)
}

#[test]
fn words_are_found_in_any_case() {
    assert_eq!(run("3 dup *").0, vec![9]);
    assert_eq!(run(": stra\u{df}e 7 ; STRASSE").0, vec![7]);
}

#[test]
fn arithmetic_wraps_and_division_truncates() {
    assert_eq!(run("9223372036854775807 1 +").0, vec![i64::MIN]);
    assert_eq!(run("-7 2 / -7 2 MOD").0, vec![-3, -1]);
    assert_eq!(run("7 -2 /").0, vec![-3]);
}

#[test]
fn underflow_is_reported_and_gives_zero() {
    let (stack, out) = run("+");
    assert_eq!(stack, vec![0]);
    assert_eq!(out, "error: stack underflow\nerror: stack underflow\n");
}

#[test]
fn unknown_words_are_reported() {
    assert_eq!(run("FROB").1, "error: unknown word 'FROB'\n");
    let mut vm = machine();
    vm.silent = true;
    assert_eq!(vm.eval("frob"), "");
    assert_eq!(vm.eval(": BAD frob 1 ;"), "error: unknown word 'FROB'\nerror: ; without matching ':'\n");
    assert!(!vm.compiling);
    assert_eq!(vm.stack, vec![1]);
}

#[test]
fn the_last_definition_wins_and_old_callers_keep_theirs() {
    assert_eq!(run(": A 1 ; : B A ; : A 2 ; A B").0, vec![2, 1]);
}

#[test]
fn emit_takes_any_character() {
    assert_eq!(run("65 EMIT 955 EMIT").1, "A\u{3bb}");
    assert_eq!(run("55296 EMIT").1.contains('\u{3bb}'), false);
}

#[test]
fn comments_are_skipped() {
    assert_eq!(run("1 ( two three ) 4 \\ five").0, vec![1, 4]);
}

#[test]
fn memory_words_check_addresses() {
    let mut vm = machine();
    vm.eval("5 70000 ! 70000 @");
    assert_eq!(vm.stack, vec![0]);
    assert!(vm.take_console().iter().any(|p| p.error && p.text == "invalid address: 70000\n"));
    assert_eq!(run("5 100 ! 100 @").0, vec![5]);
}

#[test]
fn loops_nest_and_know_both_indices() {
    assert_eq!(run(": T 2 0 DO 2 0 DO J I LOOP LOOP ; T").0, vec![0, 0, 0, 1, 1, 0, 1, 1]);
}

#[test]
fn constants_variables_and_create() {
    assert_eq!(run("42 CONSTANT C C C +").0, vec![84]);
    assert_eq!(run("VARIABLE V 7 V ! V @").0, vec![7]);
}

#[test]
fn quit_stops_the_line() {
    let mut vm = machine();
    vm.eval("1 QUIT 2");
    assert_eq!(vm.stack, vec![1]);
    assert!(!vm.running);
}

#[test]
fn a_call_of_a_word_that_is_not_there_stops_the_machine() {
    let mut vm = machine();
    vm.eval(": LOOSE RECURSE");
    assert!(!vm.crashed);
    vm.dictionary[0].body = vec![unit::types::Instruction::Call(1_000_000)];
    vm.compiling = false;
    vm.eval("DUP");
    assert!(vm.crashed);
}

#[test]
fn division_of_the_least_cell() {
    let mut vm = machine();
    vm.eval("-9223372036854775808 -1 /");
    assert!(vm.crashed);
    let (stack, out) = run("1 0 /");
    assert_eq!(stack, vec![0]);
    assert_eq!(out, "error: division by zero\n");
}

#[test]
fn code_in_the_sandbox_is_confined() {
    let mut vm = machine();
    vm.eval("1 2");
    let r = vm.execute_sandbox("3 4\nBYE\n5");
    assert_eq!(r.stack_snapshot, vec![3, 4]);
    assert!(r.success);
    assert!(vm.running);
    assert_eq!(vm.stack, vec![1, 2]);
    assert!(!vm.sandbox_active);
    assert!(vm.frames.is_empty());
}

#[test]
fn definitions_made_in_the_sandbox_stay() {
    let mut vm = machine();
    vm.execute_sandbox(": KEPT 11 ;");
    vm.eval("KEPT");
    assert_eq!(vm.stack, vec![11]);
}

#[test]
fn an_open_definition_survives_the_sandbox() {
    let mut vm = machine();
    vm.eval(": OPEN 1");
    assert!(vm.compiling);
    let r = vm.execute_sandbox("2 3 +");
    assert_eq!(r.stack_snapshot, vec![5]);
    assert!(vm.compiling);
    vm.eval("4 ; OPEN");
    assert_eq!(vm.stack, vec![1, 4]);
}

#[test]
fn timeouts_are_set_in_seconds() {
    let mut vm = machine();
    vm.silent = true;
    vm.eval("3 TIMEOUT");
    assert_eq!(vm.execution_timeout, 3);
    vm.eval("0 TIMEOUT");
    assert_eq!(vm.execution_timeout, 3);
}

#[test]
fn eval_runs_text() {
    assert_eq!(run("EVAL\" 1 2 +\"").0, vec![3]);
}

#[test]
fn prelude_is_silent_and_gives_the_voice_back() {
    let mut vm = VM::new();
    vm.load_prelude();
    assert!(!vm.silent);
    assert!(vm.take_console().is_empty());
    assert!(vm.frames.is_empty());
}

#[test]
fn a_page_drives_the_machine() {
    let mut vm = unit::browser::boot();
    assert_eq!(unit::browser::eval(&mut vm, b"1 2 + ."), b"3 \0".to_vec());
    assert_eq!(unit::browser::is_running(&vm), 1);
    unit::browser::eval(&mut vm, b"BYE");
    assert_eq!(unit::browser::is_running(&vm), 0);
    let mut vm = unit::browser::boot();
    assert_eq!(unit::browser::eval(&mut vm, b".\" \xff\""), "\u{fffd}\0".as_bytes().to_vec());
}

#[test]
fn trust_words_and_peers() {
    let mut vm = machine();
    assert_eq!(vm.eval("255 TRUST"), "trusted: 00000000000000ff\n");
    assert_eq!(vm.trusted_peers, vec![[0, 0, 0, 0, 0, 0, 0, 255]]);
}
