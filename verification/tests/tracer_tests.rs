use synacor_vm::tracer::{CmdOutcome, Tracer, TracerCommand, TracerError, TracerState};
use synacor_vm::vm::{Vm, VmState};

const FUEL: u64 = 10_000;

fn session(words: &[u16]) -> Tracer {
    let mut vm = Vm::new();
    vm.load(words).expect("program fits");
    Tracer::new(vm, None, None, false)
}

#[test]
fn breakpoint_on_conditional_path_stops_continue_once() {
    // 0: set r0, 1; 3: jt r0, 7; 6: halt; 7: noop; 8: halt
    let mut t = session(&[1, 0x8000, 1, 7, 0x8000, 7, 0, 21, 0]);
    t.do_cmd(TracerCommand::SetBreakpoint(7), FUEL).expect("set breakpoint");
    let r = t.do_cmd(TracerCommand::Continue(None), FUEL).expect("continue runs");
    assert_eq!(r, CmdOutcome::HitBreakpoint);
    assert_eq!(t.vm().ip(), 7);
    // resuming does not trip the same breakpoint again
    let r = t.do_cmd(TracerCommand::Continue(None), FUEL).expect("continue resumes");
    assert_eq!(r, CmdOutcome::Halted);
}

#[test]
fn continue_reaches_a_target_address() {
    let mut t = session(&[21, 21, 21, 0]);
    let r = t.do_cmd(TracerCommand::Continue(Some(2)), FUEL).expect("continue");
    assert_eq!(r, CmdOutcome::ReachedTarget);
    assert_eq!(t.vm().ip(), 2);
}

#[test]
fn interrupted_input_leaves_the_engine_untouched() {
    // 0: in r0 — with nothing buffered the step asks for input instead
    let mut t = session(&[20, 0x8000, 0]);
    let r = t.step().expect("step decides");
    assert_eq!(r, CmdOutcome::NeedInput);
    assert_eq!(t.vm().ip(), 0);
    assert_eq!(t.vm().registers()[0], 0);
    // supplying a line lets the same instruction run
    t.supply_input(b"A\n".to_vec());
    let r = t.step().expect("step runs");
    assert_eq!(r, CmdOutcome::Ran(VmState::Running));
    assert_eq!(t.vm().registers()[0], b'A' as u16);
    assert_eq!(t.vm().ip(), 2);
}

#[test]
fn register_override_is_seen_by_execution() {
    // 0: eq r1, r0, 99
    let mut t = session(&[4, 0x8001, 0x8000, 99, 0]);
    t.do_cmd(TracerCommand::SetReg(0, 99), FUEL).expect("set register");
    t.do_cmd(TracerCommand::Step, FUEL).expect("step");
    assert_eq!(t.vm().registers()[1], 1);
}

#[test]
fn poke_rewrites_memory_and_remap_rebuilds_the_map() {
    let mut t = session(&[21, 0]);
    // the cached map still shows the old words after a poke
    // the map sweeps the whole zero-padded store: one item per word
    assert_eq!(t.map().stmts.len(), 32768);
    t.do_cmd(TracerCommand::Poke(0, 19), FUEL).expect("poke opcode");
    t.do_cmd(TracerCommand::Poke(1, 72), FUEL).expect("poke operand");
    assert_eq!(t.vm().memory()[0], 19);
    assert_eq!(t.map().stmts.len(), 32768);
    t.do_cmd(TracerCommand::Remap, FUEL).expect("remap");
    // the rebuilt map sees `out 'H'` spanning two words
    assert_eq!(t.map().stmts.len(), 32767);
    let r = t.do_cmd(TracerCommand::Poke(40000, 1), FUEL).expect("poke out of range");
    assert_eq!(r, CmdOutcome::InvalidAddress);
}

#[test]
fn stack_commands_mirror_the_engine_stack() {
    let mut t = session(&[0]);
    t.do_cmd(TracerCommand::Push(11), FUEL).expect("push");
    t.do_cmd(TracerCommand::Push(22), FUEL).expect("push");
    assert_eq!(t.do_cmd(TracerCommand::Pop, FUEL), Ok(CmdOutcome::Popped(22)));
    assert_eq!(t.do_cmd(TracerCommand::Pop, FUEL), Ok(CmdOutcome::Popped(11)));
    assert_eq!(t.do_cmd(TracerCommand::Pop, FUEL), Ok(CmdOutcome::EmptyStack));
}

#[test]
fn labels_resolve_in_commands() {
    let mut t = session(&[21, 21, 0]);
    t.do_cmd(TracerCommand::SetLabel(1, b"spot".to_vec()), FUEL).expect("label");
    match t.get_command(b"b spot").expect("parses") {
        TracerCommand::SetBreakpoint(1) => {}
        other => panic!("resolved wrong: {:?}", other),
    }
    t.do_cmd(TracerCommand::ClearLabel(b"spot".to_vec()), FUEL).expect("unlabel");
    assert_eq!(
        t.get_command(b"b spot"),
        Err(TracerError::UnknownLabel(b"spot".to_vec()))
    );
}

#[test]
fn command_words_parse_exactly() {
    let t = session(&[0]);
    assert_eq!(t.get_command(b""), Ok(TracerCommand::Step));
    assert_eq!(t.get_command(b"   \n"), Ok(TracerCommand::Step));
    assert_eq!(t.get_command(b"s"), Ok(TracerCommand::Step));
    assert_eq!(t.get_command(b"step"), Ok(TracerCommand::Step));
    assert_eq!(t.get_command(b"c"), Ok(TracerCommand::Continue(None)));
    assert_eq!(t.get_command(b"continue 12"), Ok(TracerCommand::Continue(Some(12))));
    assert_eq!(
        t.get_command(b"l 3 here"),
        Ok(TracerCommand::SetLabel(3, b"here".to_vec()))
    );
    assert_eq!(t.get_command(b"u here"), Ok(TracerCommand::ClearLabel(b"here".to_vec())));
    assert_eq!(t.get_command(b"break 9"), Ok(TracerCommand::SetBreakpoint(9)));
    assert_eq!(t.get_command(b"clear 9"), Ok(TracerCommand::ClearBreakpoint(9)));
    assert_eq!(t.get_command(b"push 65535"), Ok(TracerCommand::Push(65535)));
    assert_eq!(t.get_command(b"pop"), Ok(TracerCommand::Pop));
    assert_eq!(t.get_command(b"poke 10 7"), Ok(TracerCommand::Poke(10, 7)));
    assert_eq!(t.get_command(b"set r3 99"), Ok(TracerCommand::SetReg(3, 99)));
    assert_eq!(t.get_command(b"a"), Ok(TracerCommand::Status));
    assert_eq!(t.get_command(b"remap"), Ok(TracerCommand::Remap));
    assert_eq!(t.get_command(b"h"), Ok(TracerCommand::Help));
    assert_eq!(t.get_command(b"quit"), Ok(TracerCommand::Quit));
}

#[test]
fn bad_commands_fail_locally() {
    let t = session(&[0]);
    assert_eq!(
        t.get_command(b"frobnicate"),
        Err(TracerError::UnknownCommand(b"frobnicate".to_vec()))
    );
    assert_eq!(
        t.get_command(b" push waffle "),
        Err(TracerError::UnknownCommand(b"push waffle".to_vec()))
    );
    assert_eq!(
        t.get_command(b"push 65536"),
        Err(TracerError::UnknownCommand(b"push 65536".to_vec()))
    );
    assert_eq!(
        t.get_command(b"set r9 5"),
        Err(TracerError::UnknownRegister(b"r9".to_vec()))
    );
    assert_eq!(
        t.get_command(b"b nowhere"),
        Err(TracerError::UnknownLabel(b"nowhere".to_vec()))
    );
}

#[test]
fn status_line_shows_pointer_registers_and_depth() {
    let mut t = session(&[21, 0]);
    assert_eq!(
        String::from_utf8(t.status_line()).unwrap(),
        "ip 0 / regs [0, 0, 0, 0, 0, 0, 0, 0] / stack# 0"
    );
    t.do_cmd(TracerCommand::SetLabel(0, b"start".to_vec()), FUEL).expect("label");
    t.do_cmd(TracerCommand::SetReg(2, 7), FUEL).expect("set");
    t.do_cmd(TracerCommand::Push(1), FUEL).expect("push");
    assert_eq!(
        String::from_utf8(t.status_line()).unwrap(),
        "ip start = 0 / regs [0, 0, 7, 0, 0, 0, 0, 0] / stack# 1"
    );
}

#[test]
fn output_is_pumped_on_full_lines_only() {
    // out 'o'; out 'k'; out '\n'; halt
    let mut t = session(&[19, 111, 19, 107, 19, 10, 0]);
    t.do_cmd(TracerCommand::Step, FUEL).expect("step");
    assert_eq!(t.pump_output(), None);
    t.do_cmd(TracerCommand::Step, FUEL).expect("step");
    t.do_cmd(TracerCommand::Step, FUEL).expect("step");
    assert_eq!(t.pump_output(), Some(b"ok\n".to_vec()));
    assert_eq!(t.pump_output(), None);
}

#[test]
fn quit_is_the_only_terminal_outcome() {
    let mut t = session(&[0]);
    let r = t.do_cmd(TracerCommand::Quit, FUEL).expect("quit");
    assert_eq!(Tracer::next_state(&r), TracerState::Quit);
    let r = t.do_cmd(TracerCommand::Status, FUEL).expect("status");
    assert_eq!(r, CmdOutcome::ShowStatus);
    assert_eq!(Tracer::next_state(&r), TracerState::WaitCommand);
}

#[test]
fn continue_runs_out_of_fuel_without_stopping_elsewhere() {
    // a tight loop: 0: jmp 0
    let mut t = session(&[6, 0]);
    let r = t.do_cmd(TracerCommand::Continue(None), 25).expect("continue");
    assert_eq!(r, CmdOutcome::OutOfFuel);
    assert_eq!(t.vm().ip(), 0);
}
