use synacor_vm::binary::read_binary;
use synacor_vm::vm::{
    DstOperand, Error, InputBuffer, Instruction, SrcOperand, Vm, VmState, INDIRECT_BIT,
};

fn load_words(words: &[u16]) -> Vm {
    let mut vm = Vm::new();
    vm.load(words).expect("program fits");
    vm
}

fn run_silent(vm: &mut Vm, fuel: u64) -> Result<VmState, Error> {
    let mut input = InputBuffer::new(Vec::new());
    let mut output = Vec::new();
    vm.run(&mut input, &mut output, fuel)
}

#[test]
fn decode_encode_roundtrip_all_opcodes() {
    let reg = |n: usize| SrcOperand::Register(n);
    let dst = |n: usize| DstOperand::Register(n);
    let imm = |v: u16| SrcOperand::Immediate(v);
    let cases = vec![
        Instruction::Halt,
        Instruction::SetReg(dst(0), imm(7)),
        Instruction::Push(reg(3)),
        Instruction::Pop(dst(7)),
        Instruction::Eq(dst(1), imm(4), reg(2)),
        Instruction::Gt(dst(2), reg(0), imm(9)),
        Instruction::Jmp(imm(100)),
        Instruction::Jt(reg(1), imm(3)),
        Instruction::Jf(imm(0), imm(5)),
        Instruction::Add(dst(0), imm(32767), imm(5)),
        Instruction::Mult(dst(4), imm(1000), imm(1000)),
        Instruction::Mod(dst(5), imm(17), imm(5)),
        Instruction::And(dst(6), imm(0xff), reg(6)),
        Instruction::Or(dst(3), reg(5), reg(4)),
        Instruction::Not(dst(0), imm(0)),
        Instruction::Rmem(dst(1), imm(10)),
        Instruction::Wmem(imm(10), imm(65)),
        Instruction::Call(imm(200)),
        Instruction::Ret,
        Instruction::Out(imm(72)),
        Instruction::In(dst(0)),
        Instruction::Noop,
    ];
    for instr in cases {
        let words = instr.encode();
        let (next, decoded) = Instruction::decode(&words, 0).expect("encoding decodes");
        assert_eq!(next, words.len());
        assert_eq!(decoded, instr);
    }
}

#[test]
fn src_operand_decoding_is_total() {
    // a literal: high bit clear
    assert_eq!(SrcOperand::decode(1234), Ok(SrcOperand::Immediate(1234)));
    // a register reference: high bit set, index bits only
    assert_eq!(SrcOperand::decode(0x8005), Ok(SrcOperand::Register(5)));
    // high bit set with stray bits: a named failure carrying the word
    assert_eq!(SrcOperand::decode(0x9000), Err(Error::InvalidSrcOperand(0x9000)));
    assert_eq!(SrcOperand::decode(0x8008), Err(Error::InvalidSrcOperand(0x8008)));
}

#[test]
fn dst_operand_rejects_literals() {
    assert_eq!(DstOperand::decode(0x8003), Ok(DstOperand::Register(3)));
    assert_eq!(DstOperand::decode(42), Err(Error::InvalidDstOperand(42)));
    assert_eq!(DstOperand::decode(0x9000), Err(Error::InvalidDstOperand(0x9000)));
}

#[test]
fn decode_rejects_illegal_opcode_and_bad_ip() {
    let mem = [22u16, 0, 0];
    assert_eq!(Instruction::decode(&mem, 0), Err(Error::IllegalInstruction(22)));
    assert_eq!(Instruction::decode(&mem, 3), Err(Error::InvalidIp(3)));
    // an operand read past the end fails with the operand's address
    let tail = [9u16, 0x8000];
    assert_eq!(Instruction::decode(&tail, 0), Err(Error::InvalidIp(2)));
}

#[test]
fn add_wraps_and_masks() {
    // 32767 + 5 wraps past the high tag bit, not past 16 bits
    let mut vm = load_words(&[9, 0x8000, 32767, 5, 0]);
    let state = run_silent(&mut vm, 1).expect("add executes");
    assert!(matches!(state, VmState::Running));
    assert_eq!(vm.registers()[0], 4);
    assert!(vm.registers()[0] & INDIRECT_BIT == 0);
}

#[test]
fn mult_wraps_and_masks() {
    // 1000 * 1000 = 1_000_000; mod 65536 = 16960; mask clears nothing here
    let mut vm = load_words(&[10, 0x8001, 1000, 1000, 0]);
    run_silent(&mut vm, 1).expect("mult executes");
    assert_eq!(vm.registers()[1], 16960 & !INDIRECT_BIT);
}

#[test]
fn not_masks_high_bit() {
    let mut vm = load_words(&[14, 0x8000, 0]);
    run_silent(&mut vm, 1).expect("not executes");
    assert_eq!(vm.registers()[0], 0x7fff);
}

#[test]
fn mod_by_zero_is_an_error() {
    let mut vm = load_words(&[11, 0x8000, 7, 0]);
    assert_eq!(run_silent(&mut vm, 1), Err(Error::DivisionByZero));
}

#[test]
fn ret_on_empty_stack_halts() {
    let mut vm = load_words(&[18]);
    let mut input = InputBuffer::new(Vec::new());
    let mut output = Vec::new();
    assert_eq!(vm.step(&mut input, &mut output), Ok(VmState::Halted));
    // nothing moved: the halt is termination, not an error
    assert_eq!(vm.ip(), 0);
}

#[test]
fn pop_on_empty_stack_fails() {
    let mut vm = load_words(&[3, 0x8000]);
    let mut input = InputBuffer::new(Vec::new());
    let mut output = Vec::new();
    assert_eq!(vm.step(&mut input, &mut output), Err(Error::StackUnderflow));
}

#[test]
fn call_and_ret_roundtrip() {
    // 0: call 3; 2: halt; 3: ret -> returns to 2 and halts
    let mut vm = load_words(&[17, 3, 0, 18]);
    let mut input = InputBuffer::new(Vec::new());
    let mut output = Vec::new();
    assert_eq!(vm.step(&mut input, &mut output), Ok(VmState::Running));
    assert_eq!(vm.ip(), 3);
    assert_eq!(vm.stack(), &vec![2u16]);
    assert_eq!(vm.step(&mut input, &mut output), Ok(VmState::Running));
    assert_eq!(vm.ip(), 2);
    assert_eq!(vm.step(&mut input, &mut output), Ok(VmState::Halted));
}

#[test]
fn hello_program_writes_its_bytes() {
    // assemble out 'H'; out 'i'; halt, load it, and run it
    let mut words = Vec::new();
    words.extend(Instruction::Out(SrcOperand::Immediate('H' as u16)).encode());
    words.extend(Instruction::Out(SrcOperand::Immediate('i' as u16)).encode());
    words.extend(Instruction::Halt.encode());
    let mut vm = Vm::new();
    vm.load(&words).expect("fits");
    let mut input = InputBuffer::new(Vec::new());
    let mut output = Vec::new();
    assert_eq!(vm.run(&mut input, &mut output, 100), Ok(VmState::Halted));
    assert_eq!(output, b"Hi".to_vec());
}

#[test]
fn out_rejects_wide_words() {
    let mut vm = load_words(&[19, 300]);
    assert_eq!(run_silent(&mut vm, 1), Err(Error::InvalidIOWord(300)));
}

#[test]
fn in_reads_a_byte_and_skips_carriage_returns() {
    let mut vm = load_words(&[20, 0x8000, 0]);
    let mut input = InputBuffer::new(vec![b'\r', b'\r', b'x', b'y']);
    let mut output = Vec::new();
    assert_eq!(vm.step(&mut input, &mut output), Ok(VmState::Running));
    assert_eq!(vm.registers()[0], b'x' as u16);
}

#[test]
fn in_with_no_input_is_an_io_error() {
    let mut vm = load_words(&[20, 0x8000, 0]);
    let mut input = InputBuffer::new(Vec::new());
    let mut output = Vec::new();
    assert_eq!(vm.step(&mut input, &mut output), Err(Error::IOError));
    assert_eq!(vm.ip(), 0);
}

#[test]
fn rmem_and_wmem_use_indirect_addresses() {
    // wmem 10, 65; rmem r0, 10; halt
    let mut vm = load_words(&[16, 10, 65, 15, 0x8000, 10, 0]);
    run_silent(&mut vm, 3).expect("runs to halt");
    assert_eq!(vm.memory()[10], 65);
    assert_eq!(vm.registers()[0], 65);
}

#[test]
fn wmem_out_of_range_fails() {
    // 40000 names no address in a 32768-word store; only a register can
    // even hold such a value, so plant it there directly
    let mut vm = load_words(&[16, 0x8000, 1]);
    vm.registers_mut()[0] = 40000;
    assert_eq!(run_silent(&mut vm, 1), Err(Error::InvalidAddress(40000)));
}

#[test]
fn jumps_move_the_instruction_pointer() {
    // jt 1, 5; noop; halt at 5
    let mut vm = load_words(&[7, 1, 5, 21, 0, 0]);
    let mut input = InputBuffer::new(Vec::new());
    let mut output = Vec::new();
    vm.step(&mut input, &mut output).expect("jt");
    assert_eq!(vm.ip(), 5);
    let mut vm = load_words(&[8, 1, 5, 21, 0, 0]);
    vm.step(&mut input, &mut output).expect("jf not taken");
    assert_eq!(vm.ip(), 3);
}

#[test]
fn load_rejects_oversized_programs() {
    let big = vec![0u16; 32769];
    let mut vm = Vm::new();
    assert_eq!(vm.load(&big), Err(Error::ProgramTooLarge(32769)));
    // and the store is untouched
    assert_eq!(vm.memory().len(), 32768);
    let ok = vec![21u16; 32768];
    assert!(vm.load(&ok).is_ok());
}

#[test]
fn direct_mutation_is_visible_to_execution() {
    // set the register directly, then let eq r1, r0, 99 read it
    let mut vm = load_words(&[4, 0x8001, 0x8000, 99, 0]);
    vm.registers_mut()[0] = 99;
    run_silent(&mut vm, 1).expect("eq executes");
    assert_eq!(vm.registers()[1], 1);
}

#[test]
fn read_binary_requires_even_length() {
    assert_eq!(read_binary(&[1, 2, 3]), Err(Error::BadBinary));
    assert_eq!(read_binary(&[0x34, 0x12, 0xff, 0x7f]), Ok(vec![0x1234, 0x7fff]));
    assert_eq!(read_binary(&[]), Ok(Vec::new()));
}

#[test]
fn input_buffer_hands_bytes_back_in_order() {
    let mut buf = InputBuffer::new(vec![1, 2]);
    assert!(!buf.is_empty());
    assert_eq!(buf.take_byte(), Some(1));
    assert_eq!(buf.take_byte(), Some(2));
    assert_eq!(buf.take_byte(), None);
    buf.refill(vec![9]);
    assert_eq!(buf.take_byte(), Some(9));
}

#[test]
fn run_reports_running_when_fuel_runs_out() {
    // 0: jmp 0 — loops forever; the budget alone stops it
    let mut vm = load_words(&[6, 0]);
    assert_eq!(run_silent(&mut vm, 1000), Ok(VmState::Running));
    assert_eq!(vm.ip(), 0);
}
