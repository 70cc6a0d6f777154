//! The tracer's command-driven execution-control state machine:
//! stepping, breakpoints, continuation, and live mutation of memory,
//! registers and the stack, over a live execution engine. The
//! surrounding program owns the terminal and the interrupt flag; the
//! decisions all stand here.

use vstd::prelude::*;

use crate::disasm::{spec_sweep, DisAsmError, DisAsmOpts, ImageMap, SweepState};
use crate::labels::{AddrSet, LabelMap};
use crate::numbers::{
    parse_u16, parse_usize, push_dec_u16, push_dec_usize, spec_all_digits, spec_dec_digits,
    spec_dec_value,
};
use crate::vm::{
    spec_decode, spec_step, Error, InputBuffer, Instruction, Vm, VmModel, VmState, MEM_WORDS,
    NUM_REGISTERS,
};

verus! {

/// What the tracer itself can fail with. Terminal failures live with
/// the terminal's owner; these are the command language's own.
#[derive(Debug, Clone, PartialEq)]
pub enum TracerError {
    VmError(Error),
    DisAsmError(DisAsmError),
    UnknownCommand(Vec<u8>),
    UnknownLabel(Vec<u8>),
    UnknownRegister(Vec<u8>),
}

/// One parsed command of the interactive language.
#[derive(Debug, Clone, PartialEq)]
pub enum TracerCommand {
    Step,
    Continue(Option<usize>),
    SetLabel(usize, Vec<u8>),
    ClearLabel(Vec<u8>),
    SetBreakpoint(usize),
    ClearBreakpoint(usize),
    Push(u16),
    Pop,
    Poke(usize, u16),
    SetReg(usize, u16),
    Status,
    Remap,
    Help,
    Quit,
}

/// Where the session stands after a command.
#[derive(Debug, Copy, Clone, PartialEq, Eq, Structural)]
pub enum TracerState {
    WaitCommand,
    Quit,
}

/// Whether a byte counts as whitespace between command words.
pub open spec fn spec_is_ws(b: u8) -> bool {
    b == 32 || b == 9 || b == 10 || b == 11 || b == 12 || b == 13
}

/// The length of the maximal non-whitespace prefix.
pub open spec fn spec_token_len(s: Seq<u8>) -> nat
    decreases s.len(),
{
    if s.len() == 0 || spec_is_ws(s[0]) {
        0
    } else {
        1 + spec_token_len(s.skip(1))
    }
}

/// A token never runs past the text.
proof fn lemma_token_len_le(s: Seq<u8>)
    ensures
        spec_token_len(s) <= s.len(),
    decreases s.len(),
{
    if s.len() > 0 && !spec_is_ws(s[0]) {
        lemma_token_len_le(s.skip(1));
    }
}

/// The maximal non-whitespace prefix ends exactly where whitespace or
/// the end of the text begins.
proof fn lemma_token_len_at(s: Seq<u8>, k: int)
    requires
        0 <= k <= s.len(),
        forall|m: int| 0 <= m < k ==> !spec_is_ws(#[trigger] s[m]),
        k == s.len() || spec_is_ws(s[k]),
    ensures
        spec_token_len(s) == k,
    decreases k,
{
    if k > 0 {
        assert(!spec_is_ws(s[0]));
        assert forall|m: int| 0 <= m < k - 1 implies !spec_is_ws(#[trigger] s.skip(1)[m]) by {
            assert(s.skip(1)[m] == s[m + 1]);
        }
        if k - 1 == s.skip(1).len() {
        } else {
            assert(s.skip(1)[k - 1] == s[k]);
        }
        lemma_token_len_at(s.skip(1), k - 1);
    }
}

/// The command words of a line: maximal non-whitespace runs, in order.
pub open spec fn spec_tokens(s: Seq<u8>) -> Seq<Seq<u8>>
    decreases s.len(),
    via spec_tokens_decreases
{
    if s.len() == 0 {
        Seq::empty()
    } else if spec_is_ws(s[0]) {
        spec_tokens(s.skip(1))
    } else {
        seq![s.take(spec_token_len(s) as int)] + spec_tokens(s.skip(spec_token_len(s) as int))
    }
}

#[via_fn]
proof fn spec_tokens_decreases(s: Seq<u8>) {
    lemma_token_len_le(s);
}

/// The line with leading and trailing whitespace dropped.
pub open spec fn spec_trim(s: Seq<u8>) -> Seq<u8>
    decreases s.len(),
{
    if s.len() == 0 {
        s
    } else if spec_is_ws(s[0]) {
        spec_trim(s.skip(1))
    } else if spec_is_ws(s.last()) {
        spec_trim(s.drop_last())
    } else {
        s
    }
}

/// Split a line into its command words.
fn tokens(line: &[u8]) -> (r: Vec<Vec<u8>>)
    ensures
        r@.len() == spec_tokens(line@).len(),
        forall|j: int|
            0 <= j < r@.len() ==> (#[trigger] r@[j])@ == spec_tokens(line@)[j],
{
    let mut out: Vec<Vec<u8>> = Vec::new();
    let mut i: usize = 0;
    proof {
        assert(line@.skip(0) =~= line@);
    }
    while i < line.len()
        invariant
            i <= line@.len(),
            ({
                let rest = spec_tokens(line@.skip(i as int));
                let full = spec_tokens(line@);
                out@.len() + rest.len() == full.len() && (forall|j: int|
                    0 <= j < out@.len() ==> (#[trigger] out@[j])@ == full[j]) && (forall|j: int|
                    0 <= j < rest.len() ==> #[trigger] rest[j] == full[out@.len() + j])
            }),
        decreases line@.len() - i,
    {
        if is_ws(line[i]) {
            proof {
                assert(line@.skip(i as int).skip(1) =~= line@.skip(i + 1));
            }
            i = i + 1;
        } else {
            let start = i;
            let mut j = i + 1;
            while j < line.len() && !is_ws(line[j])
                invariant
                    start < j <= line@.len(),
                    i == start,
                    forall|m: int| start <= m < j ==> !spec_is_ws(#[trigger] line@[m]),
                decreases line@.len() - j,
            {
                j = j + 1;
            }
            let mut tok: Vec<u8> = Vec::new();
            let mut k = start;
            while k < j
                invariant
                    start <= k <= j <= line@.len(),
                    tok@ == line@.subrange(start as int, k as int),
                decreases j - k,
            {
                tok.push(line[k]);
                proof {
                    assert(tok@ =~= line@.subrange(start as int, k + 1));
                }
                k = k + 1;
            }
            proof {
                let rest = line@.skip(start as int);
                assert forall|m: int| 0 <= m < (j - start) implies !spec_is_ws(
                    #[trigger] rest[m],
                ) by {
                    assert(rest[m] == line@[start + m]);
                }
                if j < line@.len() {
                    assert(rest[(j - start) as int] == line@[j as int]);
                }
                lemma_token_len_at(rest, j - start);
                assert(rest.take((j - start) as int) =~= line@.subrange(
                    start as int,
                    j as int,
                ));
                assert(rest.skip((j - start) as int) =~= line@.skip(j as int));
                assert(tok@ == rest.take(spec_token_len(rest) as int));
            }
            out.push(tok);
            i = j;
            proof {
                let srest = line@.skip(start as int);
                assert(srest[0] == line@[start as int]);
                let restj = spec_tokens(line@.skip(j as int));
                assert(spec_tokens(srest) == seq![tok@] + restj);
                assert((seq![tok@] + restj)[0] == tok@);
                assert forall|q: int| 0 <= q < restj.len() implies #[trigger] restj[q] == (
                seq![tok@] + restj)[q + 1] by {
                }
            }
        }
    }
    proof {
        assert(line@.skip(i as int) =~= Seq::<u8>::empty());
    }
    out
}

/// Whether a byte counts as whitespace between command words.
fn is_ws(b: u8) -> (r: bool)
    ensures
        r == spec_is_ws(b),
{
    b == 32 || b == 9 || b == 10 || b == 11 || b == 12 || b == 13
}

/// The line with leading and trailing whitespace dropped.
fn trim(line: &[u8]) -> (r: Vec<u8>)
    ensures
        r@ == spec_trim(line@),
{
    let mut lo: usize = 0;
    let mut hi: usize = line.len();
    proof {
        assert(line@.subrange(0, line@.len() as int) =~= line@);
    }
    while lo < hi && is_ws(line[lo])
        invariant
            lo <= hi <= line@.len(),
            spec_trim(line@) == spec_trim(line@.subrange(lo as int, hi as int)),
        decreases hi - lo,
    {
        proof {
            let cur = line@.subrange(lo as int, hi as int);
            assert(cur.skip(1) =~= line@.subrange(lo + 1, hi as int));
        }
        lo = lo + 1;
    }
    while lo < hi && is_ws(line[hi - 1])
        invariant
            lo <= hi <= line@.len(),
            spec_trim(line@) == spec_trim(line@.subrange(lo as int, hi as int)),
            lo < hi ==> !spec_is_ws(line@[lo as int]),
        decreases hi - lo,
    {
        proof {
            let cur = line@.subrange(lo as int, hi as int);
            assert(cur.drop_last() =~= line@.subrange(lo as int, hi - 1));
            assert(cur[0] == line@[lo as int]);
            assert(cur.last() == line@[hi - 1]);
        }
        hi = hi - 1;
    }
    let mut out: Vec<u8> = Vec::new();
    let mut k = lo;
    while k < hi
        invariant
            lo <= k <= hi <= line@.len(),
            out@ == line@.subrange(lo as int, k as int),
        decreases hi - k,
    {
        out.push(line[k]);
        proof {
            assert(out@ =~= line@.subrange(lo as int, k + 1));
        }
        k = k + 1;
    }
    proof {
        let cur = line@.subrange(lo as int, hi as int);
        assert(out@ =~= cur);
        if lo < hi {
            assert(cur[0] == line@[lo as int]);
            assert(cur.last() == line@[hi - 1]);
        } else {
            assert(cur =~= Seq::<u8>::empty());
        }
    }
    out
}


/// What a command left behind, for the session's owner to show or act
/// on. The owner decides how to print each of these; none of them
/// change the engine further.
#[derive(Debug, Copy, Clone, PartialEq, Eq, Structural)]
pub enum CmdOutcome {
    Done,
    Ran(VmState),
    NeedInput,
    Halted,
    HitBreakpoint,
    ReachedTarget,
    OutOfFuel,
    Popped(u16),
    EmptyStack,
    InvalidAddress,
    ShowStatus,
    ShowHelp,
    Quit,
}

/// The session state a command is left to act on.
#[verifier::ext_equal]
pub struct TracerModel {
    pub vm: VmModel,
    pub labels: Map<usize, Seq<u8>>,
    pub input: Seq<u8>,
    pub output: Seq<u8>,
    pub breakpoints: Set<usize>,
    pub autolabel: bool,
    pub map_stmts: Seq<(usize, crate::disasm::AsmItem)>,
    pub map_labels: Map<usize, Seq<u8>>,
    pub map_origins: Set<usize>,
}

/// A session state together with a command's result.
#[verifier::ext_equal]
pub struct TraceStep {
    pub state: TracerModel,
    pub result: Result<CmdOutcome, Error>,
}

/// One guarded step: a pending `In` with nothing buffered asks for
/// input and touches nothing; otherwise the engine executes exactly one
/// instruction against the session's buffers.
pub open spec fn spec_trace_step(t: TracerModel) -> TraceStep {
    let d = spec_decode(t.vm.mem, t.vm.ip);
    if (d matches Ok((n, i)) && i matches Instruction::In(_)) && t.input.len() == 0 {
        TraceStep { state: t, result: Ok(CmdOutcome::NeedInput) }
    } else {
        let m = spec_step(t.vm, t.input, t.output);
        TraceStep {
            state: TracerModel { vm: m.vm, input: m.input, output: m.output, ..t },
            result: match m.result {
                Ok(st) => Ok(CmdOutcome::Ran(st)),
                Err(e) => Err(e),
            },
        }
    }
}

/// Continuation: before each step the target bound is checked, and
/// after each step a breakpoint at the new instruction pointer stops
/// the run; a halt, an error or a needed input stops it too, and a
/// spent budget reports only that.
pub open spec fn spec_continue(t: TracerModel, til: usize, fuel: nat) -> TraceStep
    decreases fuel,
{
    if t.vm.ip >= til {
        TraceStep { state: t, result: Ok(CmdOutcome::ReachedTarget) }
    } else if fuel == 0 {
        TraceStep { state: t, result: Ok(CmdOutcome::OutOfFuel) }
    } else {
        let s = spec_trace_step(t);
        match s.result {
            Ok(CmdOutcome::Ran(VmState::Halted)) => TraceStep {
                state: s.state,
                result: Ok(CmdOutcome::Halted),
            },
            Ok(CmdOutcome::Ran(VmState::Running)) => {
                if s.state.breakpoints.contains(s.state.vm.ip) {
                    TraceStep { state: s.state, result: Ok(CmdOutcome::HitBreakpoint) }
                } else {
                    spec_continue(s.state, til, (fuel - 1) as nat)
                }
            },
            _ => s,
        }
    }
}

/// A command the dispatcher is prepared for: a register override names
/// a register that exists.
pub open spec fn spec_cmd_wf(cmd: TracerCommand) -> bool {
    match cmd {
        TracerCommand::SetReg(reg, _) => reg < NUM_REGISTERS,
        _ => true,
    }
}

/// The plain text of the status line: the instruction pointer, given
/// symbolically as well where it has a label, the register bank, and
/// the stack depth.
pub open spec fn spec_status(t: TracerModel) -> Seq<u8> {
    let ip_part = if t.labels.contains_key(t.vm.ip) {
        t.labels[t.vm.ip] + seq![32u8, 61u8, 32u8] + spec_dec_digits(t.vm.ip as nat)
    } else {
        spec_dec_digits(t.vm.ip as nat)
    };
    seq![105u8, 112u8, 32u8] + ip_part + seq![32u8, 47u8, 32u8, 114u8, 101u8, 103u8, 115u8, 32u8,
        91u8] + spec_regs_from(t.vm.regs, 0) + seq![93u8, 32u8, 47u8, 32u8, 115u8, 116u8, 97u8,
        99u8, 107u8, 35u8, 32u8] + spec_dec_digits(t.vm.stack.len())
}

/// The register bank's values from index `i` on, comma-separated.
pub open spec fn spec_regs_from(regs: Seq<u16>, i: int) -> Seq<u8>
    decreases regs.len() - i,
{
    if i < 0 || i >= regs.len() {
        Seq::empty()
    } else if i + 1 == regs.len() {
        spec_dec_digits(regs[i] as nat)
    } else {
        spec_dec_digits(regs[i] as nat) + seq![44u8, 32u8] + spec_regs_from(regs, i + 1)
    }
}

/// The interactive tracer: a live execution engine, its buffered input
/// and output, the label table, the breakpoint set, and the cached
/// disassembly map.
pub struct Tracer {
    vm: Vm,
    labels: LabelMap,
    input: InputBuffer,
    out_buf: Vec<u8>,
    breakpoints: AddrSet,
    map: ImageMap,
    autolabel: bool,
}

impl View for Tracer {
    type V = TracerModel;

    closed spec fn view(&self) -> TracerModel {
        TracerModel {
            vm: self.vm@,
            labels: self.labels@,
            input: self.input@,
            output: self.out_buf@,
            breakpoints: self.breakpoints@,
            autolabel: self.autolabel,
            map_stmts: self.map.stmts@,
            map_labels: self.map.labels@,
            map_origins: self.map.origins@,
        }
    }
}

/// The sweep a freshly built or rebuilt disassembly map comes from:
/// current memory, seeded with the session's labels.
pub open spec fn spec_session_sweep(
    mem: Seq<u16>,
    seed: Map<usize, Seq<u8>>,
    autolabel: bool,
) -> SweepState {
    spec_sweep(
        mem,
        0,
        SweepState { stmts: Seq::empty(), labels: seed, origins: Set::empty(), next_label: 0 },
        autolabel,
    )
}

impl Tracer {
    /// The session's engine and disassembly map are well formed.
    pub open spec fn wf(&self) -> bool {
        crate::vm::spec_vm_wf(self@.vm) && (forall|j: int|
            0 <= j < self@.map_stmts.len() ==> (#[trigger] self@.map_stmts[j]).0 < MEM_WORDS)
    }

    /// The engine under trace.
    pub fn vm(&self) -> (r: &Vm)
        ensures
            r@ == self@.vm,
    {
        &self.vm
    }

    /// The cached disassembly map.
    pub fn map(&self) -> (r: &ImageMap)
        ensures
            r.stmts@ == self@.map_stmts,
            r.labels@ == self@.map_labels,
            r.origins@ == self@.map_origins,
    {
        &self.map
    }

    /// The session's label table.
    pub fn labels(&self) -> (r: &LabelMap)
        ensures
            r@ == self@.labels,
    {
        &self.labels
    }

    /// A session over a loaded engine: the map is swept once up front,
    /// seeded with whatever labels were supplied, and the given initial
    /// input is consumed before any terminal input would be.
    pub fn new(
        vm: Vm,
        labels: Option<LabelMap>,
        initial_input: Option<Vec<u8>>,
        autolabel: bool,
    ) -> (r: Tracer)
        requires
            vm.wf(),
        ensures
            r.wf(),
            r@.vm == vm@,
            r@.labels == (match labels {
                Some(seed) => seed@,
                None => Map::<usize, Seq<u8>>::empty(),
            }),
            r@.input == (match initial_input {
                Some(bytes) => bytes@,
                None => Seq::<u8>::empty(),
            }),
            r@.output == Seq::<u8>::empty(),
            r@.breakpoints == Set::<usize>::empty(),
            r@.autolabel == autolabel,
            ({
                let fin = spec_session_sweep(vm@.mem, r@.labels, autolabel);
                r@.map_stmts == fin.stmts && r@.map_labels == fin.labels && r@.map_origins
                    == fin.origins
            }),
    {
        let seed: LabelMap = match labels {
            Some(m) => m,
            None => LabelMap::new(),
        };
        let map = ImageMap::new(
            vm.memory().as_slice(),
            &DisAsmOpts { autolabel, line_addrs: false, initial_labels: Some(seed.duplicate()) },
        );
        let input = InputBuffer::new(
            match initial_input {
                Some(bytes) => bytes,
                None => Vec::new(),
            },
        );
        Tracer {
            vm,
            labels: seed,
            input,
            out_buf: Vec::new(),
            breakpoints: AddrSet::new(),
            map,
            autolabel,
        }
    }

    /// Rebuild the disassembly map from current memory. The map is a
    /// snapshot: direct pokes and `Wmem` writes leave it stale until
    /// this is asked for; nothing rebuilds it implicitly.
    pub fn remap(&mut self)
        requires
            old(self).wf(),
        ensures
            final(self).wf(),
            ({
                let fin = spec_session_sweep(
                    old(self)@.vm.mem,
                    old(self)@.labels,
                    old(self)@.autolabel,
                );
                final(self)@ == (TracerModel {
                    map_stmts: fin.stmts,
                    map_labels: fin.labels,
                    map_origins: fin.origins,
                    ..old(self)@
                })
            }),
    {
        self.map = ImageMap::new(
            self.vm.memory().as_slice(),
            &DisAsmOpts {
                autolabel: self.autolabel,
                line_addrs: false,
                initial_labels: Some(self.labels.duplicate()),
            },
        );
        proof {
            assert(final(self)@ =~= (TracerModel {
                map_stmts: final(self)@.map_stmts,
                map_labels: final(self)@.map_labels,
                map_origins: final(self)@.map_origins,
                ..old(self)@
            }));
        }
    }

    /// Queue a fresh line of input for the engine, replacing whatever
    /// was left.
    pub fn supply_input(&mut self, bytes: Vec<u8>)
        ensures
            final(self)@ == (TracerModel { input: bytes@, ..old(self)@ }),
    {
        self.input.refill(bytes);
        proof {
            assert(final(self)@ =~= (TracerModel { input: bytes@, ..old(self)@ }));
        }
    }

    /// Whether the engine has any input left to read.
    pub fn has_input(&self) -> (r: bool)
        ensures
            r == (self@.input.len() > 0),
    {
        !self.input.is_empty()
    }

    /// Hand the buffered output over once a full line has been
    /// produced; partial lines stay buffered.
    pub fn pump_output(&mut self) -> (r: Option<Vec<u8>>)
        ensures
            old(self)@.output.len() > 0 && old(self)@.output.last() == 10u8 ==> (r matches Some(
                buf,
            ) && buf@ == old(self)@.output && final(self)@ == (TracerModel {
                output: Seq::empty(),
                ..old(self)@
            })),
            !(old(self)@.output.len() > 0 && old(self)@.output.last() == 10u8) ==> r is None
                && final(self)@ == old(self)@,
    {
        let flush = self.out_buf.len() > 0 && self.out_buf[self.out_buf.len() - 1] == 10;
        if flush {
            let mut buf: Vec<u8> = Vec::new();
            core::mem::swap(&mut buf, &mut self.out_buf);
            proof {
                assert(final(self)@ =~= (TracerModel { output: Seq::empty(), ..old(self)@ }));
            }
            Some(buf)
        } else {
            None
        }
    }

    /// The plain text of the status line.
    #[verifier::rlimit(100)]
    #[verifier::spinoff_prover]
    pub fn status_line(&self) -> (r: Vec<u8>)
        requires
            self.wf(),
        ensures
            r@ == spec_status(self@),
    {
        let mut out: Vec<u8> = Vec::new();
        out.push(105);
        out.push(112);
        out.push(32);
        match self.labels.get(self.vm.ip()) {
            Some(lbl) => {
                let mut k: usize = 0;
                while k < lbl.len()
                    invariant
                        k <= lbl@.len(),
                        out@ == seq![105u8, 112u8, 32u8] + lbl@.take(k as int),
                    decreases lbl@.len() - k,
                {
                    out.push(lbl[k]);
                    proof {
                        assert(out@ =~= seq![105u8, 112u8, 32u8] + lbl@.take(k + 1));
                    }
                    k = k + 1;
                }
                proof {
                    assert(lbl@.take(lbl@.len() as int) =~= lbl@);
                }
                out.push(32);
                out.push(61);
                out.push(32);
                push_dec_usize(self.vm.ip(), &mut out);
            },
            None => {
                push_dec_usize(self.vm.ip(), &mut out);
            },
        }
        out.push(32);
        out.push(47);
        out.push(32);
        out.push(114);
        out.push(101);
        out.push(103);
        out.push(115);
        out.push(32);
        out.push(91);
        let ghost mid = out@;
        let regs = self.vm.registers();
        let mut k: usize = 0;
        while k < regs.len()
            invariant
                self.wf(),
                regs@ == self@.vm.regs,
                k <= regs@.len(),
                out@ + spec_regs_from(regs@, k as int) == mid + spec_regs_from(regs@, 0),
            decreases regs@.len() - k,
        {
            push_dec_u16(regs[k], &mut out);
            if k + 1 < regs.len() {
                out.push(44);
                out.push(32);
            }
            proof {
                assert(out@ + spec_regs_from(regs@, k + 1) =~= mid + spec_regs_from(regs@, 0));
            }
            k = k + 1;
        }
        proof {
            assert(out@ =~= mid + spec_regs_from(regs@, 0));
        }
        out.push(93);
        out.push(32);
        out.push(47);
        out.push(32);
        out.push(115);
        out.push(116);
        out.push(97);
        out.push(99);
        out.push(107);
        out.push(35);
        out.push(32);
        push_dec_usize(self.vm.stack().len(), &mut out);
        proof {
            assert(out@ =~= spec_status(self@));
        }
        out
    }
}


impl Tracer {
    /// Execute exactly one instruction, unless the next instruction is
    /// `In` and no input is buffered: then nothing runs, nothing moves,
    /// and the caller is asked for input first.
    pub fn step(&mut self) -> (r: Result<CmdOutcome, Error>)
        requires
            old(self).wf(),
        ensures
            final(self).wf(),
            ({
                let s = spec_trace_step(old(self)@);
                final(self)@ == s.state && r == s.result
            }),
            r == Ok::<CmdOutcome, Error>(CmdOutcome::NeedInput) ==> final(self)@ == old(self)@,
    {
        match self.vm.decode_next() {
            Ok(p) => {
                match p.1 {
                    Instruction::In(_) => {
                        if self.input.is_empty() {
                            return Ok(CmdOutcome::NeedInput);
                        }
                    },
                    _ => {
                    },
                }
            },
            Err(_) => {
            },
        }
        let r = self.vm.step(&mut self.input, &mut self.out_buf);
        proof {
            let s = spec_trace_step(old(self)@);
            assert(final(self)@ =~= s.state);
        }
        match r {
            Ok(st) => Ok(CmdOutcome::Ran(st)),
            Err(e) => Err(e),
        }
    }

    /// Run until the target bound or a breakpoint is reached, the
    /// machine halts, input is needed, an error arises, or the step
    /// budget is spent. The caller re-issues the command after handling
    /// whichever of those it can.
    fn cont_run(&mut self, til: usize, fuel: u64) -> (r: Result<CmdOutcome, Error>)
        requires
            old(self).wf(),
        ensures
            final(self).wf(),
            ({
                let s = spec_continue(old(self)@, til, fuel as nat);
                final(self)@ == s.state && r == s.result
            }),
    {
        let mut left: u64 = fuel;
        loop
            invariant
                self.wf(),
                spec_continue(old(self)@, til, fuel as nat) == spec_continue(
                    self@,
                    til,
                    left as nat,
                ),
            decreases left,
        {
            if self.vm.ip() >= til {
                return Ok(CmdOutcome::ReachedTarget);
            }
            if left == 0 {
                return Ok(CmdOutcome::OutOfFuel);
            }
            let r = self.step();
            match r {
                Ok(CmdOutcome::Ran(VmState::Halted)) => {
                    return Ok(CmdOutcome::Halted);
                },
                Ok(CmdOutcome::Ran(VmState::Running)) => {
                    if self.breakpoints.contains(self.vm.ip()) {
                        return Ok(CmdOutcome::HitBreakpoint);
                    }
                    left = left - 1;
                },
                Ok(CmdOutcome::NeedInput) => {
                    return Ok(CmdOutcome::NeedInput);
                },
                Ok(_) => {
                    proof {
                        assert(false);
                    }
                    return Ok(CmdOutcome::Done);
                },
                Err(e) => {
                    return Err(e);
                },
            }
        }
    }

    /// Dispatch one parsed command against the live session. `fuel`
    /// bounds how many instructions a continuation may run before it
    /// reports `OutOfFuel`; the caller loops, polling its interrupt
    /// flag between calls, so cancellation arrives within that bound.
    pub fn do_cmd(&mut self, cmd: TracerCommand, fuel: u64) -> (r: Result<CmdOutcome, Error>)
        requires
            old(self).wf(),
            spec_cmd_wf(cmd),
        ensures
            final(self).wf(),
            cmd == TracerCommand::Step ==> ({
                let s = spec_trace_step(old(self)@);
                final(self)@ == s.state && r == s.result
            }),
            (cmd matches TracerCommand::Continue(til) ==> ({
                let s = spec_continue(
                    old(self)@,
                    match til {
                        Some(t) => t,
                        None => usize::MAX,
                    },
                    fuel as nat,
                );
                final(self)@ == s.state && r == s.result
            })),
            (cmd matches TracerCommand::SetLabel(p, l) ==> final(self)@ == (TracerModel {
                labels: old(self)@.labels.insert(p, l@),
                ..old(self)@
            }) && r == Ok::<CmdOutcome, Error>(CmdOutcome::Done)),
            (cmd matches TracerCommand::ClearLabel(l) ==> r == Ok::<CmdOutcome, Error>(
                CmdOutcome::Done,
            ) && ((final(self)@ == old(self)@ && (forall|a: usize|
                old(self)@.labels.contains_key(a) ==> old(self)@.labels[a] != l@)) || (
            exists|a: usize|
                #![auto]
                old(self)@.labels.contains_key(a) && old(self)@.labels[a] == l@ && final(self)@
                    == (TracerModel { labels: old(self)@.labels.remove(a), ..old(self)@ })))),
            (cmd matches TracerCommand::SetBreakpoint(p) ==> final(self)@ == (TracerModel {
                breakpoints: old(self)@.breakpoints.insert(p),
                ..old(self)@
            }) && r == Ok::<CmdOutcome, Error>(CmdOutcome::Done)),
            (cmd matches TracerCommand::ClearBreakpoint(p) ==> final(self)@ == (TracerModel {
                breakpoints: old(self)@.breakpoints.remove(p),
                ..old(self)@
            }) && r == Ok::<CmdOutcome, Error>(CmdOutcome::Done)),
            (cmd matches TracerCommand::Push(v) ==> final(self)@ == (TracerModel {
                vm: VmModel { stack: old(self)@.vm.stack.push(v), ..old(self)@.vm },
                ..old(self)@
            }) && r == Ok::<CmdOutcome, Error>(CmdOutcome::Done)),
            cmd == TracerCommand::Pop ==> (if old(self)@.vm.stack.len() == 0 {
                final(self)@ == old(self)@ && r == Ok::<CmdOutcome, Error>(CmdOutcome::EmptyStack)
            } else {
                final(self)@ == (TracerModel {
                    vm: VmModel { stack: old(self)@.vm.stack.drop_last(), ..old(self)@.vm },
                    ..old(self)@
                }) && r == Ok::<CmdOutcome, Error>(
                    CmdOutcome::Popped(old(self)@.vm.stack.last()),
                )
            }),
            (cmd matches TracerCommand::Poke(p, v) ==> (if p < MEM_WORDS {
                final(self)@ == (TracerModel {
                    vm: VmModel { mem: old(self)@.vm.mem.update(p as int, v), ..old(self)@.vm },
                    ..old(self)@
                }) && r == Ok::<CmdOutcome, Error>(CmdOutcome::Done)
            } else {
                final(self)@ == old(self)@ && r == Ok::<CmdOutcome, Error>(
                    CmdOutcome::InvalidAddress,
                )
            })),
            (cmd matches TracerCommand::SetReg(reg, v) ==> final(self)@ == (TracerModel {
                vm: VmModel { regs: old(self)@.vm.regs.update(reg as int, v), ..old(self)@.vm },
                ..old(self)@
            }) && r == Ok::<CmdOutcome, Error>(CmdOutcome::Done)),
            cmd == TracerCommand::Status ==> final(self)@ == old(self)@ && r == Ok::<
                CmdOutcome,
                Error,
            >(CmdOutcome::ShowStatus),
            cmd == TracerCommand::Remap ==> ({
                let fin = spec_session_sweep(
                    old(self)@.vm.mem,
                    old(self)@.labels,
                    old(self)@.autolabel,
                );
                final(self)@ == (TracerModel {
                    map_stmts: fin.stmts,
                    map_labels: fin.labels,
                    map_origins: fin.origins,
                    ..old(self)@
                }) && r == Ok::<CmdOutcome, Error>(CmdOutcome::Done)
            }),
            cmd == TracerCommand::Help ==> final(self)@ == old(self)@ && r == Ok::<
                CmdOutcome,
                Error,
            >(CmdOutcome::ShowHelp),
            cmd == TracerCommand::Quit ==> final(self)@ == old(self)@ && r == Ok::<
                CmdOutcome,
                Error,
            >(CmdOutcome::Quit),
    {
        match cmd {
            TracerCommand::Step => self.step(),
            TracerCommand::Continue(til_opt) => {
                let til = match til_opt {
                    Some(t) => t,
                    None => usize::MAX,
                };
                self.cont_run(til, fuel)
            },
            TracerCommand::SetLabel(ptr, label) => {
                self.labels.insert(ptr, label);
                proof {
                    assert(final(self)@ =~= (TracerModel {
                        labels: old(self)@.labels.insert(ptr, label@),
                        ..old(self)@
                    }));
                }
                Ok(CmdOutcome::Done)
            },
            TracerCommand::ClearLabel(label) => {
                let removed = self.labels.remove_by_name(&label);
                proof {
                    match removed {
                        Some(a) => {
                            assert(final(self)@ =~= (TracerModel {
                                labels: old(self)@.labels.remove(a),
                                ..old(self)@
                            }));
                        },
                        None => {
                            assert(final(self)@ =~= old(self)@);
                        },
                    }
                }
                Ok(CmdOutcome::Done)
            },
            TracerCommand::SetBreakpoint(ip) => {
                self.breakpoints.insert(ip);
                proof {
                    assert(final(self)@ =~= (TracerModel {
                        breakpoints: old(self)@.breakpoints.insert(ip),
                        ..old(self)@
                    }));
                }
                Ok(CmdOutcome::Done)
            },
            TracerCommand::ClearBreakpoint(ip) => {
                self.breakpoints.remove(ip);
                proof {
                    assert(final(self)@ =~= (TracerModel {
                        breakpoints: old(self)@.breakpoints.remove(ip),
                        ..old(self)@
                    }));
                }
                Ok(CmdOutcome::Done)
            },
            TracerCommand::Push(val) => {
                self.vm.push_stack(val);
                proof {
                    assert(final(self)@ =~= (TracerModel {
                        vm: VmModel { stack: old(self)@.vm.stack.push(val), ..old(self)@.vm },
                        ..old(self)@
                    }));
                }
                Ok(CmdOutcome::Done)
            },
            TracerCommand::Pop => {
                match self.vm.pop_stack() {
                    Some(val) => {
                        proof {
                            assert(final(self)@ =~= (TracerModel {
                                vm: VmModel {
                                    stack: old(self)@.vm.stack.drop_last(),
                                    ..old(self)@.vm
                                },
                                ..old(self)@
                            }));
                        }
                        Ok(CmdOutcome::Popped(val))
                    },
                    None => Ok(CmdOutcome::EmptyStack),
                }
            },
            TracerCommand::Poke(ptr, val) => {
                if ptr < MEM_WORDS {
                    let mem = self.vm.memory_mut();
                    mem[ptr] = val;
                    proof {
                        assert(final(self)@ =~= (TracerModel {
                            vm: VmModel {
                                mem: old(self)@.vm.mem.update(ptr as int, val),
                                ..old(self)@.vm
                            },
                            ..old(self)@
                        }));
                    }
                    Ok(CmdOutcome::Done)
                } else {
                    Ok(CmdOutcome::InvalidAddress)
                }
            },
            TracerCommand::SetReg(reg, val) => {
                let regs = self.vm.registers_mut();
                regs[reg] = val;
                proof {
                    assert(final(self)@ =~= (TracerModel {
                        vm: VmModel {
                            regs: old(self)@.vm.regs.update(reg as int, val),
                            ..old(self)@.vm
                        },
                        ..old(self)@
                    }));
                }
                Ok(CmdOutcome::Done)
            },
            TracerCommand::Status => Ok(CmdOutcome::ShowStatus),
            TracerCommand::Remap => {
                self.remap();
                Ok(CmdOutcome::Done)
            },
            TracerCommand::Help => Ok(CmdOutcome::ShowHelp),
            TracerCommand::Quit => Ok(CmdOutcome::Quit),
        }
    }

    /// The state a command's outcome leaves the session in: only `quit`
    /// ends it.
    pub fn next_state(outcome: &CmdOutcome) -> (r: TracerState)
        ensures
            r == (if outcome == CmdOutcome::Quit {
                TracerState::Quit
            } else {
                TracerState::WaitCommand
            }),
    {
        match *outcome {
            CmdOutcome::Quit => TracerState::Quit,
            _ => TracerState::WaitCommand,
        }
    }
}

/// A continuation that reports a breakpoint stands at one: the stop is
/// at a breakpoint address, and the breakpoint set itself was never
/// changed by running.
pub proof fn lemma_continue_stops_on_breakpoint(t: TracerModel, til: usize, fuel: nat)
    ensures
        ({
            let s = spec_continue(t, til, fuel);
            s.state.breakpoints == t.breakpoints && (s.result == Ok::<CmdOutcome, Error>(
                CmdOutcome::HitBreakpoint,
            ) ==> s.state.breakpoints.contains(s.state.vm.ip))
        }),
    decreases fuel,
{
    if t.vm.ip < til && fuel > 0 {
        let s = spec_trace_step(t);
        if s.result == Ok::<CmdOutcome, Error>(CmdOutcome::Ran(VmState::Running))
            && !s.state.breakpoints.contains(s.state.vm.ip) {
            lemma_continue_stops_on_breakpoint(s.state, til, (fuel - 1) as nat);
        }
    }
}

/// The session state after `n` guarded steps.
pub open spec fn spec_trace_run_n(t: TracerModel, n: nat) -> TracerModel
    decreases n,
{
    if n == 0 {
        t
    } else {
        spec_trace_step(spec_trace_run_n(t, (n - 1) as nat)).state
    }
}

/// Iterating one step more from the front or from the back is the same.
proof fn lemma_trace_run_n_shift(t: TracerModel, j: nat)
    ensures
        spec_trace_run_n(t, j + 1) == spec_trace_run_n(spec_trace_step(t).state, j),
    decreases j,
{
    let s = spec_trace_step(t).state;
    if j > 0 {
        lemma_trace_run_n_shift(t, (j - 1) as nat);
    } else {
        assert(spec_trace_run_n(t, 0) == t);
        assert(spec_trace_run_n(s, 0) == s);
    }
}

/// A continuation stops at the first breakpoint it reaches, however
/// many instructions ran before it: when it reports a breakpoint, the
/// stop state is the `k`-th step's state for some `k`, that state's
/// instruction pointer is a breakpoint, and no earlier step's was.
pub proof fn lemma_continue_first_breakpoint(t: TracerModel, til: usize, fuel: nat)
    ensures
        spec_continue(t, til, fuel).result == Ok::<CmdOutcome, Error>(CmdOutcome::HitBreakpoint)
            ==> exists|k: nat|
            1 <= k <= fuel && spec_continue(t, til, fuel).state == spec_trace_run_n(t, k)
                && t.breakpoints.contains(spec_trace_run_n(t, k).vm.ip) && (forall|j: nat|
                1 <= j < k ==> !t.breakpoints.contains(#[trigger] spec_trace_run_n(t, j).vm.ip)),
    decreases fuel,
{
    if t.vm.ip < til && fuel > 0 {
        let s = spec_trace_step(t);
        if s.result == Ok::<CmdOutcome, Error>(CmdOutcome::Ran(VmState::Running)) {
            if s.state.breakpoints.contains(s.state.vm.ip) {
                assert(spec_trace_run_n(t, 0) == t);
                assert(spec_trace_run_n(t, 1) == s.state);
                assert(1 <= 1nat <= fuel && spec_continue(t, til, fuel).state
                    == spec_trace_run_n(t, 1nat) && t.breakpoints.contains(
                    spec_trace_run_n(t, 1nat).vm.ip,
                ) && (forall|j: nat|
                    1 <= j < 1nat ==> !t.breakpoints.contains(
                        #[trigger] spec_trace_run_n(t, j).vm.ip,
                    )));
            } else {
                lemma_continue_first_breakpoint(s.state, til, (fuel - 1) as nat);
                if spec_continue(t, til, fuel).result == Ok::<CmdOutcome, Error>(
                    CmdOutcome::HitBreakpoint,
                ) {
                    let inner = choose|k: nat|
                        1 <= k <= (fuel - 1) as nat && spec_continue(
                            s.state,
                            til,
                            (fuel - 1) as nat,
                        ).state == spec_trace_run_n(s.state, k) && s.state.breakpoints.contains(
                            spec_trace_run_n(s.state, k).vm.ip,
                        ) && (forall|j: nat|
                            1 <= j < k ==> !s.state.breakpoints.contains(
                                #[trigger] spec_trace_run_n(s.state, j).vm.ip,
                            ));
                    lemma_trace_run_n_shift(t, inner);
                    let k = inner + 1;
                    assert forall|j: nat| 1 <= j < k implies !t.breakpoints.contains(
                        #[trigger] spec_trace_run_n(t, j).vm.ip,
                    ) by {
                        if j == 1 {
                            assert(spec_trace_run_n(t, 0) == t);
                            assert(spec_trace_run_n(t, 1) == s.state);
                        } else {
                            lemma_trace_run_n_shift(t, (j - 1) as nat);
                            assert(spec_trace_run_n(t, j) == spec_trace_run_n(
                                s.state,
                                (j - 1) as nat,
                            ));
                        }
                    }
                    assert(1 <= k <= fuel && spec_continue(t, til, fuel).state
                        == spec_trace_run_n(t, k) && t.breakpoints.contains(
                        spec_trace_run_n(t, k).vm.ip,
                    ));
                }
            }
        }
    }
}


/// What a command word resolves to as an address: its decimal value,
/// or the address carrying it as a label.
pub open spec fn spec_resolves(labels: Map<usize, Seq<u8>>, tok: Seq<u8>, a: usize) -> bool {
    if spec_all_digits(tok) && spec_dec_value(tok) <= usize::MAX {
        a == spec_dec_value(tok)
    } else {
        labels.contains_key(a) && labels[a] == tok
    }
}

/// A word that is neither a numeral nor any address's label.
pub open spec fn spec_unresolvable(labels: Map<usize, Seq<u8>>, tok: Seq<u8>) -> bool {
    !(spec_all_digits(tok) && spec_dec_value(tok) <= usize::MAX) && (forall|a: usize|
        labels.contains_key(a) ==> labels[a] != tok)
}

/// A byte string with the same bytes.
fn copy_bytes(src: &Vec<u8>) -> (r: Vec<u8>)
    ensures
        r@ == src@,
{
    let mut out: Vec<u8> = Vec::new();
    let mut k: usize = 0;
    while k < src.len()
        invariant
            k <= src@.len(),
            out@ == src@.take(k as int),
        decreases src@.len() - k,
    {
        out.push(src[k]);
        proof {
            assert(out@ =~= src@.take(k + 1));
        }
        k = k + 1;
    }
    proof {
        assert(src@.take(src@.len() as int) =~= src@);
    }
    out
}

impl Tracer {
    /// Resolve a command word to an address: numerically, or through
    /// the label table; an unresolvable word is a local failure.
    pub fn ptr_or_label(&self, input: &Vec<u8>) -> (r: Result<usize, TracerError>)
        ensures
            (r matches Ok(a) ==> spec_resolves(self@.labels, input@, a)),
            (r matches Err(e) ==> (e matches TracerError::UnknownLabel(v) && v@ == input@)
                && spec_unresolvable(self@.labels, input@)),
    {
        match parse_usize(input.as_slice()) {
            Some(p) => Ok(p),
            None => {
                match self.labels.find_by_name(input) {
                    Some(a) => Ok(a),
                    None => Err(TracerError::UnknownLabel(copy_bytes(input))),
                }
            },
        }
    }
}


/// Whether a word is exactly the one given byte.
fn tok1(t: &Vec<u8>, a0: u8) -> (r: bool)
    ensures
        r == (t@ == seq![a0]),
{
    if t.len() == 1 && t[0] == a0 {
        proof {
            assert(t@ =~= seq![a0]);
        }
        true
    } else {
        false
    }
}

/// Whether a word is exactly the three bytes given.
fn tok3(t: &Vec<u8>, a0: u8, a1: u8, a2: u8) -> (r: bool)
    ensures
        r == (t@ == seq![a0, a1, a2]),
{
    if t.len() == 3 && t[0] == a0 && t[1] == a1 && t[2] == a2 {
        proof {
            assert(t@ =~= seq![a0, a1, a2]);
        }
        true
    } else {
        false
    }
}

/// Whether a word is exactly the four bytes given.
fn tok4(t: &Vec<u8>, a0: u8, a1: u8, a2: u8, a3: u8) -> (r: bool)
    ensures
        r == (t@ == seq![a0, a1, a2, a3]),
{
    if t.len() == 4 && t[0] == a0 && t[1] == a1 && t[2] == a2 && t[3] == a3 {
        proof {
            assert(t@ =~= seq![a0, a1, a2, a3]);
        }
        true
    } else {
        false
    }
}

/// Whether a word is exactly the five bytes given.
fn tok5(t: &Vec<u8>, a0: u8, a1: u8, a2: u8, a3: u8, a4: u8) -> (r: bool)
    ensures
        r == (t@ == seq![a0, a1, a2, a3, a4]),
{
    if t.len() == 5 && t[0] == a0 && t[1] == a1 && t[2] == a2 && t[3] == a3 && t[4] == a4 {
        proof {
            assert(t@ =~= seq![a0, a1, a2, a3, a4]);
        }
        true
    } else {
        false
    }
}

/// Whether a word is exactly the six bytes given.
fn tok6(t: &Vec<u8>, a0: u8, a1: u8, a2: u8, a3: u8, a4: u8, a5: u8) -> (r: bool)
    ensures
        r == (t@ == seq![a0, a1, a2, a3, a4, a5]),
{
    if t.len() == 6 && t[0] == a0 && t[1] == a1 && t[2] == a2 && t[3] == a3 && t[4] == a4 && t[5]
        == a5 {
        proof {
            assert(t@ =~= seq![a0, a1, a2, a3, a4, a5]);
        }
        true
    } else {
        false
    }
}

/// Whether a word is exactly the seven bytes given.
fn tok7(t: &Vec<u8>, a0: u8, a1: u8, a2: u8, a3: u8, a4: u8, a5: u8, a6: u8) -> (r: bool)
    ensures
        r == (t@ == seq![a0, a1, a2, a3, a4, a5, a6]),
{
    if t.len() == 7 && t[0] == a0 && t[1] == a1 && t[2] == a2 && t[3] == a3 && t[4] == a4 && t[5]
        == a5 && t[6] == a6 {
        proof {
            assert(t@ =~= seq![a0, a1, a2, a3, a4, a5, a6]);
        }
        true
    } else {
        false
    }
}

/// Whether a word is exactly the eight bytes given.
fn tok8(t: &Vec<u8>, a0: u8, a1: u8, a2: u8, a3: u8, a4: u8, a5: u8, a6: u8, a7: u8) -> (r: bool)
    ensures
        r == (t@ == seq![a0, a1, a2, a3, a4, a5, a6, a7]),
{
    if t.len() == 8 && t[0] == a0 && t[1] == a1 && t[2] == a2 && t[3] == a3 && t[4] == a4 && t[5]
        == a5 && t[6] == a6 && t[7] == a7 {
        proof {
            assert(t@ =~= seq![a0, a1, a2, a3, a4, a5, a6, a7]);
        }
        true
    } else {
        false
    }
}

/// The words that ask for a single step.
pub open spec fn spec_kw_step(t: Seq<u8>) -> bool {
    t == seq![115u8] || t == seq![115u8, 116u8, 101u8, 112u8]
}

/// The words that ask to continue.
pub open spec fn spec_kw_continue(t: Seq<u8>) -> bool {
    t == seq![99u8] || t == seq![99u8, 111u8, 110u8, 116u8, 105u8, 110u8, 117u8, 101u8]
}

/// The words that set a label.
pub open spec fn spec_kw_label(t: Seq<u8>) -> bool {
    t == seq![108u8] || t == seq![108u8, 97u8, 98u8, 101u8, 108u8] || t == seq![
        108u8,
        98u8,
        108u8,
    ]
}

/// The words that clear a label.
pub open spec fn spec_kw_unlabel(t: Seq<u8>) -> bool {
    t == seq![117u8] || t == seq![117u8, 110u8, 108u8, 97u8, 98u8, 101u8, 108u8]
}

/// The words that set a breakpoint.
pub open spec fn spec_kw_break(t: Seq<u8>) -> bool {
    t == seq![98u8] || t == seq![98u8, 114u8, 101u8, 97u8, 107u8]
}

/// The words that clear a breakpoint.
pub open spec fn spec_kw_clear(t: Seq<u8>) -> bool {
    t == seq![114u8] || t == seq![99u8, 108u8, 101u8, 97u8, 114u8]
}

/// The word that pushes a value onto the stack.
pub open spec fn spec_kw_push(t: Seq<u8>) -> bool {
    t == seq![112u8, 117u8, 115u8, 104u8]
}

/// The word that pops the stack.
pub open spec fn spec_kw_pop(t: Seq<u8>) -> bool {
    t == seq![112u8, 111u8, 112u8]
}

/// The word that overwrites one memory word.
pub open spec fn spec_kw_poke(t: Seq<u8>) -> bool {
    t == seq![112u8, 111u8, 107u8, 101u8]
}

/// The words that override a register.
pub open spec fn spec_kw_set(t: Seq<u8>) -> bool {
    t == seq![116u8] || t == seq![115u8, 101u8, 116u8]
}

/// The words that re-print the status line.
pub open spec fn spec_kw_status(t: Seq<u8>) -> bool {
    t == seq![97u8] || t == seq![115u8, 116u8, 97u8, 116u8, 117u8, 115u8]
}

/// The words that rebuild the disassembly map.
pub open spec fn spec_kw_remap(t: Seq<u8>) -> bool {
    t == seq![109u8] || t == seq![114u8, 101u8, 109u8, 97u8, 112u8]
}

/// The words that print the usage text.
pub open spec fn spec_kw_help(t: Seq<u8>) -> bool {
    t == seq![104u8] || t == seq![104u8, 101u8, 108u8, 112u8]
}

/// The words that end the session.
pub open spec fn spec_kw_quit(t: Seq<u8>) -> bool {
    t == seq![113u8] || t == seq![113u8, 117u8, 105u8, 116u8]
}

/// The register-name words `r0` through `r7`, and the index each names.
pub open spec fn spec_reg_tok(t: Seq<u8>) -> Option<usize> {
    if t.len() == 2 && t[0] == 114u8 && 48 <= t[1] <= 55 {
        Some((t[1] - 48) as usize)
    } else {
        None
    }
}

/// The command a first word names.
pub enum KwClass {
    KwStep,
    KwContinue,
    KwLabel,
    KwUnlabel,
    KwBreak,
    KwClear,
    KwPush,
    KwPop,
    KwPoke,
    KwSet,
    KwStatus,
    KwRemap,
    KwHelp,
    KwQuit,
    KwUnknown,
}

/// Classify a first word; exactly one class fits any word.
pub open spec fn spec_kw(t: Seq<u8>) -> KwClass {
    if spec_kw_step(t) {
        KwClass::KwStep
    } else if spec_kw_continue(t) {
        KwClass::KwContinue
    } else if spec_kw_label(t) {
        KwClass::KwLabel
    } else if spec_kw_unlabel(t) {
        KwClass::KwUnlabel
    } else if spec_kw_break(t) {
        KwClass::KwBreak
    } else if spec_kw_clear(t) {
        KwClass::KwClear
    } else if spec_kw_push(t) {
        KwClass::KwPush
    } else if spec_kw_pop(t) {
        KwClass::KwPop
    } else if spec_kw_poke(t) {
        KwClass::KwPoke
    } else if spec_kw_set(t) {
        KwClass::KwSet
    } else if spec_kw_status(t) {
        KwClass::KwStatus
    } else if spec_kw_remap(t) {
        KwClass::KwRemap
    } else if spec_kw_help(t) {
        KwClass::KwHelp
    } else if spec_kw_quit(t) {
        KwClass::KwQuit
    } else {
        KwClass::KwUnknown
    }
}


impl Tracer {
    /// Parse one line of the command language against the session's
    /// label table. A blank line asks for a step; an unrecognized word,
    /// or a recognized command missing what it needs, is a local
    /// failure naming the trimmed line; an unresolvable address word
    /// is one naming that word.
    #[verifier::rlimit(100)]
    #[verifier::spinoff_prover]
    pub fn get_command(&self, line: &[u8]) -> (r: Result<TracerCommand, TracerError>)
        ensures
            ({
                let toks = spec_tokens(line@);
                let labels = self@.labels;
                let trimmed = spec_trim(line@);
                &&& (toks.len() == 0 ==> r == Ok::<TracerCommand, TracerError>(
                    TracerCommand::Step,
                ))
                &&& (toks.len() > 0 && spec_kw(toks[0]) == KwClass::KwStep ==> r == Ok::<
                    TracerCommand,
                    TracerError,
                >(TracerCommand::Step))
                &&& (toks.len() == 1 && spec_kw(toks[0]) == KwClass::KwContinue ==> r == Ok::<
                    TracerCommand,
                    TracerError,
                >(TracerCommand::Continue(None)))
                &&& (toks.len() > 1 && spec_kw(toks[0]) == KwClass::KwContinue ==> (if spec_unresolvable(
                    labels,
                    toks[1],
                ) {
                    r matches Err(TracerError::UnknownLabel(v)) && v@ == toks[1]
                } else {
                    r matches Ok(TracerCommand::Continue(Some(a))) && spec_resolves(
                        labels,
                        toks[1],
                        a,
                    )
                }))
                &&& (toks.len() == 1 && spec_kw(toks[0]) == KwClass::KwLabel ==> (r matches Err(
                    TracerError::UnknownCommand(v),
                ) && v@ == trimmed))
                &&& (toks.len() == 2 && spec_kw(toks[0]) == KwClass::KwLabel ==> (if spec_unresolvable(
                    labels,
                    toks[1],
                ) {
                    r matches Err(TracerError::UnknownLabel(v)) && v@ == toks[1]
                } else {
                    r matches Err(TracerError::UnknownCommand(v)) && v@ == trimmed
                }))
                &&& (toks.len() >= 3 && spec_kw(toks[0]) == KwClass::KwLabel ==> (if spec_unresolvable(
                    labels,
                    toks[1],
                ) {
                    r matches Err(TracerError::UnknownLabel(v)) && v@ == toks[1]
                } else {
                    r matches Ok(TracerCommand::SetLabel(a, l)) && spec_resolves(
                        labels,
                        toks[1],
                        a,
                    ) && l@ == toks[2]
                }))
                &&& (toks.len() == 1 && spec_kw(toks[0]) == KwClass::KwUnlabel ==> (r matches Err(
                    TracerError::UnknownCommand(v),
                ) && v@ == trimmed))
                &&& (toks.len() >= 2 && spec_kw(toks[0]) == KwClass::KwUnlabel ==> (r matches Ok(
                    TracerCommand::ClearLabel(l),
                ) && l@ == toks[1]))
                &&& (toks.len() == 1 && spec_kw(toks[0]) == KwClass::KwBreak ==> (r matches Err(
                    TracerError::UnknownCommand(v),
                ) && v@ == trimmed))
                &&& (toks.len() >= 2 && spec_kw(toks[0]) == KwClass::KwBreak ==> (if spec_unresolvable(
                    labels,
                    toks[1],
                ) {
                    r matches Err(TracerError::UnknownLabel(v)) && v@ == toks[1]
                } else {
                    r matches Ok(TracerCommand::SetBreakpoint(a)) && spec_resolves(
                        labels,
                        toks[1],
                        a,
                    )
                }))
                &&& (toks.len() == 1 && spec_kw(toks[0]) == KwClass::KwClear ==> (r matches Err(
                    TracerError::UnknownCommand(v),
                ) && v@ == trimmed))
                &&& (toks.len() >= 2 && spec_kw(toks[0]) == KwClass::KwClear ==> (if spec_unresolvable(
                    labels,
                    toks[1],
                ) {
                    r matches Err(TracerError::UnknownLabel(v)) && v@ == toks[1]
                } else {
                    r matches Ok(TracerCommand::ClearBreakpoint(a)) && spec_resolves(
                        labels,
                        toks[1],
                        a,
                    )
                }))
                &&& (toks.len() > 0 && spec_kw(toks[0]) == KwClass::KwPush ==> (if toks.len() >= 2
                    && spec_all_digits(toks[1]) && spec_dec_value(toks[1]) <= u16::MAX {
                    r == Ok::<TracerCommand, TracerError>(
                        TracerCommand::Push(spec_dec_value(toks[1]) as u16),
                    )
                } else {
                    r matches Err(TracerError::UnknownCommand(v)) && v@ == trimmed
                }))
                &&& (toks.len() > 0 && spec_kw(toks[0]) == KwClass::KwPop ==> r == Ok::<
                    TracerCommand,
                    TracerError,
                >(TracerCommand::Pop))
                &&& (toks.len() == 1 && spec_kw(toks[0]) == KwClass::KwPoke ==> (r matches Err(
                    TracerError::UnknownCommand(v),
                ) && v@ == trimmed))
                &&& (toks.len() >= 2 && spec_kw(toks[0]) == KwClass::KwPoke ==> (if spec_unresolvable(
                    labels,
                    toks[1],
                ) {
                    r matches Err(TracerError::UnknownLabel(v)) && v@ == toks[1]
                } else if toks.len() >= 3 && spec_all_digits(toks[2]) && spec_dec_value(toks[2])
                    <= u16::MAX {
                    r matches Ok(TracerCommand::Poke(a, v)) && spec_resolves(labels, toks[1], a)
                        && v == spec_dec_value(toks[2]) as u16
                } else {
                    r matches Err(TracerError::UnknownCommand(v)) && v@ == trimmed
                }))
                &&& (toks.len() == 1 && spec_kw(toks[0]) == KwClass::KwSet ==> (r matches Err(
                    TracerError::UnknownCommand(v),
                ) && v@ == trimmed))
                &&& (toks.len() >= 2 && spec_kw(toks[0]) == KwClass::KwSet ==> (match spec_reg_tok(toks[1]) {
                    None => r matches Err(TracerError::UnknownRegister(v)) && v@ == toks[1],
                    Some(reg) => {
                        if toks.len() >= 3 && spec_all_digits(toks[2]) && spec_dec_value(toks[2])
                            <= u16::MAX {
                            r == Ok::<TracerCommand, TracerError>(
                                TracerCommand::SetReg(reg, spec_dec_value(toks[2]) as u16),
                            )
                        } else {
                            r matches Err(TracerError::UnknownCommand(v)) && v@ == trimmed
                        }
                    },
                }))
                &&& (toks.len() > 0 && spec_kw(toks[0]) == KwClass::KwStatus ==> r == Ok::<
                    TracerCommand,
                    TracerError,
                >(TracerCommand::Status))
                &&& (toks.len() > 0 && spec_kw(toks[0]) == KwClass::KwRemap ==> r == Ok::<
                    TracerCommand,
                    TracerError,
                >(TracerCommand::Remap))
                &&& (toks.len() > 0 && spec_kw(toks[0]) == KwClass::KwHelp ==> r == Ok::<
                    TracerCommand,
                    TracerError,
                >(TracerCommand::Help))
                &&& (toks.len() > 0 && spec_kw(toks[0]) == KwClass::KwQuit ==> r == Ok::<
                    TracerCommand,
                    TracerError,
                >(TracerCommand::Quit))
                &&& (toks.len() > 0 && spec_kw(toks[0]) == KwClass::KwUnknown ==> (
                r matches Err(TracerError::UnknownCommand(v)) && v@ == trimmed))
            }),
    {
        let toks = tokens(line);
        if toks.len() == 0 {
            return Ok(TracerCommand::Step);
        }
        let t0 = &toks[0];
        if tok1(t0, 115) || tok4(t0, 115, 116, 101, 112) {
            return Ok(TracerCommand::Step);
        }
        if tok1(t0, 99) || tok8(t0, 99, 111, 110, 116, 105, 110, 117, 101) {
            if toks.len() == 1 {
                return Ok(TracerCommand::Continue(None));
            }
            let a = match self.ptr_or_label(&toks[1]) {
                Ok(a) => a,
                Err(e) => {
                    return Err(e);
                },
            };
            return Ok(TracerCommand::Continue(Some(a)));
        }
        if tok1(t0, 108) || tok5(t0, 108, 97, 98, 101, 108) || tok3(t0, 108, 98, 108) {
            if toks.len() < 2 {
                return Err(TracerError::UnknownCommand(trim(line)));
            }
            let a = match self.ptr_or_label(&toks[1]) {
                Ok(a) => a,
                Err(e) => {
                    return Err(e);
                },
            };
            if toks.len() < 3 {
                return Err(TracerError::UnknownCommand(trim(line)));
            }
            return Ok(TracerCommand::SetLabel(a, copy_bytes(&toks[2])));
        }
        if tok1(t0, 117) || tok7(t0, 117, 110, 108, 97, 98, 101, 108) {
            if toks.len() < 2 {
                return Err(TracerError::UnknownCommand(trim(line)));
            }
            return Ok(TracerCommand::ClearLabel(copy_bytes(&toks[1])));
        }
        if tok1(t0, 98) || tok5(t0, 98, 114, 101, 97, 107) {
            if toks.len() < 2 {
                return Err(TracerError::UnknownCommand(trim(line)));
            }
            let a = match self.ptr_or_label(&toks[1]) {
                Ok(a) => a,
                Err(e) => {
                    return Err(e);
                },
            };
            return Ok(TracerCommand::SetBreakpoint(a));
        }
        if tok1(t0, 114) || tok5(t0, 99, 108, 101, 97, 114) {
            if toks.len() < 2 {
                return Err(TracerError::UnknownCommand(trim(line)));
            }
            let a = match self.ptr_or_label(&toks[1]) {
                Ok(a) => a,
                Err(e) => {
                    return Err(e);
                },
            };
            return Ok(TracerCommand::ClearBreakpoint(a));
        }
        if tok4(t0, 112, 117, 115, 104) {
            if toks.len() >= 2 {
                match parse_u16(toks[1].as_slice()) {
                    Some(v) => {
                        return Ok(TracerCommand::Push(v));
                    },
                    None => {
                    },
                }
            }
            return Err(TracerError::UnknownCommand(trim(line)));
        }
        if tok3(t0, 112, 111, 112) {
            return Ok(TracerCommand::Pop);
        }
        if tok4(t0, 112, 111, 107, 101) {
            if toks.len() < 2 {
                return Err(TracerError::UnknownCommand(trim(line)));
            }
            let a = match self.ptr_or_label(&toks[1]) {
                Ok(a) => a,
                Err(e) => {
                    return Err(e);
                },
            };
            if toks.len() >= 3 {
                match parse_u16(toks[2].as_slice()) {
                    Some(v) => {
                        return Ok(TracerCommand::Poke(a, v));
                    },
                    None => {
                    },
                }
            }
            return Err(TracerError::UnknownCommand(trim(line)));
        }
        if tok1(t0, 116) || tok3(t0, 115, 101, 116) {
            if toks.len() < 2 {
                return Err(TracerError::UnknownCommand(trim(line)));
            }
            let rt = &toks[1];
            if !(rt.len() == 2 && rt[0] == 114 && rt[1] >= 48 && rt[1] <= 55) {
                return Err(TracerError::UnknownRegister(copy_bytes(rt)));
            }
            let reg = (rt[1] - 48) as usize;
            if toks.len() >= 3 {
                match parse_u16(toks[2].as_slice()) {
                    Some(v) => {
                        return Ok(TracerCommand::SetReg(reg, v));
                    },
                    None => {
                    },
                }
            }
            return Err(TracerError::UnknownCommand(trim(line)));
        }
        if tok1(t0, 97) || tok6(t0, 115, 116, 97, 116, 117, 115) {
            return Ok(TracerCommand::Status);
        }
        if tok1(t0, 109) || tok5(t0, 114, 101, 109, 97, 112) {
            return Ok(TracerCommand::Remap);
        }
        if tok1(t0, 104) || tok4(t0, 104, 101, 108, 112) {
            return Ok(TracerCommand::Help);
        }
        if tok1(t0, 113) || tok4(t0, 113, 117, 105, 116) {
            return Ok(TracerCommand::Quit);
        }
        Err(TracerError::UnknownCommand(trim(line)))
    }
}

} // verus!
