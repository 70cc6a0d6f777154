//! The disassembly engine: sweeps a word store from address zero into
//! instructions and opaque data, optionally inferring symbolic labels at
//! jump and call targets, and renders the result as text, one line per
//! swept item.

use vstd::prelude::*;

use crate::labels::{AddrSet, LabelMap};
use crate::numbers::{push_dec_u16, push_dec_usize, spec_dec_digits};
use crate::vm::{
    spec_decode, DstOperand, Error, Instruction, SrcOperand, MEM_WORDS, VALID_IO_MASK,
};
use crate::vm::lemma_decode_wf;

verus! {

/// What disassembly can fail with. Rendering into a byte buffer cannot
/// fail, so the machine's own errors are the only kind carried.
#[derive(Debug, Copy, Clone, PartialEq, Eq, Structural)]
pub enum DisAsmError {
    VmError(Error),
}

/// One swept item: a decoded instruction, or a word kept as opaque data.
#[derive(Debug, Copy, Clone, PartialEq, Eq, Structural)]
pub enum AsmItem {
    Instruction(Instruction),
    Value(u16),
}

/// How a sweep and its rendering behave: whether labels are inferred,
/// whether each line is prefixed with its address, and the seed labels.
pub struct DisAsmOpts {
    pub autolabel: bool,
    pub line_addrs: bool,
    pub initial_labels: Option<LabelMap>,
}

impl Default for DisAsmOpts {
    /// Labels are inferred, lines carry no addresses, nothing is seeded.
    fn default() -> (r: Self)
        ensures
            r.autolabel == true,
            r.line_addrs == false,
            r.initial_labels is None,
    {
        Self { autolabel: true, line_addrs: false, initial_labels: None }
    }
}

/// The sweep's working state: the items recorded so far, the label
/// table, the operand positions to render symbolically, and the number
/// fresh label names count from.
pub struct SweepState {
    pub stmts: Seq<(usize, AsmItem)>,
    pub labels: Map<usize, Seq<u8>>,
    pub origins: Set<usize>,
    pub next_label: usize,
}

/// The generated name for the `n`-th fresh jump target.
pub open spec fn spec_jump_label(n: usize) -> Seq<u8> {
    seq![108u8, 98u8, 108u8] + spec_dec_digits(n as nat)
}

/// The generated name for the `n`-th fresh call target.
pub open spec fn spec_call_label(n: usize) -> Seq<u8> {
    seq![102u8, 110u8] + spec_dec_digits(n as nat)
}

/// Give `target` a fresh name unless it already has one; a seeded or
/// earlier name is never overwritten, and the counter moves only when a
/// name was spent.
pub open spec fn spec_label_target(st: SweepState, target: usize, name: Seq<u8>) -> SweepState {
    if st.labels.contains_key(target) {
        st
    } else {
        SweepState {
            labels: st.labels.insert(target, name),
            next_label: (st.next_label + 1) as usize,
            ..st
        }
    }
}

/// The label bookkeeping one instruction adds: jump and call targets
/// given as literals get a name, and the operand's own address is marked
/// as a site to render symbolically.
pub open spec fn spec_add_labels(ip: usize, instr: Instruction, st: SweepState) -> SweepState {
    match instr {
        Instruction::Jmp(SrcOperand::Immediate(dst)) => {
            let st1 = spec_label_target(st, dst as usize, spec_jump_label(st.next_label));
            SweepState { origins: st1.origins.insert((ip + 1) as usize), ..st1 }
        },
        Instruction::Jt(_, SrcOperand::Immediate(dst)) => {
            let st1 = spec_label_target(st, dst as usize, spec_jump_label(st.next_label));
            SweepState { origins: st1.origins.insert((ip + 2) as usize), ..st1 }
        },
        Instruction::Jf(_, SrcOperand::Immediate(dst)) => {
            let st1 = spec_label_target(st, dst as usize, spec_jump_label(st.next_label));
            SweepState { origins: st1.origins.insert((ip + 2) as usize), ..st1 }
        },
        Instruction::Call(SrcOperand::Immediate(dst)) => {
            let st1 = spec_label_target(st, dst as usize, spec_call_label(st.next_label));
            SweepState { origins: st1.origins.insert((ip + 1) as usize), ..st1 }
        },
        _ => st,
    }
}

/// The greedy sweep from `ip`: decode where possible and advance by the
/// instruction's width, else record one opaque data word and advance by
/// one. The sweep never backtracks, so a single mis-synchronized word
/// can mis-classify what follows; that limitation is deliberate.
pub open spec fn spec_sweep(
    mem: Seq<u16>,
    ip: usize,
    st: SweepState,
    autolabel: bool,
) -> SweepState
    decreases mem.len() - ip,
    when mem.len() <= MEM_WORDS
    via spec_sweep_decreases
{
    if ip >= mem.len() {
        st
    } else {
        match spec_decode(mem, ip) {
            Ok((next, instr)) => {
                let st1 = SweepState {
                    stmts: st.stmts.push((ip, AsmItem::Instruction(instr))),
                    ..st
                };
                let st2 = if autolabel {
                    spec_add_labels(ip, instr, st1)
                } else {
                    st1
                };
                spec_sweep(mem, next, st2, autolabel)
            },
            Err(_) => {
                let st1 = SweepState {
                    stmts: st.stmts.push((ip, AsmItem::Value(mem[ip as int]))),
                    ..st
                };
                spec_sweep(mem, (ip + 1) as usize, st1, autolabel)
            },
        }
    }
}

#[via_fn]
proof fn spec_sweep_decreases(mem: Seq<u16>, ip: usize, st: SweepState, autolabel: bool) {
    if ip < mem.len() {
        match spec_decode(mem, ip) {
            Ok((next, instr)) => {
                lemma_decode_wf(mem, ip, next, instr);
            },
            Err(_) => {
            },
        }
    }
}

/// The structure the sweep recovers from a word store: the swept items
/// in address order, the label table, and the label-reference sites.
pub struct ImageMap {
    pub stmts: Vec<(usize, AsmItem)>,
    pub labels: LabelMap,
    pub origins: AddrSet,
}

impl ImageMap {
    /// Every swept address lies inside the word store.
    pub open spec fn wf(&self) -> bool {
        forall|j: int|
            0 <= j < self.stmts@.len() ==> (#[trigger] self.stmts@[j]).0 < MEM_WORDS
    }

    /// Sweep a word store from address zero, seeding the label table
    /// from the options and inferring fresh labels when asked to.
    pub fn new(memory: &[u16], opts: &DisAsmOpts) -> (r: ImageMap)
        requires
            memory@.len() <= MEM_WORDS,
        ensures
            r.wf(),
            ({
                let init = SweepState {
                    stmts: Seq::empty(),
                    labels: match opts.initial_labels {
                        Some(seed) => seed@,
                        None => Map::empty(),
                    },
                    origins: Set::empty(),
                    next_label: 0,
                };
                let fin = spec_sweep(memory@, 0, init, opts.autolabel);
                r.stmts@ == fin.stmts && r.labels@ == fin.labels && r.origins@ == fin.origins
            }),
    {
        let mut stmts: Vec<(usize, AsmItem)> = Vec::new();
        let mut labels: LabelMap = match &opts.initial_labels {
            Some(seed) => seed.duplicate(),
            None => LabelMap::new(),
        };
        let mut origins: AddrSet = AddrSet::new();
        let mut next_label: usize = 0;
        let mut ip: usize = 0;
        let ghost init = SweepState {
            stmts: stmts@,
            labels: labels@,
            origins: origins@,
            next_label: next_label,
        };
        proof {
            assert(spec_sweep(memory@, 0, init, opts.autolabel) == spec_sweep(
                memory@,
                ip,
                SweepState {
                    stmts: stmts@,
                    labels: labels@,
                    origins: origins@,
                    next_label: next_label,
                },
                opts.autolabel,
            ));
        }
        while ip < memory.len()
            invariant
                memory@.len() <= MEM_WORDS,
                next_label <= ip,
                forall|j: int| 0 <= j < stmts@.len() ==> (#[trigger] stmts@[j]).0 < MEM_WORDS,
                spec_sweep(memory@, 0, init, opts.autolabel) == spec_sweep(
                    memory@,
                    ip,
                    SweepState {
                        stmts: stmts@,
                        labels: labels@,
                        origins: origins@,
                        next_label: next_label,
                    },
                    opts.autolabel,
                ),
            decreases memory@.len() - ip,
        {
            match Instruction::decode(memory, ip) {
                Ok((new_ip, instr)) => {
                    proof {
                        lemma_decode_wf(memory@, ip, new_ip, instr);
                    }
                    stmts.push((ip, AsmItem::Instruction(instr)));
                    if opts.autolabel {
                        Self::add_labels(ip, &instr, &mut labels, &mut origins, &mut next_label);
                    }
                    ip = new_ip;
                },
                Err(_) => {
                    stmts.push((ip, AsmItem::Value(memory[ip])));
                    ip = ip + 1;
                },
            }
        }
        ImageMap { stmts, labels, origins }
    }

    /// The label bookkeeping for one decoded instruction, as the sweep
    /// specification states it.
    fn add_labels(
        ip: usize,
        instr: &Instruction,
        labels: &mut LabelMap,
        origins: &mut AddrSet,
        next_label: &mut usize,
    )
        requires
            ip < MEM_WORDS,
            *old(next_label) < MEM_WORDS,
        ensures
            ({
                let st = SweepState {
                    stmts: Seq::empty(),
                    labels: old(labels)@,
                    origins: old(origins)@,
                    next_label: *old(next_label),
                };
                let fin = spec_add_labels(ip, *instr, st);
                final(labels)@ == fin.labels && final(origins)@ == fin.origins
                    && *final(next_label) == fin.next_label
            }),
    {
        match *instr {
            Instruction::Jmp(SrcOperand::Immediate(dst)) => {
                Self::label_target(labels, next_label, dst as usize, false);
                origins.insert(ip + 1);
            },
            Instruction::Jt(_, SrcOperand::Immediate(dst)) => {
                Self::label_target(labels, next_label, dst as usize, false);
                origins.insert(ip + 2);
            },
            Instruction::Jf(_, SrcOperand::Immediate(dst)) => {
                Self::label_target(labels, next_label, dst as usize, false);
                origins.insert(ip + 2);
            },
            Instruction::Call(SrcOperand::Immediate(dst)) => {
                Self::label_target(labels, next_label, dst as usize, true);
                origins.insert(ip + 1);
            },
            _ => {
            },
        }
    }

    /// Give one jump or call target a fresh generated name if it has
    /// none yet.
    fn label_target(labels: &mut LabelMap, next_label: &mut usize, target: usize, call: bool)
        requires
            *old(next_label) < MEM_WORDS,
        ensures
            ({
                let name = if call {
                    spec_call_label(*old(next_label))
                } else {
                    spec_jump_label(*old(next_label))
                };
                if old(labels)@.contains_key(target) {
                    final(labels)@ == old(labels)@ && *final(next_label) == *old(next_label)
                } else {
                    final(labels)@ == old(labels)@.insert(target, name) && *final(next_label)
                        == *old(next_label) + 1
                }
            }),
    {
        match labels.get(target) {
            Some(_) => {
            },
            None => {
                let mut name: Vec<u8> = Vec::new();
                if call {
                    name.push(102);
                    name.push(110);
                } else {
                    name.push(108);
                    name.push(98);
                    name.push(108);
                }
                push_dec_usize(*next_label, &mut name);
                proof {
                    if call {
                        assert(name@ =~= spec_call_label(*old(next_label)));
                    } else {
                        assert(name@ =~= spec_jump_label(*old(next_label)));
                    }
                }
                labels.insert(target, name);
                *next_label = *next_label + 1;
            },
        }
    }
}


/// The separator between rendered operands.
pub open spec fn spec_comma() -> Seq<u8> {
    seq![44u8, 32u8]
}

/// The line terminator.
pub open spec fn spec_nl() -> Seq<u8> {
    seq![10u8]
}

/// How one word is rendered: as its label where this position is a
/// marked label-reference site and the value has a name, else as a
/// quoted printable character where it is a plain ASCII byte, else as a
/// decimal numeral.
pub open spec fn spec_render_word(
    w: u16,
    ip: usize,
    labels: Map<usize, Seq<u8>>,
    origins: Set<usize>,
) -> Seq<u8> {
    if origins.contains(ip) && labels.contains_key(w as usize) {
        labels[w as usize]
    } else if w & VALID_IO_MASK == 0 && 32 <= w && w <= 126 {
        seq![39u8, w as u8, 39u8]
    } else {
        spec_dec_digits(w as nat)
    }
}

/// A source operand's text: a word rendering, or `r` and the register
/// number.
pub open spec fn spec_render_src(
    op: SrcOperand,
    ip: usize,
    labels: Map<usize, Seq<u8>>,
    origins: Set<usize>,
) -> Seq<u8> {
    match op {
        SrcOperand::Immediate(w) => spec_render_word(w, ip, labels, origins),
        SrcOperand::Register(n) => seq![114u8] + spec_dec_digits(n as nat),
    }
}

/// A destination operand's text: `r` and the register number.
pub open spec fn spec_render_dst(op: DstOperand) -> Seq<u8> {
    match op {
        DstOperand::Register(n) => seq![114u8] + spec_dec_digits(n as nat),
    }
}

/// The instruction's mnemonic, with a trailing space where operands
/// follow.
pub open spec fn spec_mnemonic(i: Instruction) -> Seq<u8> {
    match i {
        Instruction::Halt => seq![104u8, 97u8, 108u8, 116u8],
        Instruction::SetReg(_, _) => seq![115u8, 101u8, 116u8, 32u8],
        Instruction::Push(_) => seq![112u8, 117u8, 115u8, 104u8, 32u8],
        Instruction::Pop(_) => seq![112u8, 111u8, 112u8, 32u8],
        Instruction::Eq(_, _, _) => seq![101u8, 113u8, 32u8],
        Instruction::Gt(_, _, _) => seq![103u8, 116u8, 32u8],
        Instruction::Jmp(_) => seq![106u8, 109u8, 112u8, 32u8],
        Instruction::Jt(_, _) => seq![106u8, 116u8, 32u8],
        Instruction::Jf(_, _) => seq![106u8, 102u8, 32u8],
        Instruction::Add(_, _, _) => seq![97u8, 100u8, 100u8, 32u8],
        Instruction::Mult(_, _, _) => seq![109u8, 117u8, 108u8, 116u8, 32u8],
        Instruction::Mod(_, _, _) => seq![109u8, 111u8, 100u8, 32u8],
        Instruction::And(_, _, _) => seq![97u8, 110u8, 100u8, 32u8],
        Instruction::Or(_, _, _) => seq![111u8, 114u8, 32u8],
        Instruction::Not(_, _) => seq![110u8, 111u8, 116u8, 32u8],
        Instruction::Rmem(_, _) => seq![114u8, 109u8, 101u8, 109u8, 32u8],
        Instruction::Wmem(_, _) => seq![119u8, 109u8, 101u8, 109u8, 32u8],
        Instruction::Call(_) => seq![99u8, 97u8, 108u8, 108u8, 32u8],
        Instruction::Ret => seq![114u8, 101u8, 116u8],
        Instruction::Out(_) => seq![111u8, 117u8, 116u8, 32u8],
        Instruction::In(_) => seq![105u8, 110u8, 32u8],
        Instruction::Noop => seq![110u8, 111u8, 111u8, 112u8],
    }
}

/// The operand part of an instruction's line: each operand rendered at
/// its own address, comma-separated, ending the line.
pub open spec fn spec_operands(
    i: Instruction,
    ip: usize,
    labels: Map<usize, Seq<u8>>,
    origins: Set<usize>,
) -> Seq<u8> {
    let a1 = (ip + 1) as usize;
    let a2 = (ip + 2) as usize;
    let a3 = (ip + 3) as usize;
    match i {
        Instruction::Halt => spec_nl(),
        Instruction::SetReg(d, s) => spec_render_dst(d) + spec_comma() + spec_render_src(
            s,
            a2,
            labels,
            origins,
        ) + spec_nl(),
        Instruction::Push(s) => spec_render_src(s, a1, labels, origins) + spec_nl(),
        Instruction::Pop(d) => spec_render_dst(d) + spec_nl(),
        Instruction::Eq(d, s1, s2) => spec_render_dst(d) + spec_comma() + spec_render_src(
            s1,
            a2,
            labels,
            origins,
        ) + spec_comma() + spec_render_src(s2, a3, labels, origins) + spec_nl(),
        Instruction::Gt(d, s1, s2) => spec_render_dst(d) + spec_comma() + spec_render_src(
            s1,
            a2,
            labels,
            origins,
        ) + spec_comma() + spec_render_src(s2, a3, labels, origins) + spec_nl(),
        Instruction::Jmp(s) => spec_render_src(s, a1, labels, origins) + spec_nl(),
        Instruction::Jt(c, t) => spec_render_src(c, a1, labels, origins) + spec_comma()
            + spec_render_src(t, a2, labels, origins) + spec_nl(),
        Instruction::Jf(c, t) => spec_render_src(c, a1, labels, origins) + spec_comma()
            + spec_render_src(t, a2, labels, origins) + spec_nl(),
        Instruction::Add(d, s1, s2) => spec_render_dst(d) + spec_comma() + spec_render_src(
            s1,
            a2,
            labels,
            origins,
        ) + spec_comma() + spec_render_src(s2, a3, labels, origins) + spec_nl(),
        Instruction::Mult(d, s1, s2) => spec_render_dst(d) + spec_comma() + spec_render_src(
            s1,
            a2,
            labels,
            origins,
        ) + spec_comma() + spec_render_src(s2, a3, labels, origins) + spec_nl(),
        Instruction::Mod(d, s1, s2) => spec_render_dst(d) + spec_comma() + spec_render_src(
            s1,
            a2,
            labels,
            origins,
        ) + spec_comma() + spec_render_src(s2, a3, labels, origins) + spec_nl(),
        Instruction::And(d, s1, s2) => spec_render_dst(d) + spec_comma() + spec_render_src(
            s1,
            a2,
            labels,
            origins,
        ) + spec_comma() + spec_render_src(s2, a3, labels, origins) + spec_nl(),
        Instruction::Or(d, s1, s2) => spec_render_dst(d) + spec_comma() + spec_render_src(
            s1,
            a2,
            labels,
            origins,
        ) + spec_comma() + spec_render_src(s2, a3, labels, origins) + spec_nl(),
        Instruction::Not(d, s) => spec_render_dst(d) + spec_comma() + spec_render_src(
            s,
            a2,
            labels,
            origins,
        ) + spec_nl(),
        Instruction::Rmem(d, s) => spec_render_dst(d) + spec_comma() + spec_render_src(
            s,
            a2,
            labels,
            origins,
        ) + spec_nl(),
        Instruction::Wmem(s1, s2) => spec_render_src(s1, a1, labels, origins) + spec_comma()
            + spec_render_src(s2, a2, labels, origins) + spec_nl(),
        Instruction::Call(s) => spec_render_src(s, a1, labels, origins) + spec_nl(),
        Instruction::Ret => spec_nl(),
        Instruction::Out(s) => spec_render_src(s, a1, labels, origins) + spec_nl(),
        Instruction::In(d) => spec_render_dst(d) + spec_nl(),
        Instruction::Noop => spec_nl(),
    }
}

/// One instruction's full line, without the label prefix.
pub open spec fn spec_render_instr(
    i: Instruction,
    ip: usize,
    labels: Map<usize, Seq<u8>>,
    origins: Set<usize>,
) -> Seq<u8> {
    spec_mnemonic(i) + spec_operands(i, ip, labels, origins)
}

/// One swept item's line: a `label: ` prefix where the address has a
/// name, then the instruction's text or the opaque word's rendering.
pub open spec fn spec_render_item(
    item: AsmItem,
    ip: usize,
    labels: Map<usize, Seq<u8>>,
    origins: Set<usize>,
) -> Seq<u8> {
    let prefix = if labels.contains_key(ip) {
        labels[ip] + seq![58u8, 32u8]
    } else {
        Seq::<u8>::empty()
    };
    match item {
        AsmItem::Instruction(i) => prefix + spec_render_instr(i, ip, labels, origins),
        AsmItem::Value(w) => prefix + spec_render_word(w, ip, labels, origins) + spec_nl(),
    }
}

/// One output line: the optional address prefix, then the item.
pub open spec fn spec_render_line(
    stmt: (usize, AsmItem),
    labels: Map<usize, Seq<u8>>,
    origins: Set<usize>,
    line_addrs: bool,
) -> Seq<u8> {
    let prefix = if line_addrs {
        spec_dec_digits(stmt.0 as nat) + seq![9u8]
    } else {
        Seq::<u8>::empty()
    };
    prefix + spec_render_item(stmt.1, stmt.0, labels, origins)
}

/// The whole rendering: one line per swept item, in address order.
pub open spec fn spec_render_stmts(
    stmts: Seq<(usize, AsmItem)>,
    labels: Map<usize, Seq<u8>>,
    origins: Set<usize>,
    line_addrs: bool,
) -> Seq<u8>
    decreases stmts.len(),
{
    if stmts.len() == 0 {
        Seq::empty()
    } else {
        spec_render_stmts(stmts.drop_last(), labels, origins, line_addrs) + spec_render_line(
            stmts.last(),
            labels,
            origins,
            line_addrs,
        )
    }
}

/// Append the bytes of `src`.
fn append_bytes(out: &mut Vec<u8>, src: &Vec<u8>)
    ensures
        final(out)@ == old(out)@ + src@,
{
    let mut k: usize = 0;
    while k < src.len()
        invariant
            k <= src@.len(),
            out@ == old(out)@ + src@.take(k as int),
        decreases src@.len() - k,
    {
        out.push(src[k]);
        proof {
            assert(old(out)@ + src@.take(k + 1) =~= (old(out)@ + src@.take(k as int)).push(
                src@[k as int],
            ));
        }
        k = k + 1;
    }
    proof {
        assert(src@.take(src@.len() as int) =~= src@);
    }
}

/// Append one word's rendering.
fn render_word(w: u16, ip: usize, map: &ImageMap, out: &mut Vec<u8>)
    ensures
        final(out)@ == old(out)@ + spec_render_word(w, ip, map.labels@, map.origins@),
{
    if map.origins.contains(ip) {
        match map.labels.get(w as usize) {
            Some(lbl) => {
                append_bytes(out, lbl);
                return ;
            },
            None => {
            },
        }
    }
    if w & VALID_IO_MASK == 0 && w >= 32 && w <= 126 {
        out.push(39);
        out.push(w as u8);
        out.push(39);
        proof {
            assert(final(out)@ =~= old(out)@ + spec_render_word(
                w,
                ip,
                map.labels@,
                map.origins@,
            ));
        }
        return ;
    }
    push_dec_u16(w, out);
}

/// Append one destination operand's rendering.
fn render_dst_op(op: &DstOperand, out: &mut Vec<u8>)
    ensures
        final(out)@ == old(out)@ + spec_render_dst(*op),
{
    match *op {
        DstOperand::Register(n) => {
            out.push(114);
            push_dec_usize(n, out);
            proof {
                assert(final(out)@ =~= old(out)@ + spec_render_dst(*op));
            }
        },
    }
}

/// Append one source operand's rendering.
fn render_src_op(op: &SrcOperand, ip: usize, map: &ImageMap, out: &mut Vec<u8>)
    ensures
        final(out)@ == old(out)@ + spec_render_src(*op, ip, map.labels@, map.origins@),
{
    match *op {
        SrcOperand::Immediate(w) => {
            render_word(w, ip, map, out);
        },
        SrcOperand::Register(n) => {
            out.push(114);
            push_dec_usize(n, out);
            proof {
                assert(final(out)@ =~= old(out)@ + spec_render_src(
                    *op,
                    ip,
                    map.labels@,
                    map.origins@,
                ));
            }
        },
    }
}

/// Append the mnemonic.
fn push_mnemonic(i: &Instruction, out: &mut Vec<u8>)
    ensures
        final(out)@ == old(out)@ + spec_mnemonic(*i),
{
    match *i {
        Instruction::Halt => {
            out.push(104);
            out.push(97);
            out.push(108);
            out.push(116);
        },
        Instruction::SetReg(_, _) => {
            out.push(115);
            out.push(101);
            out.push(116);
            out.push(32);
        },
        Instruction::Push(_) => {
            out.push(112);
            out.push(117);
            out.push(115);
            out.push(104);
            out.push(32);
        },
        Instruction::Pop(_) => {
            out.push(112);
            out.push(111);
            out.push(112);
            out.push(32);
        },
        Instruction::Eq(_, _, _) => {
            out.push(101);
            out.push(113);
            out.push(32);
        },
        Instruction::Gt(_, _, _) => {
            out.push(103);
            out.push(116);
            out.push(32);
        },
        Instruction::Jmp(_) => {
            out.push(106);
            out.push(109);
            out.push(112);
            out.push(32);
        },
        Instruction::Jt(_, _) => {
            out.push(106);
            out.push(116);
            out.push(32);
        },
        Instruction::Jf(_, _) => {
            out.push(106);
            out.push(102);
            out.push(32);
        },
        Instruction::Add(_, _, _) => {
            out.push(97);
            out.push(100);
            out.push(100);
            out.push(32);
        },
        Instruction::Mult(_, _, _) => {
            out.push(109);
            out.push(117);
            out.push(108);
            out.push(116);
            out.push(32);
        },
        Instruction::Mod(_, _, _) => {
            out.push(109);
            out.push(111);
            out.push(100);
            out.push(32);
        },
        Instruction::And(_, _, _) => {
            out.push(97);
            out.push(110);
            out.push(100);
            out.push(32);
        },
        Instruction::Or(_, _, _) => {
            out.push(111);
            out.push(114);
            out.push(32);
        },
        Instruction::Not(_, _) => {
            out.push(110);
            out.push(111);
            out.push(116);
            out.push(32);
        },
        Instruction::Rmem(_, _) => {
            out.push(114);
            out.push(109);
            out.push(101);
            out.push(109);
            out.push(32);
        },
        Instruction::Wmem(_, _) => {
            out.push(119);
            out.push(109);
            out.push(101);
            out.push(109);
            out.push(32);
        },
        Instruction::Call(_) => {
            out.push(99);
            out.push(97);
            out.push(108);
            out.push(108);
            out.push(32);
        },
        Instruction::Ret => {
            out.push(114);
            out.push(101);
            out.push(116);
        },
        Instruction::Out(_) => {
            out.push(111);
            out.push(117);
            out.push(116);
            out.push(32);
        },
        Instruction::In(_) => {
            out.push(105);
            out.push(110);
            out.push(32);
        },
        Instruction::Noop => {
            out.push(110);
            out.push(111);
            out.push(111);
            out.push(112);
        },
    }
    proof {
        assert(final(out)@ =~= old(out)@ + spec_mnemonic(*i));
    }
}

/// Append the operand separator.
fn push_comma(out: &mut Vec<u8>)
    ensures
        final(out)@ == old(out)@ + spec_comma(),
{
    out.push(44);
    out.push(32);
    proof {
        assert(final(out)@ =~= old(out)@ + spec_comma());
    }
}

/// Append one instruction's full line, without the label prefix.
#[verifier::rlimit(100)]
#[verifier::spinoff_prover]
fn render_instr(i: &Instruction, ip: usize, map: &ImageMap, out: &mut Vec<u8>)
    requires
        ip < MEM_WORDS,
    ensures
        final(out)@ == old(out)@ + spec_render_instr(*i, ip, map.labels@, map.origins@),
{
    push_mnemonic(i, out);
    match *i {
        Instruction::Halt => {
            out.push(10);
        },
        Instruction::SetReg(d, s) => {
            render_dst_op(&d, out);
            push_comma(out);
            render_src_op(&s, ip + 2, map, out);
            out.push(10);
        },
        Instruction::Push(s) => {
            render_src_op(&s, ip + 1, map, out);
            out.push(10);
        },
        Instruction::Pop(d) => {
            render_dst_op(&d, out);
            out.push(10);
        },
        Instruction::Eq(d, s1, s2) => {
            render_dst_op(&d, out);
            push_comma(out);
            render_src_op(&s1, ip + 2, map, out);
            push_comma(out);
            render_src_op(&s2, ip + 3, map, out);
            out.push(10);
        },
        Instruction::Gt(d, s1, s2) => {
            render_dst_op(&d, out);
            push_comma(out);
            render_src_op(&s1, ip + 2, map, out);
            push_comma(out);
            render_src_op(&s2, ip + 3, map, out);
            out.push(10);
        },
        Instruction::Jmp(s) => {
            render_src_op(&s, ip + 1, map, out);
            out.push(10);
        },
        Instruction::Jt(c, t) => {
            render_src_op(&c, ip + 1, map, out);
            push_comma(out);
            render_src_op(&t, ip + 2, map, out);
            out.push(10);
        },
        Instruction::Jf(c, t) => {
            render_src_op(&c, ip + 1, map, out);
            push_comma(out);
            render_src_op(&t, ip + 2, map, out);
            out.push(10);
        },
        Instruction::Add(d, s1, s2) => {
            render_dst_op(&d, out);
            push_comma(out);
            render_src_op(&s1, ip + 2, map, out);
            push_comma(out);
            render_src_op(&s2, ip + 3, map, out);
            out.push(10);
        },
        Instruction::Mult(d, s1, s2) => {
            render_dst_op(&d, out);
            push_comma(out);
            render_src_op(&s1, ip + 2, map, out);
            push_comma(out);
            render_src_op(&s2, ip + 3, map, out);
            out.push(10);
        },
        Instruction::Mod(d, s1, s2) => {
            render_dst_op(&d, out);
            push_comma(out);
            render_src_op(&s1, ip + 2, map, out);
            push_comma(out);
            render_src_op(&s2, ip + 3, map, out);
            out.push(10);
        },
        Instruction::And(d, s1, s2) => {
            render_dst_op(&d, out);
            push_comma(out);
            render_src_op(&s1, ip + 2, map, out);
            push_comma(out);
            render_src_op(&s2, ip + 3, map, out);
            out.push(10);
        },
        Instruction::Or(d, s1, s2) => {
            render_dst_op(&d, out);
            push_comma(out);
            render_src_op(&s1, ip + 2, map, out);
            push_comma(out);
            render_src_op(&s2, ip + 3, map, out);
            out.push(10);
        },
        Instruction::Not(d, s) => {
            render_dst_op(&d, out);
            push_comma(out);
            render_src_op(&s, ip + 2, map, out);
            out.push(10);
        },
        Instruction::Rmem(d, s) => {
            render_dst_op(&d, out);
            push_comma(out);
            render_src_op(&s, ip + 2, map, out);
            out.push(10);
        },
        Instruction::Wmem(s1, s2) => {
            render_src_op(&s1, ip + 1, map, out);
            push_comma(out);
            render_src_op(&s2, ip + 2, map, out);
            out.push(10);
        },
        Instruction::Call(s) => {
            render_src_op(&s, ip + 1, map, out);
            out.push(10);
        },
        Instruction::Ret => {
            out.push(10);
        },
        Instruction::Out(s) => {
            render_src_op(&s, ip + 1, map, out);
            out.push(10);
        },
        Instruction::In(d) => {
            render_dst_op(&d, out);
            out.push(10);
        },
        Instruction::Noop => {
            out.push(10);
        },
    }
    proof {
        assert(final(out)@ =~= old(out)@ + spec_render_instr(*i, ip, map.labels@, map.origins@));
    }
}

/// Append one swept item's line, with its label prefix where one is
/// defined.
fn render_item(item: &AsmItem, ip: usize, map: &ImageMap, out: &mut Vec<u8>)
    requires
        ip < MEM_WORDS,
    ensures
        final(out)@ == old(out)@ + spec_render_item(*item, ip, map.labels@, map.origins@),
{
    match map.labels.get(ip) {
        Some(lbl) => {
            append_bytes(out, lbl);
            out.push(58);
            out.push(32);
        },
        None => {
        },
    }
    match *item {
        AsmItem::Instruction(i) => {
            render_instr(&i, ip, map, out);
        },
        AsmItem::Value(w) => {
            render_word(w, ip, map, out);
            out.push(10);
        },
    }
    proof {
        assert(final(out)@ =~= old(out)@ + spec_render_item(*item, ip, map.labels@, map.origins@));
    }
}

/// Anything the sweep recovered can render itself at its address.
pub trait DisAsm {
    /// The exact text the rendering appends, as a function of the
    /// place, the label table and the label-reference sites.
    spec fn spec_render(&self, ip: usize, labels: Map<usize, Seq<u8>>, origins: Set<usize>) -> Seq<
        u8,
    >;

    /// Append the rendering to `out`.
    fn disasm(&self, ip: usize, map: &ImageMap, out: &mut Vec<u8>) -> (r: Result<(), DisAsmError>)
        requires
            ip < MEM_WORDS,
        ensures
            r is Ok,
            final(out)@ == old(out)@ + self.spec_render(ip, map.labels@, map.origins@),
    ;
}

impl DisAsm for Instruction {
    open spec fn spec_render(&self, ip: usize, labels: Map<usize, Seq<u8>>, origins: Set<usize>) -> Seq<
        u8,
    > {
        spec_render_instr(*self, ip, labels, origins)
    }

    fn disasm(&self, ip: usize, map: &ImageMap, out: &mut Vec<u8>) -> (r: Result<(), DisAsmError>)
    {
        render_instr(self, ip, map, out);
        Ok(())
    }
}

impl DisAsm for SrcOperand {
    open spec fn spec_render(&self, ip: usize, labels: Map<usize, Seq<u8>>, origins: Set<usize>) -> Seq<
        u8,
    > {
        spec_render_src(*self, ip, labels, origins)
    }

    fn disasm(&self, ip: usize, map: &ImageMap, out: &mut Vec<u8>) -> (r: Result<(), DisAsmError>)
    {
        render_src_op(self, ip, map, out);
        Ok(())
    }
}

impl DisAsm for DstOperand {
    open spec fn spec_render(&self, ip: usize, labels: Map<usize, Seq<u8>>, origins: Set<usize>) -> Seq<
        u8,
    > {
        spec_render_dst(*self)
    }

    fn disasm(&self, ip: usize, map: &ImageMap, out: &mut Vec<u8>) -> (r: Result<(), DisAsmError>)
    {
        render_dst_op(self, out);
        Ok(())
    }
}

impl DisAsm for AsmItem {
    open spec fn spec_render(&self, ip: usize, labels: Map<usize, Seq<u8>>, origins: Set<usize>) -> Seq<
        u8,
    > {
        spec_render_item(*self, ip, labels, origins)
    }

    fn disasm(&self, ip: usize, map: &ImageMap, out: &mut Vec<u8>) -> (r: Result<(), DisAsmError>)
    {
        render_item(self, ip, map, out);
        Ok(())
    }
}

impl DisAsm for u16 {
    open spec fn spec_render(&self, ip: usize, labels: Map<usize, Seq<u8>>, origins: Set<usize>) -> Seq<
        u8,
    > {
        spec_render_word(*self, ip, labels, origins)
    }

    fn disasm(&self, ip: usize, map: &ImageMap, out: &mut Vec<u8>) -> (r: Result<(), DisAsmError>)
    {
        render_word(*self, ip, map, out);
        Ok(())
    }
}

impl ImageMap {
    /// Render the whole map, one line per swept item, optionally with
    /// each line's address in front.
    pub fn disasm(&self, out: &mut Vec<u8>, opts: &DisAsmOpts) -> (r: Result<(), DisAsmError>)
        requires
            self.wf(),
        ensures
            r is Ok,
            final(out)@ == old(out)@ + spec_render_stmts(
                self.stmts@,
                self.labels@,
                self.origins@,
                opts.line_addrs,
            ),
    {
        let mut i: usize = 0;
        while i < self.stmts.len()
            invariant
                self.wf(),
                i <= self.stmts@.len(),
                out@ == old(out)@ + spec_render_stmts(
                    self.stmts@.take(i as int),
                    self.labels@,
                    self.origins@,
                    opts.line_addrs,
                ),
            decreases self.stmts@.len() - i,
        {
            proof {
                assert(self.stmts@.take(i + 1).drop_last() =~= self.stmts@.take(i as int));
                assert(self.stmts@.take(i + 1).last() == self.stmts@[i as int]);
            }
            let (ip, item) = self.stmts[i];
            if opts.line_addrs {
                push_dec_usize(ip, out);
                out.push(9);
            }
            render_item(&item, ip, self, out);
            proof {
                assert(out@ =~= old(out)@ + spec_render_stmts(
                    self.stmts@.take(i + 1),
                    self.labels@,
                    self.origins@,
                    opts.line_addrs,
                ));
            }
            i = i + 1;
        }
        proof {
            assert(self.stmts@.take(self.stmts@.len() as int) =~= self.stmts@);
        }
        Ok(())
    }
}

} // verus!
