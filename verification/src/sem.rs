//! The mathematical model of the machine: its register state, the meaning of
//! one instruction as a transition on that state, and the meaning of a whole
//! run as iterated transitions. The executable machine is specified against
//! these functions, and the laws at the end of this module are proved of them.

use vstd::prelude::*;

use crate::instr::{class_of, Instruction, CLASS_JMP, JMP, LDH, LDHI, LDI, LDW, LDWI, RETA, RETK};

verus! {

/// Number of scratch-memory slots in a machine.
pub const SCRATCH_MEM_SLOTS: usize = 16;

/// The register file of a machine: frame pointer, accumulator, index
/// register, and the scratch-memory slots.
#[verifier::ext_equal]
pub struct MState {
    /// The frame pointer: index of the next instruction to fetch.
    pub frame: u32,
    /// The accumulator.
    pub acc: u32,
    /// The index register.
    pub index: u32,
    /// The scratch-memory slots.
    pub mem: Seq<u32>,
}

/// The state of a freshly constructed (or reset) machine: every register and
/// every scratch slot is zero.
pub open spec fn zeroed() -> MState {
    MState {
        frame: 0,
        acc: 0,
        index: 0,
        mem: Seq::new(SCRATCH_MEM_SLOTS as nat, |i: int| 0u32),
    }
}

/// A word read at `off` lies wholly inside the packet.
pub open spec fn word_in_bounds(pkt: Seq<u8>, off: int) -> bool {
    0 <= off && off + 4 <= pkt.len()
}

/// A half-word read at `off` lies wholly inside the packet.
pub open spec fn half_in_bounds(pkt: Seq<u8>, off: int) -> bool {
    0 <= off && off + 2 <= pkt.len()
}

/// The big-endian 32-bit word formed by the four packet bytes at `off`.
pub open spec fn be_word(pkt: Seq<u8>, off: int) -> u32
    recommends
        word_in_bounds(pkt, off),
{
    (pkt[off] * 0x1000000 + pkt[off + 1] * 0x10000 + pkt[off + 2] * 0x100 + pkt[off + 3]) as u32
}

/// The big-endian 16-bit half-word formed by the two packet bytes at `off`,
/// zero-extended to 32 bits.
pub open spec fn be_half(pkt: Seq<u8>, off: int) -> u32
    recommends
        half_in_bounds(pkt, off),
{
    (pkt[off] * 0x100 + pkt[off + 1]) as u32
}

/// The outcome of executing one instruction.
pub enum StepOutcome {
    /// The instruction faulted; the machine is unchanged.
    Fault,
    /// The instruction succeeded without a verdict; the machine continues in
    /// the given state.
    Step(MState),
    /// The instruction terminated the run in the given state with a verdict.
    Done(MState, u32),
}

/// How far the frame pointer advances after a successful instruction: a
/// jump-class instruction advances by `jt` or `jf` according to the implicit
/// zero-test of the accumulator; every other class advances by one.
pub open spec fn displacement_of(acc: u32, i: Instruction) -> u32 {
    if class_of(i.opcode) == CLASS_JMP {
        if acc == 0 {
            i.jt as u32
        } else {
            i.jf as u32
        }
    } else {
        1
    }
}

/// The machine may advance its frame without overflowing the frame register,
/// whatever displacement an instruction carries.
pub open spec fn frame_in_range(m: MState) -> bool {
    m.frame + 255 <= u32::MAX
}

/// The state after a successful instruction: the accumulator takes the
/// instruction's result and the frame advances by its displacement.
pub open spec fn advanced(m: MState, i: Instruction, acc: u32) -> MState
    recommends
        frame_in_range(m),
{
    MState {
        frame: (m.frame + displacement_of(acc, i)) as u32,
        acc: acc,
        index: m.index,
        mem: m.mem,
    }
}

/// The opcodes the machine recognizes.
pub open spec fn recognized(opcode: u16) -> bool {
    opcode == LDI || opcode == LDW || opcode == LDH || opcode == LDWI || opcode == LDHI
        || opcode == JMP || opcode == RETK || opcode == RETA
}

/// The opcodes that read packet bytes.
pub open spec fn is_packet_load(opcode: u16) -> bool {
    opcode == LDW || opcode == LDH || opcode == LDWI || opcode == LDHI
}

/// The packet read of a packet-load instruction stays inside the packet: the
/// effective offset does not overflow the address register, and the full
/// width of the read lies within the buffer.
pub open spec fn load_in_bounds(m: MState, i: Instruction, pkt: Seq<u8>) -> bool
    recommends
        is_packet_load(i.opcode),
{
    if i.opcode == LDW {
        word_in_bounds(pkt, i.k as int)
    } else if i.opcode == LDH {
        half_in_bounds(pkt, i.k as int)
    } else if i.opcode == LDWI {
        m.index + i.k <= u32::MAX && word_in_bounds(pkt, m.index + i.k)
    } else {
        m.index + i.k <= u32::MAX && half_in_bounds(pkt, m.index + i.k)
    }
}

/// The meaning of one instruction: how it transforms the machine state, read
/// against the packet. An unrecognized opcode, a packet read that leaves the
/// buffer, and an indexed offset that overflows the address register all
/// fault, leaving the state unchanged.
pub open spec fn step(m: MState, i: Instruction, pkt: Seq<u8>) -> StepOutcome
    recommends
        frame_in_range(m),
{
    if i.opcode == LDI {
        StepOutcome::Step(advanced(m, i, i.k))
    } else if i.opcode == LDW {
        if word_in_bounds(pkt, i.k as int) {
            StepOutcome::Step(advanced(m, i, be_word(pkt, i.k as int)))
        } else {
            StepOutcome::Fault
        }
    } else if i.opcode == LDH {
        if half_in_bounds(pkt, i.k as int) {
            StepOutcome::Step(advanced(m, i, be_half(pkt, i.k as int)))
        } else {
            StepOutcome::Fault
        }
    } else if i.opcode == LDWI {
        if m.index + i.k <= u32::MAX && word_in_bounds(pkt, m.index + i.k) {
            StepOutcome::Step(advanced(m, i, be_word(pkt, m.index + i.k)))
        } else {
            StepOutcome::Fault
        }
    } else if i.opcode == LDHI {
        if m.index + i.k <= u32::MAX && half_in_bounds(pkt, m.index + i.k) {
            StepOutcome::Step(advanced(m, i, be_half(pkt, m.index + i.k)))
        } else {
            StepOutcome::Fault
        }
    } else if i.opcode == JMP {
        StepOutcome::Step(advanced(m, i, m.acc))
    } else if i.opcode == RETK {
        StepOutcome::Done(advanced(m, i, m.acc), i.k)
    } else if i.opcode == RETA {
        StepOutcome::Done(advanced(m, i, m.acc), m.acc)
    } else {
        StepOutcome::Fault
    }
}

/// The state after `n` continuing steps of the fetch-execute loop from `m`,
/// or `None` if the loop stopped earlier (by fault, by verdict, or by an
/// out-of-bounds fetch).
pub open spec fn after_steps(m: MState, prog: Seq<Instruction>, pkt: Seq<u8>, n: nat) -> Option<
    MState,
>
    decreases n,
{
    if n == 0 {
        Some(m)
    } else {
        match after_steps(m, prog, pkt, (n - 1) as nat) {
            Some(m1) => {
                if m1.frame < prog.len() {
                    match step(m1, prog[m1.frame as int], pkt) {
                        StepOutcome::Step(m2) => Some(m2),
                        _ => None,
                    }
                } else {
                    None
                }
            },
            None => None,
        }
    }
}

/// A run from `m0` reaches, after some number of continuing steps, a state
/// whose next instruction terminates it in state `mf` with verdict `v`.
pub open spec fn run_yields(
    m0: MState,
    prog: Seq<Instruction>,
    pkt: Seq<u8>,
    mf: MState,
    v: u32,
) -> bool {
    exists|n: nat, m1: MState|
        after_steps(m0, prog, pkt, n) == Some(m1) && m1.frame < prog.len() && step(
            m1,
            prog[m1.frame as int],
            pkt,
        ) == StepOutcome::Done(mf, v)
}

/// A run from `m0` reaches, after some number of continuing steps, the state
/// `mf` at which it fails: either the frame indexes past the end of the
/// program, or the fetched instruction faults.
pub open spec fn run_faulted(m0: MState, prog: Seq<Instruction>, pkt: Seq<u8>, mf: MState) -> bool {
    exists|n: nat|
        after_steps(m0, prog, pkt, n) == Some(mf) && (mf.frame >= prog.len() || step(
            mf,
            prog[mf.frame as int],
            pkt,
        ) == StepOutcome::Fault)
}

/// The largest number of instructions one run will execute before it gives
/// up: a crafted program can cycle its jumps forever, so the run loop caps
/// its steps to guarantee termination against untrusted programs.
pub const MAX_RUN_STEPS: u64 = 0x1_0000_0000;

/// A run from `m0` was still going, in state `mf`, when the step budget ran
/// out.
pub open spec fn run_exhausted(m0: MState, prog: Seq<Instruction>, pkt: Seq<u8>, mf: MState) -> bool {
    after_steps(m0, prog, pkt, MAX_RUN_STEPS as nat) == Some(mf)
}

/// The fetch-execute loop stops after the state reached by `n` continuing
/// steps: the frame indexes past the program, or the next instruction does
/// not continue (it faults or yields a verdict).
pub open spec fn stops_at(m0: MState, prog: Seq<Instruction>, pkt: Seq<u8>, n: nat) -> bool {
    match after_steps(m0, prog, pkt, n) {
        Some(m1) => m1.frame >= prog.len() || !(step(m1, prog[m1.frame as int], pkt) is Step),
        None => false,
    }
}

/// Helper: once the fetch-execute loop has stopped, it stays stopped.
proof fn lemma_after_steps_none_stays(
    m0: MState,
    prog: Seq<Instruction>,
    pkt: Seq<u8>,
    n: nat,
    k: nat,
)
    requires
        after_steps(m0, prog, pkt, n) is None,
        n <= k,
    ensures
        after_steps(m0, prog, pkt, k) is None,
    decreases k,
{
    if n < k {
        lemma_after_steps_none_stays(m0, prog, pkt, n, (k - 1) as nat);
    }
}

/// Law: the run is a deterministic sequence of states — past a step at which
/// it stops, no later state exists.
pub proof fn lemma_stop_is_final(
    m0: MState,
    prog: Seq<Instruction>,
    pkt: Seq<u8>,
    n: nat,
    k: nat,
)
    requires
        stops_at(m0, prog, pkt, n),
        n < k,
    ensures
        after_steps(m0, prog, pkt, k) is None,
{
    assert(after_steps(m0, prog, pkt, n + 1) is None);
    lemma_after_steps_none_stays(m0, prog, pkt, n + 1, k);
}

/// Law: a run has at most one verdict — if a run from `m0` can terminate in
/// state `mf1` with verdict `v1` and in state `mf2` with verdict `v2`, the
/// two are the same termination.
pub proof fn lemma_verdict_unique(
    m0: MState,
    prog: Seq<Instruction>,
    pkt: Seq<u8>,
    mf1: MState,
    v1: u32,
    mf2: MState,
    v2: u32,
)
    requires
        run_yields(m0, prog, pkt, mf1, v1),
        run_yields(m0, prog, pkt, mf2, v2),
    ensures
        mf1 == mf2,
        v1 == v2,
{
    let (n1, m1) = choose|n: nat, m: MState|
        after_steps(m0, prog, pkt, n) == Some(m) && m.frame < prog.len() && step(
            m,
            prog[m.frame as int],
            pkt,
        ) == StepOutcome::Done(mf1, v1);
    let (n2, m2) = choose|n: nat, m: MState|
        after_steps(m0, prog, pkt, n) == Some(m) && m.frame < prog.len() && step(
            m,
            prog[m.frame as int],
            pkt,
        ) == StepOutcome::Done(mf2, v2);
    if n1 < n2 {
        lemma_stop_is_final(m0, prog, pkt, n1, n2);
    } else if n2 < n1 {
        lemma_stop_is_final(m0, prog, pkt, n2, n1);
    }
}

/// Law: a run that can terminate with a verdict cannot also fail — the fault
/// predicate holds of no state.
pub proof fn lemma_verdict_excludes_fault(
    m0: MState,
    prog: Seq<Instruction>,
    pkt: Seq<u8>,
    mf1: MState,
    v1: u32,
    mf2: MState,
)
    requires
        run_yields(m0, prog, pkt, mf1, v1),
    ensures
        !run_faulted(m0, prog, pkt, mf2),
{
    if run_faulted(m0, prog, pkt, mf2) {
        let (n1, m1) = choose|n: nat, m: MState|
            after_steps(m0, prog, pkt, n) == Some(m) && m.frame < prog.len() && step(
                m,
                prog[m.frame as int],
                pkt,
            ) == StepOutcome::Done(mf1, v1);
        let n2 = choose|n: nat|
            after_steps(m0, prog, pkt, n) == Some(mf2) && (mf2.frame >= prog.len() || step(
                mf2,
                prog[mf2.frame as int],
                pkt,
            ) == StepOutcome::Fault);
        if n1 < n2 {
            lemma_stop_is_final(m0, prog, pkt, n1, n2);
        } else if n2 < n1 {
            lemma_stop_is_final(m0, prog, pkt, n2, n1);
        }
    }
}

/// Law: a run fails in at most one state — if a run from `m0` can fail in
/// state `mf1` and in state `mf2`, the two are the same failure.
pub proof fn lemma_fault_state_unique(
    m0: MState,
    prog: Seq<Instruction>,
    pkt: Seq<u8>,
    mf1: MState,
    mf2: MState,
)
    requires
        run_faulted(m0, prog, pkt, mf1),
        run_faulted(m0, prog, pkt, mf2),
    ensures
        mf1 == mf2,
{
    let n1 = choose|n: nat|
        after_steps(m0, prog, pkt, n) == Some(mf1) && (mf1.frame >= prog.len() || step(
            mf1,
            prog[mf1.frame as int],
            pkt,
        ) == StepOutcome::Fault);
    let n2 = choose|n: nat|
        after_steps(m0, prog, pkt, n) == Some(mf2) && (mf2.frame >= prog.len() || step(
            mf2,
            prog[mf2.frame as int],
            pkt,
        ) == StepOutcome::Fault);
    if n1 < n2 {
        lemma_stop_is_final(m0, prog, pkt, n1, n2);
    } else if n2 < n1 {
        lemma_stop_is_final(m0, prog, pkt, n2, n1);
    }
}

/// Law: a packet load whose effective offset, or offset plus required width,
/// runs past the end of the packet — including an indexed offset that
/// overflows the address register — faults. Since a faulting step leaves the
/// machine unchanged, such a load touches neither the accumulator nor the
/// frame pointer.
pub proof fn lemma_load_out_of_bounds_faults(m: MState, i: Instruction, pkt: Seq<u8>)
    requires
        is_packet_load(i.opcode),
        !load_in_bounds(m, i, pkt),
    ensures
        step(m, i, pkt) == StepOutcome::Fault,
{
}

/// Law: a jump-class instruction succeeds without touching the accumulator,
/// the index register or the scratch memory, and advances the frame by `jt`
/// when the accumulator is zero and by `jf` when it is not.
pub proof fn lemma_jump_advances_by_branch(m: MState, i: Instruction, pkt: Seq<u8>)
    requires
        i.opcode == JMP,
        frame_in_range(m),
    ensures
        step(m, i, pkt) == StepOutcome::Step(
            MState {
                frame: if m.acc == 0 {
                    (m.frame + i.jt) as u32
                } else {
                    (m.frame + i.jf) as u32
                },
                acc: m.acc,
                index: m.index,
                mem: m.mem,
            },
        ),
{
}

/// Law: an instruction of any class but the jump class that does not fault
/// advances the frame by exactly one. (A faulting instruction advances it by
/// zero: a fault leaves the whole state unchanged.)
pub proof fn lemma_nonjump_advances_by_one(m: MState, i: Instruction, pkt: Seq<u8>)
    requires
        class_of(i.opcode) != CLASS_JMP,
        frame_in_range(m),
        !(step(m, i, pkt) is Fault),
    ensures
        match step(m, i, pkt) {
            StepOutcome::Fault => false,
            StepOutcome::Step(m2) => m2.frame == m.frame + 1,
            StepOutcome::Done(m2, _) => m2.frame == m.frame + 1,
        },
{
}

/// Law: an unrecognized opcode faults. Since a faulting step leaves the
/// machine unchanged, it performs no register mutation and no frame
/// advancement.
pub proof fn lemma_unknown_opcode_faults(m: MState, i: Instruction, pkt: Seq<u8>)
    requires
        !recognized(i.opcode),
    ensures
        step(m, i, pkt) == StepOutcome::Fault,
{
}

} // verus!
