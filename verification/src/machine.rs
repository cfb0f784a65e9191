//! The executable machine: the register file, the load-addressing modes, the
//! fetch-execute step and the run loop, each specified against the model in
//! [`crate::sem`].

use vstd::prelude::*;

use crate::instr::{Instruction, CLASS_JMP, LDH, LDHI, LDI, LDW, LDWI, JMP, RETA, RETK};
use crate::sem::{
    after_steps, be_half, be_word, frame_in_range, half_in_bounds, run_exhausted, run_faulted,
    run_yields, step, word_in_bounds, zeroed, MState, StepOutcome, MAX_RUN_STEPS,
    SCRATCH_MEM_SLOTS,
};

verus! {

/// Relies on `byteorder::BigEndian::read_u32`: the big-endian unsigned 32-bit
/// integer formed by the first four bytes of its argument.
#[verifier::external_body]
fn read_word_be(pkt: &[u8], off: usize) -> (r: u32)
    requires
        off + 4 <= pkt@.len(),
    ensures
        r == be_word(pkt@, off as int),
{
    <byteorder::BigEndian as byteorder::ByteOrder>::read_u32(&pkt[off..off + 4])
}

/// Relies on `byteorder::BigEndian::read_u16`: the big-endian unsigned 16-bit
/// integer formed by the first two bytes of its argument.
#[verifier::external_body]
fn read_half_be(pkt: &[u8], off: usize) -> (r: u16)
    requires
        off + 2 <= pkt@.len(),
    ensures
        r as u32 == be_half(pkt@, off as int),
{
    <byteorder::BigEndian as byteorder::ByteOrder>::read_u16(&pkt[off..off + 2])
}

/// The packet-filter machine: a frame pointer into the program, an
/// accumulator, an index register and sixteen scratch-memory slots. Its
/// abstract value is the [`MState`] holding the same registers.
pub struct PsuedoMachine {
    /// The frame pointer.
    frame: u32,
    /// The accumulator.
    accumulator: u32,
    /// The index register.
    index: u32,
    /// Scratch memory.
    memory: [u32; SCRATCH_MEM_SLOTS],
}

impl View for PsuedoMachine {
    type V = MState;

    closed spec fn view(&self) -> MState {
        MState { frame: self.frame, acc: self.accumulator, index: self.index, mem: self.memory@ }
    }
}

impl PsuedoMachine {
    /// Returns a zero-initialized machine.
    pub fn new() -> (r: PsuedoMachine)
        ensures
            r@ == zeroed(),
    {
        let r = PsuedoMachine { frame: 0, accumulator: 0, index: 0, memory: [0; 16] };
        proof {
            assert(r@.mem =~= zeroed().mem);
            assert(r@ =~= zeroed());
        }
        r
    }

    /// Resets every register and every scratch slot to zero, so that the
    /// machine may be reused across independent runs with no residual state.
    pub fn reset(&mut self)
        ensures
            final(self)@ == zeroed(),
    {
        self.frame = 0;
        self.accumulator = 0;
        self.index = 0;
        self.memory = [0; 16];
        proof {
            assert(self@.mem =~= zeroed().mem);
            assert(self@ =~= zeroed());
        }
    }

    /// The frame pointer.
    pub fn frame(&self) -> (r: u32)
        ensures
            r == self@.frame,
    {
        self.frame
    }

    /// The accumulator.
    pub fn accumulator(&self) -> (r: u32)
        ensures
            r == self@.acc,
    {
        self.accumulator
    }

    /// The index register.
    pub fn index(&self) -> (r: u32)
        ensures
            r == self@.index,
    {
        self.index
    }

    /// The value in scratch memory slot `n`.
    pub fn mem(&self, n: usize) -> (r: u32)
        requires
            n < SCRATCH_MEM_SLOTS,
        ensures
            r == self@.mem[n as int],
    {
        self.memory[n]
    }

    /// All scratch-memory slots, in slot order.
    pub fn memory(&self) -> (r: &[u32])
        ensures
            r@ == self@.mem,
    {
        self.memory.as_slice()
    }

    /// Sets the frame pointer.
    pub fn set_frame(&mut self, frame: u32)
        ensures
            final(self)@ == (MState { frame, ..old(self)@ }),
    {
        self.frame = frame;
    }

    /// Sets the accumulator.
    pub fn set_accumulator(&mut self, acc: u32)
        ensures
            final(self)@ == (MState { acc, ..old(self)@ }),
    {
        self.accumulator = acc;
    }

    /// Sets the index register.
    pub fn set_index(&mut self, index: u32)
        ensures
            final(self)@ == (MState { index, ..old(self)@ }),
    {
        self.index = index;
    }

    /// Sets scratch memory slot `idx` to `val`.
    pub fn set_memory(&mut self, idx: usize, val: u32)
        requires
            idx < SCRATCH_MEM_SLOTS,
        ensures
            final(self)@ == (MState { mem: old(self)@.mem.update(idx as int, val), ..old(self)@ }),
    {
        self.memory[idx] = val;
    }

    /// Load the big-endian word at packet offset `k` into the accumulator;
    /// fail, changing nothing, if fewer than four bytes remain at `k`.
    fn ld_u32(&mut self, k: u32, pkt: &[u8]) -> (r: Result<Option<u32>, ()>)
        ensures
            word_in_bounds(pkt@, k as int) ==> r == Ok::<Option<u32>, ()>(None) && final(self)@
                == (MState { acc: be_word(pkt@, k as int), ..old(self)@ }),
            !word_in_bounds(pkt@, k as int) ==> r == Err::<Option<u32>, ()>(()) && final(self)@
                == old(self)@,
    {
        if (k as u64) + 4 <= pkt.len() as u64 {
            self.accumulator = read_word_be(pkt, k as usize);
            Ok(None)
        } else {
            Err(())
        }
    }

    /// Load the big-endian half-word at packet offset `k` into the
    /// accumulator, zero-extended; fail, changing nothing, if fewer than two
    /// bytes remain at `k`.
    fn ld_u16(&mut self, k: u32, pkt: &[u8]) -> (r: Result<Option<u32>, ()>)
        ensures
            half_in_bounds(pkt@, k as int) ==> r == Ok::<Option<u32>, ()>(None) && final(self)@
                == (MState { acc: be_half(pkt@, k as int), ..old(self)@ }),
            !half_in_bounds(pkt@, k as int) ==> r == Err::<Option<u32>, ()>(()) && final(self)@
                == old(self)@,
    {
        if (k as u64) + 2 <= pkt.len() as u64 {
            self.accumulator = read_half_be(pkt, k as usize) as u32;
            Ok(None)
        } else {
            Err(())
        }
    }

    /// Execute one instruction against the packet and, on success, advance
    /// the frame pointer: by `jt` or `jf` for a jump-class instruction
    /// according to the accumulator's zero-test, by one for every other
    /// class. Returns `Ok(Some(verdict))` for a return-class instruction,
    /// `Ok(None)` to continue, and `Err` — with the machine unchanged — on an
    /// unrecognized opcode or an out-of-bounds packet read.
    pub fn execute(&mut self, instr: &Instruction, pkt: &[u8]) -> (r: Result<Option<u32>, ()>)
        requires
            frame_in_range(old(self)@),
        ensures
            match step(old(self)@, *instr, pkt@) {
                StepOutcome::Fault => r == Err::<Option<u32>, ()>(()) && final(self)@ == old(
                    self,
                )@,
                StepOutcome::Step(m2) => r == Ok::<Option<u32>, ()>(None) && final(self)@ == m2,
                StepOutcome::Done(m2, v) => r == Ok::<Option<u32>, ()>(Some(v)) && final(self)@
                    == m2,
            },
    {
        let opcode = instr.opcode;
        let class = instr.class();
        let k = instr.k;
        let idx = self.index;

        let ret: Result<Option<u32>, ()> = if opcode == LDI {
            self.accumulator = k;
            Ok(None)
        } else if opcode == LDW {
            self.ld_u32(k, pkt)
        } else if opcode == LDWI {
            let off: u64 = idx as u64 + k as u64;
            if off > u32::MAX as u64 {
                Err(())
            } else {
                self.ld_u32(off as u32, pkt)
            }
        } else if opcode == LDH {
            self.ld_u16(k, pkt)
        } else if opcode == LDHI {
            let off: u64 = idx as u64 + k as u64;
            if off > u32::MAX as u64 {
                Err(())
            } else {
                self.ld_u16(off as u32, pkt)
            }
        } else if opcode == JMP {
            Ok(None)
        } else if opcode == RETK {
            Ok(Some(k))
        } else if opcode == RETA {
            Ok(Some(self.accumulator))
        } else {
            Err(())
        };
        match ret {
            Err(e) => Err(e),
            Ok(v) => {
                let d: u32 = if class == CLASS_JMP {
                    if self.accumulator == 0 {
                        instr.jt as u32
                    } else {
                        instr.jf as u32
                    }
                } else {
                    1
                };
                self.frame = self.frame + d;
                Ok(v)
            },
        }
    }

    /// Run a whole program against the packet: repeatedly fetch the
    /// instruction at the frame pointer and execute it, until an instruction
    /// terminates the run with a verdict (`Ok`), an instruction faults, or
    /// the frame pointer indexes past the end of the program (both `Err`,
    /// with the machine left in the state at which it failed). A run that is
    /// still going after [`MAX_RUN_STEPS`] instructions — a program's jumps
    /// may cycle forever — gives up with `Err`, so that no program can hang
    /// the evaluator.
    pub fn run_program(&mut self, prog: &[Instruction], pkt: &[u8]) -> (r: Result<u32, ()>)
        requires
            prog@.len() + 255 <= u32::MAX,
        ensures
            match r {
                Ok(v) => run_yields(old(self)@, prog@, pkt@, final(self)@, v),
                Err(_) => run_faulted(old(self)@, prog@, pkt@, final(self)@) || run_exhausted(
                    old(self)@,
                    prog@,
                    pkt@,
                    final(self)@,
                ),
            },
    {
        let ghost m0: MState = self@;
        let mut steps: u64 = 0;
        loop
            invariant
                prog@.len() + 255 <= u32::MAX,
                steps < MAX_RUN_STEPS,
                after_steps(m0, prog@, pkt@, steps as nat) == Some(self@),
                m0 == old(self)@,
            decreases MAX_RUN_STEPS - steps,
        {
            if self.frame as usize >= prog.len() {
                return Err(());
            }
            let instr = prog[self.frame as usize];
            let res = self.execute(&instr, pkt);
            match res {
                Err(_) => {
                    return Err(());
                },
                Ok(Some(v)) => {
                    return Ok(v);
                },
                Ok(None) => {
                    proof {
                        assert(after_steps(m0, prog@, pkt@, steps as nat + 1) == Some(self@));
                    }
                    steps = steps + 1;
                    if steps == MAX_RUN_STEPS {
                        return Err(());
                    }
                },
            }
        }
    }
}

} // verus!
