use crate::decode::{decode, spec_decode, DecodeError, Instruction};
use crate::rom::Rom;
use vstd::prelude::*;

verus! {

/// The name of one of the machine's two registers. The registers behave
/// identically; only their identity differs.
#[derive(Clone, Copy, PartialEq, Eq, Structural, Debug)]
pub enum RegisterId {
    A,
    B,
}

/// A register: a single non-negative integer cell, starting at 0 and mutated
/// only by instruction execution. The cell is 64 bits wide; an operation whose
/// result would not fit is refused and reported, never wrapped or saturated.
#[derive(Clone, Copy, PartialEq, Eq, Structural, Debug)]
pub struct Register {
    pub val: u64,
}

impl Register {
    pub fn new() -> (r: Register)
        ensures
            r.val == 0,
    {
        Register { val: 0 }
    }

    /// The current value of the cell.
    pub fn value(&self) -> (v: u64)
        ensures
            v == self.val,
    {
        self.val
    }

    /// Whether the cell holds an odd value.
    pub fn is_odd(&self) -> (r: bool)
        ensures
            r == (self.val % 2 == 1),
    {
        self.val % 2 == 1
    }

    /// Halve the cell (integer division, truncating toward zero).
    pub fn half(&mut self)
        ensures
            final (self).val == old(self).val / 2,
    {
        self.val = self.val / 2;
    }

    /// Triple the cell; refused, with the cell kept, when the result would not
    /// fit the register width.
    pub fn triple(&mut self) -> (ok: bool)
        ensures
            ok == (3 * old(self).val <= u64::MAX),
            ok ==> final (self).val == 3 * old(self).val,
            !ok ==> final (self).val == old(self).val,
    {
        if self.val <= u64::MAX / 3 {
            self.val = self.val * 3;
            true
        } else {
            false
        }
    }

    /// Add 1 to the cell; refused, with the cell kept, when the result would
    /// not fit the register width.
    pub fn increment(&mut self) -> (ok: bool)
        ensures
            ok == (old(self).val + 1 <= u64::MAX),
            ok ==> final (self).val == old(self).val + 1,
            !ok ==> final (self).val == old(self).val,
    {
        if self.val < u64::MAX {
            self.val = self.val + 1;
            true
        } else {
            false
        }
    }
}

/// The mathematical state of the machine: both register values and the
/// program counter, in unbounded arithmetic.
pub ghost struct State {
    pub a: int,
    pub b: int,
    pub pc: int,
}

impl State {
    pub open spec fn reg(self, id: RegisterId) -> int {
        match id {
            RegisterId::A => self.a,
            RegisterId::B => self.b,
        }
    }

    pub open spec fn with_reg(self, id: RegisterId, v: int) -> State {
        match id {
            RegisterId::A => State { a: v, b: self.b, pc: self.pc },
            RegisterId::B => State { a: self.a, b: v, pc: self.pc },
        }
    }

    pub open spec fn with_pc(self, p: int) -> State {
        State { a: self.a, b: self.b, pc: p }
    }
}

/// Whether applying `i` in state `s` keeps the affected register within the
/// 64-bit register width. The machine's explicit overflow policy: an
/// instruction that would overflow is refused with an error, never applied.
pub open spec fn apply_fits(i: Instruction, s: State) -> bool {
    match i {
        Instruction::Triple(r) => 3 * s.reg(r) <= u64::MAX,
        Instruction::Increment(r) => s.reg(r) + 1 <= u64::MAX,
        _ => true,
    }
}

/// The state after applying `i` in state `s`: the register effect, then the
/// control-flow advance — by 1 for register instructions and untaken
/// conditional jumps, by the offset for taken jumps.
pub open spec fn spec_apply(i: Instruction, s: State) -> State {
    match i {
        Instruction::Half(r) => s.with_reg(r, s.reg(r) / 2).with_pc(s.pc + 1),
        Instruction::Triple(r) => s.with_reg(r, 3 * s.reg(r)).with_pc(s.pc + 1),
        Instruction::Increment(r) => s.with_reg(r, s.reg(r) + 1).with_pc(s.pc + 1),
        Instruction::Jump(off) => s.with_pc(s.pc + off),
        Instruction::JumpIfEven(r, off) => if s.reg(r) % 2 == 0 {
            s.with_pc(s.pc + off)
        } else {
            s.with_pc(s.pc + 1)
        },
        Instruction::JumpIfOne(r, off) => if s.reg(r) == 1 {
            s.with_pc(s.pc + off)
        } else {
            s.with_pc(s.pc + 1)
        },
    }
}

/// The line fetched at `pc`: `None` exactly when `pc` lies outside the
/// program, which is the machine's halt condition, not an error.
pub open spec fn spec_fetch(prog: Seq<Seq<char>>, pc: int) -> Option<Seq<char>> {
    if 0 <= pc < prog.len() {
        Some(prog[pc])
    } else {
        None
    }
}

/// A fatal failure of a machine cycle. The caller learns the position of the
/// offending instruction; a decode failure carries the offending line too.
#[derive(Debug)]
pub enum VmError {
    /// The fetched line is not a well-formed instruction; the program itself
    /// is invalid, so the run stops and is never retried.
    Decode { at: usize, error: DecodeError },
    /// Applying the instruction would overflow a register.
    Overflow { at: usize, instruction: Instruction },
}

/// One successful machine cycle: in state `s1` the fetch is in range, the
/// line decodes, the effect fits the register width, and `s2` is the result.
pub open spec fn step_rel(prog: Seq<Seq<char>>, s1: State, s2: State) -> bool {
    match spec_fetch(prog, s1.pc) {
        Some(line) => match spec_decode(line) {
            Ok(i) => apply_fits(i, s1) && s2 == spec_apply(i, s1),
            Err(_) => false,
        },
        None => false,
    }
}

/// Why a machine cycle starting in state `s` fails with `e`: either the
/// fetched line does not decode, or the decoded instruction would overflow.
pub open spec fn step_fails_with(prog: Seq<Seq<char>>, s: State, e: VmError) -> bool {
    match spec_fetch(prog, s.pc) {
        Some(line) => match spec_decode(line) {
            Ok(i) => {
                &&& !apply_fits(i, s)
                &&& e matches VmError::Overflow { at, instruction } && at as int == s.pc
                    && instruction == i
            },
            Err(reason) => {
                &&& e matches VmError::Decode { at, error } && at as int == s.pc
                    && error.reason == reason && error.line@ == line
            },
        },
        None => false,
    }
}

/// `s2` arises from `s1` by exactly `n` successful machine cycles.
pub open spec fn reaches(prog: Seq<Seq<char>>, s1: State, s2: State, n: nat) -> bool
    decreases n,
{
    if n == 0 {
        s2 == s1
    } else {
        exists|m: State| step_rel(prog, s1, m) && reaches(prog, m, s2, (n - 1) as nat)
    }
}

pub proof fn lemma_reaches_extend(
    prog: Seq<Seq<char>>,
    s1: State,
    s2: State,
    s3: State,
    n: nat,
)
    requires
        reaches(prog, s1, s2, n),
        step_rel(prog, s2, s3),
    ensures
        reaches(prog, s1, s3, n + 1),
    decreases n,
{
    if n == 0 {
        assert(step_rel(prog, s1, s3));
        assert(reaches(prog, s3, s3, 0));
    } else {
        let m = choose|m: State| step_rel(prog, s1, m) && reaches(prog, m, s2, (n - 1) as nat);
        lemma_reaches_extend(prog, m, s2, s3, (n - 1) as nat);
    }
}

/// The execution engine: the two registers, the program counter, and the
/// loaded program. The program counter is kept wider than both the program
/// index range and the offset width, so jump arithmetic never overflows and an
/// out-of-range counter is representable until the next fetch reports halt.
pub struct Cpu {
    pub a: Register,
    pub b: Register,
    pub pc: i128,
    pub rom: Rom,
}

impl Cpu {
    /// The machine's mathematical state.
    pub open spec fn state(&self) -> State {
        State { a: self.a.val as int, b: self.b.val as int, pc: self.pc as int }
    }

    /// The loaded program, one sequence of characters per line.
    pub open spec fn program(&self) -> Seq<Seq<char>> {
        self.rom@
    }

    /// A fresh machine over `rom`: both registers 0, program counter 0.
    pub fn new(rom: Rom) -> (c: Cpu)
        ensures
            c.state() == (State { a: 0, b: 0, pc: 0 }),
            c.program() == rom@,
    {
        Cpu { a: Register::new(), b: Register::new(), pc: 0, rom }
    }

    /// Read a register, for inspection after halting.
    pub fn register_value(&self, id: RegisterId) -> (v: u64)
        ensures
            v as int == self.state().reg(id),
    {
        match id {
            RegisterId::A => self.a.value(),
            RegisterId::B => self.b.value(),
        }
    }

    /// Overwrite a register, for preparing a machine before a run.
    pub fn set_register(&mut self, id: RegisterId, v: u64)
        ensures
            final (self).state() == old(self).state().with_reg(id, v as int),
            final (self).program() == old(self).program(),
    {
        match id {
            RegisterId::A => self.a.val = v,
            RegisterId::B => self.b.val = v,
        }
    }

    /// Apply `Half` to the named register and advance.
    pub fn hlf(&mut self, id: RegisterId)
        requires
            old(self).pc < i128::MAX,
        ensures
            final (self).state() == spec_apply(Instruction::Half(id), old(self).state()),
            final (self).program() == old(self).program(),
    {
        match id {
            RegisterId::A => self.a.half(),
            RegisterId::B => self.b.half(),
        }
        self.pc = self.pc + 1;
    }

    /// Apply `Triple` to the named register and advance; refused, with the
    /// machine unchanged, when the result would not fit the register width.
    pub fn tpl(&mut self, id: RegisterId) -> (ok: bool)
        requires
            old(self).pc < i128::MAX,
        ensures
            final (self).program() == old(self).program(),
            ok == apply_fits(Instruction::Triple(id), old(self).state()),
            ok ==> final (self).state() == spec_apply(Instruction::Triple(id), old(self).state()),
            !ok ==> final (self).state() == old(self).state(),
    {
        let ok = match id {
            RegisterId::A => self.a.triple(),
            RegisterId::B => self.b.triple(),
        };
        if ok {
            self.pc = self.pc + 1;
        }
        ok
    }

    /// Apply `Increment` to the named register and advance; refused, with the
    /// machine unchanged, when the result would not fit the register width.
    pub fn inc(&mut self, id: RegisterId) -> (ok: bool)
        requires
            old(self).pc < i128::MAX,
        ensures
            final (self).program() == old(self).program(),
            ok == apply_fits(Instruction::Increment(id), old(self).state()),
            ok ==> final (self).state() == spec_apply(
                Instruction::Increment(id),
                old(self).state(),
            ),
            !ok ==> final (self).state() == old(self).state(),
    {
        let ok = match id {
            RegisterId::A => self.a.increment(),
            RegisterId::B => self.b.increment(),
        };
        if ok {
            self.pc = self.pc + 1;
        }
        ok
    }

    /// Apply `Jump`: move the program counter by the offset, touching no
    /// register. The result is validated on the next fetch, not eagerly.
    pub fn jmp(&mut self, offset: i64)
        requires
            i128::MIN <= old(self).pc + offset <= i128::MAX,
        ensures
            final (self).state() == spec_apply(Instruction::Jump(offset), old(self).state()),
            final (self).program() == old(self).program(),
    {
        self.pc = self.pc + offset as i128;
    }

    /// Apply one decoded instruction: the register effect and the control-flow
    /// advance. The program counter must currently index into the program, as
    /// it does after every successful fetch.
    pub fn apply(&mut self, instruction: &Instruction) -> (r: Result<(), VmError>)
        requires
            0 <= old(self).pc <= usize::MAX,
        ensures
            final (self).program() == old(self).program(),
            apply_fits(*instruction, old(self).state()) ==> r == Ok::<(), VmError>(())
                && final (self).state() == spec_apply(*instruction, old(self).state()),
            !apply_fits(*instruction, old(self).state()) ==> final (self).state() == old(
                self,
            ).state() && (r matches Err(e) && e == (VmError::Overflow {
                at: old(self).pc as usize,
                instruction: *instruction,
            })),
    {
        match instruction {
            Instruction::Half(id) => {
                self.hlf(*id);
                Ok(())
            },
            Instruction::Triple(id) => {
                if self.tpl(*id) {
                    Ok(())
                } else {
                    Err(VmError::Overflow { at: self.pc as usize, instruction: *instruction })
                }
            },
            Instruction::Increment(id) => {
                if self.inc(*id) {
                    Ok(())
                } else {
                    Err(VmError::Overflow { at: self.pc as usize, instruction: *instruction })
                }
            },
            Instruction::Jump(off) => {
                self.jmp(*off);
                Ok(())
            },
            Instruction::JumpIfEven(id, off) => {
                let even = match id {
                    RegisterId::A => !self.a.is_odd(),
                    RegisterId::B => !self.b.is_odd(),
                };
                if even {
                    self.jmp(*off);
                } else {
                    self.pc = self.pc + 1;
                }
                Ok(())
            },
            Instruction::JumpIfOne(id, off) => {
                let one = match id {
                    RegisterId::A => self.a.value() == 1,
                    RegisterId::B => self.b.value() == 1,
                };
                if one {
                    self.jmp(*off);
                } else {
                    self.pc = self.pc + 1;
                }
                Ok(())
            },
        }
    }

    /// Execute exactly one cycle: fetch the line at the program counter,
    /// decode it, apply it. Returns whether the machine is still running:
    /// `Ok(false)` exactly when the fetch was out of range — the machine's
    /// sole successful termination. A decode failure or a register overflow is
    /// fatal and leaves registers and program counter unchanged.
    pub fn step(&mut self) -> (r: Result<bool, VmError>)
        ensures
            final (self).program() == old(self).program(),
            match spec_fetch(old(self).program(), old(self).state().pc) {
                None => final (self).state() == old(self).state() && r == Ok::<bool, VmError>(
                    false,
                ),
                Some(line) => match spec_decode(line) {
                    Ok(i) => if apply_fits(i, old(self).state()) {
                        final (self).state() == spec_apply(i, old(self).state()) && r == Ok::<
                            bool,
                            VmError,
                        >(true)
                    } else {
                        final (self).state() == old(self).state() && (r matches Err(
                            VmError::Overflow { at, instruction },
                        ) && at as int == old(self).state().pc && instruction == i)
                    },
                    Err(reason) => final (self).state() == old(self).state() && (r matches Err(
                        VmError::Decode { at, error },
                    ) && at as int == old(self).state().pc && error.reason == reason
                        && error.line@ == line),
                },
            },
    {
        if self.pc < 0 {
            return Ok(false);
        }
        let len = self.rom.len();
        if self.pc >= len as i128 {
            return Ok(false);
        }
        let idx = self.pc as usize;
        let line = match self.rom.get(idx) {
            Some(l) => l,
            // The fetch is in range here, so the store always hands a line back.
            None => unreached(),
        };
        match decode(line.as_str()) {
            Ok(instruction) => match self.apply(&instruction) {
                Ok(()) => Ok(true),
                Err(e) => Err(e),
            },
            Err(error) => Err(VmError::Decode { at: idx, error }),
        }
    }

    /// Step until the machine halts, then hand back the final values of
    /// registers a and b as `Ok(Some(..))`; stop at the first fatal failure
    /// instead. The machine itself has no notion of an instruction budget and
    /// a program may loop forever, so the caller supplies its external guard:
    /// after `max_cycles` executed instructions the run is cut off and
    /// `Ok(None)` says the machine was still running. The final state is
    /// always one the step relation reaches from the starting state.
    pub fn run_to_completion(&mut self, max_cycles: u64) -> (r: Result<
        Option<(u64, u64)>,
        VmError,
    >)
        ensures
            final (self).program() == old(self).program(),
            exists|n: nat|
                n <= max_cycles && reaches(
                    old(self).program(),
                    old(self).state(),
                    final (self).state(),
                    n,
                ),
            match r {
                Ok(Some(regs)) => spec_fetch(final (self).program(), final (self).state().pc)
                    is None && regs.0 as int == final (self).state().a && regs.1 as int
                    == final (self).state().b,
                Ok(None) => reaches(
                    old(self).program(),
                    old(self).state(),
                    final (self).state(),
                    max_cycles as nat,
                ),
                Err(e) => step_fails_with(final (self).program(), final (self).state(), e),
            },
    {
        let ghost prog = self.program();
        let ghost s0 = self.state();
        let mut count: u64 = 0;
        while count < max_cycles
            invariant
                count <= max_cycles,
                self.program() == prog,
                prog == old(self).program(),
                s0 == old(self).state(),
                reaches(prog, s0, self.state(), count as nat),
            decreases max_cycles - count,
        {
            let ghost pre = self.state();
            match self.step() {
                Ok(true) => {
                    proof {
                        assert(step_rel(prog, pre, self.state()));
                        lemma_reaches_extend(prog, s0, pre, self.state(), count as nat);
                    }
                    count = count + 1;
                },
                Ok(false) => {
                    let a = self.register_value(RegisterId::A);
                    let b = self.register_value(RegisterId::B);
                    return Ok(Some((a, b)));
                },
                Err(e) => {
                    return Err(e);
                },
            }
        }
        Ok(None)
    }
}

/// Halving: from an even value v the register becomes exactly v / 2 (so twice
/// the result gives v back); from an odd value v it becomes (v - 1) / 2, the
/// truncating division. The program counter advances by exactly 1 and the
/// other register keeps its value.
pub proof fn lemma_half_effect(s: State, id: RegisterId)
    requires
        s.reg(id) >= 0,
    ensures
        spec_apply(Instruction::Half(id), s).reg(id) == s.reg(id) / 2,
        s.reg(id) % 2 == 0 ==> 2 * spec_apply(Instruction::Half(id), s).reg(id) == s.reg(id),
        s.reg(id) % 2 == 1 ==> spec_apply(Instruction::Half(id), s).reg(id) == (s.reg(id) - 1)
            / 2,
        spec_apply(Instruction::Half(id), s).pc == s.pc + 1,
        forall|o: RegisterId|
            o != id ==> #[trigger] spec_apply(Instruction::Half(id), s).reg(o) == s.reg(o),
{
    let v = s.reg(id);
    vstd::arithmetic::div_mod::lemma_fundamental_div_mod(v, 2);
    if v % 2 == 1 {
        vstd::arithmetic::div_mod::lemma_fundamental_div_mod(v - 1, 2);
        assert((v - 1) / 2 == v / 2) by (nonlinear_arith)
            requires
                v >= 0 && v % 2 == 1,
        ;
    }
}

/// Tripling: the register becomes exactly three times its old value — the
/// same as adding the old value to itself twice — whatever the prior history;
/// the program counter advances by exactly 1 and the other register keeps its
/// value.
pub proof fn lemma_triple_effect(s: State, id: RegisterId)
    ensures
        spec_apply(Instruction::Triple(id), s).reg(id) == 3 * s.reg(id),
        spec_apply(Instruction::Triple(id), s).reg(id) == s.reg(id) + s.reg(id) + s.reg(id),
        spec_apply(Instruction::Triple(id), s).pc == s.pc + 1,
        forall|o: RegisterId|
            o != id ==> #[trigger] spec_apply(Instruction::Triple(id), s).reg(o) == s.reg(o),
{
}

/// Repetition of one instruction, for laws about iterated effect.
pub open spec fn apply_times(i: Instruction, s: State, n: nat) -> State
    decreases n,
{
    if n == 0 {
        s
    } else {
        spec_apply(i, apply_times(i, s, (n - 1) as nat))
    }
}

/// Incrementing a register `n` times, starting from 0, leaves exactly `n` in
/// it, and never touches the other register.
pub proof fn lemma_increment_n_from_zero(s: State, id: RegisterId, n: nat)
    requires
        s.reg(id) == 0,
    ensures
        apply_times(Instruction::Increment(id), s, n).reg(id) == n,
        forall|o: RegisterId|
            o != id ==> #[trigger] apply_times(Instruction::Increment(id), s, n).reg(o) == s.reg(
                o,
            ),
    decreases n,
{
    if n > 0 {
        lemma_increment_n_from_zero(s, id, (n - 1) as nat);
        assert forall|o: RegisterId| o != id implies #[trigger] apply_times(
            Instruction::Increment(id),
            s,
            n,
        ).reg(o) == s.reg(o) by {
            assert(apply_times(Instruction::Increment(id), s, (n - 1) as nat).reg(o) == s.reg(o));
        }
    }
}

/// An unconditional jump changes no register and moves the program counter by
/// exactly its offset, applied once: the counter stays where it was exactly
/// when the offset is zero.
pub proof fn lemma_jump_effect(s: State, offset: i64)
    ensures
        spec_apply(Instruction::Jump(offset), s).a == s.a,
        spec_apply(Instruction::Jump(offset), s).b == s.b,
        spec_apply(Instruction::Jump(offset), s).pc == s.pc + offset,
        (spec_apply(Instruction::Jump(offset), s).pc == s.pc) <==> (offset == 0),
{
}

/// A conditional jump moves the program counter by exactly its offset when
/// its condition holds — evenness for one, the value exactly 1 for the other
/// — and by exactly 1 when it does not, never both ways, and changes no
/// register.
pub proof fn lemma_conditional_jump_effect(s: State, id: RegisterId, offset: i64)
    ensures
        spec_apply(Instruction::JumpIfEven(id, offset), s).pc == if s.reg(id) % 2 == 0 {
            s.pc + offset
        } else {
            s.pc + 1
        },
        spec_apply(Instruction::JumpIfOne(id, offset), s).pc == if s.reg(id) == 1 {
            s.pc + offset
        } else {
            s.pc + 1
        },
        spec_apply(Instruction::JumpIfEven(id, offset), s).a == s.a,
        spec_apply(Instruction::JumpIfEven(id, offset), s).b == s.b,
        spec_apply(Instruction::JumpIfOne(id, offset), s).a == s.a,
        spec_apply(Instruction::JumpIfOne(id, offset), s).b == s.b,
{
}

/// Halting: when the program counter equals the program's length — as after
/// the normal advance of the last instruction — the next fetch is out of
/// range, so the machine halts and no further cycle can execute from that
/// state.
pub proof fn lemma_halts_past_end(prog: Seq<Seq<char>>, s: State)
    requires
        s.pc == prog.len(),
    ensures
        spec_fetch(prog, s.pc) is None,
        forall|s2: State| !step_rel(prog, s, s2),
{
}

} // verus!

