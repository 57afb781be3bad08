//! The fetch-decode-execute cycle.
use vstd::prelude::*;

use crate::instruction::{decode, word_at, Instruction};
use crate::machine::{Chip8, ExecutionFault, LAST_FETCH_ADDR};
use crate::random::random_byte;
use crate::semantics::{execute_spec, register_set, step_spec};

verus! {

impl Chip8 {
    /// Reads the big-endian instruction word at the program counter.
    fn get_opcode(&self) -> (w: u16)
        requires
            self.pc <= LAST_FETCH_ADDR,
        ensures
            w == word_at(self.memory@, self.pc as int),
    {
        let hi = self.memory[self.pc as usize];
        let lo = self.memory[self.pc as usize + 1];
        assert(((hi as u16) << 8) | (lo as u16) == hi * 256 + lo) by (bit_vector);
        ((hi as u16) << 8) | (lo as u16)
    }

    /// Executes one decoded instruction; `rnd` is the byte that Cxkk masks.
    /// Every instruction but a jump, call, return, skip or an Fx0A that
    /// finds no key moves the program counter on by one instruction; an
    /// unknown word does too, and is then reported as `UnknownOpcode`.
    pub fn execute(&mut self, ins: Instruction, rnd: u8) -> (r: Result<(), ExecutionFault>)
        requires
            old(self).wf(),
            old(self).pc <= LAST_FETCH_ADDR,
            ins.wf(),
        ensures
            (final(self)@, r) == execute_spec(old(self)@, ins, rnd),
            final(self).wf(),
    {
        match ins {
            Instruction::Clear => {
                self.op_00e0();
                Ok(())
            },
            Instruction::Return => self.op_00ee(),
            Instruction::Jump { nnn } => {
                self.op_1nnn(nnn);
                Ok(())
            },
            Instruction::Call { nnn } => self.op_2nnn(nnn),
            Instruction::SkipIfEqualByte { x, kk } => {
                self.op_3xkk(x, kk);
                Ok(())
            },
            Instruction::SkipIfNotEqualByte { x, kk } => {
                self.op_4xkk(x, kk);
                Ok(())
            },
            Instruction::SkipIfEqual { x, y } => {
                self.op_5xy0(x, y);
                Ok(())
            },
            Instruction::LoadByte { x, kk } => {
                self.op_6xkk(x, kk);
                Ok(())
            },
            Instruction::AddByte { x, kk } => {
                self.op_7xkk(x, kk);
                Ok(())
            },
            Instruction::Move { x, y } => {
                self.op_8xy0(x, y);
                Ok(())
            },
            Instruction::Or { x, y } => {
                self.op_8xy1(x, y);
                Ok(())
            },
            Instruction::And { x, y } => {
                self.op_8xy2(x, y);
                Ok(())
            },
            Instruction::Xor { x, y } => {
                self.op_8xy3(x, y);
                Ok(())
            },
            Instruction::Add { x, y } => {
                self.op_8xy4(x, y);
                Ok(())
            },
            Instruction::Sub { x, y } => {
                self.op_8xy5(x, y);
                Ok(())
            },
            Instruction::ShiftRight { x } => {
                self.op_8x06(x);
                Ok(())
            },
            Instruction::SubReversed { x, y } => {
                self.op_8xy7(x, y);
                Ok(())
            },
            Instruction::ShiftLeft { x } => {
                self.op_8x0e(x);
                Ok(())
            },
            Instruction::SkipIfNotEqual { x, y } => {
                self.op_9xy0(x, y);
                Ok(())
            },
            Instruction::LoadIndex { nnn } => {
                self.op_annn(nnn);
                Ok(())
            },
            Instruction::JumpOffset { nnn } => {
                self.op_bnnn(nnn);
                Ok(())
            },
            Instruction::Random { x, kk } => {
                self.v[x] = rnd & kk;
                self.pc = self.pc + 2;
                assert(self@ == register_set(old(self)@, x as int, rnd & kk));
                Ok(())
            },
            Instruction::Draw { x, y, n } => self.op_dxyn(x, y, n),
            Instruction::SkipIfKey { x } => {
                self.op_ex9e(x);
                Ok(())
            },
            Instruction::SkipIfNotKey { x } => {
                self.op_exa1(x);
                Ok(())
            },
            Instruction::LoadDelay { x } => {
                self.op_fx07(x);
                Ok(())
            },
            Instruction::WaitKey { x } => {
                self.op_fx0a(x);
                Ok(())
            },
            Instruction::SetDelay { x } => {
                self.op_fx15(x);
                Ok(())
            },
            Instruction::SetSound { x } => {
                self.op_fx18(x);
                Ok(())
            },
            Instruction::AddIndex { x } => {
                self.op_fx1e(x);
                Ok(())
            },
            Instruction::LoadGlyph { x } => {
                self.op_fx29(x);
                Ok(())
            },
            Instruction::StoreDecimal { x } => self.op_fx33(x),
            Instruction::StoreRegisters { x } => self.op_fx55(x),
            Instruction::LoadRegisters { x } => self.op_fx65(x),
            Instruction::Unknown { word } => {
                self.pc = self.pc + 2;
                Err(ExecutionFault::UnknownOpcode(word))
            },
        }
    }

    /// One fetch-decode-execute cycle, with `rnd` as the byte that Cxkk
    /// masks: the word at the program counter is fetched, kept in `opcode`,
    /// decoded and executed. Fails with `ProgramCounterOutOfRange`,
    /// changing nothing, when no whole instruction lies at the program
    /// counter.
    pub fn step(&mut self, rnd: u8) -> (r: Result<(), ExecutionFault>)
        requires
            old(self).wf(),
        ensures
            (final(self)@, r) == step_spec(old(self)@, rnd),
            final(self).wf(),
    {
        if self.pc > LAST_FETCH_ADDR {
            return Err(ExecutionFault::ProgramCounterOutOfRange);
        }
        let w = self.get_opcode();
        self.opcode = w;
        let ins = decode(w);
        self.execute(ins, rnd)
    }

    /// One fetch-decode-execute cycle, with a byte from the random number
    /// generator for Cxkk. Whatever byte was drawn, the outcome is that of
    /// `step` with it.
    pub fn emulate_cycle(&mut self) -> (r: Result<(), ExecutionFault>)
        requires
            old(self).wf(),
        ensures
            exists|b: u8| (final(self)@, r) == step_spec(old(self)@, b),
            final(self).wf(),
    {
        let b = random_byte();
        let r = self.step(b);
        assert((self@, r) == step_spec(old(self)@, b));
        r
    }
}

} // verus!
