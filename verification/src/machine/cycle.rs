//! The execution cycle: fetch, advance, decode, dispatch.

use vstd::prelude::*;
use crate::error::{Chip8Error, Outcome};
use crate::instructions::Instruction;
use crate::machine::Chip8;
use crate::machine::operations::random_byte;
use crate::model::MEM_SIZE;

verus! {

impl Chip8 {
    /// Reads and decodes the word at the program counter, high byte first.
    /// A word that reaches past the end of memory, or that starts at an
    /// odd address, is not read. The machine does not change.
    pub fn fetch(&self) -> (fetched: Result<Instruction, Chip8Error>)
        ensures
            match self@.fetch_error() {
                Some(error) => fetched == Err::<Instruction, Chip8Error>(error),
                None => fetched == Ok::<Instruction, Chip8Error>(self@.fetched()),
            },
            fetched matches Ok(instr) ==> instr.wf(),
            self@.wf(),
    {
        proof {
            use_type_invariant(self);
        }
        if self.pc >= MEM_SIZE - 1 {
            return Err(Chip8Error::OutOfBoundsMemoryAccess);
        }
        if self.pc % 2 != 0 {
            return Err(Chip8Error::MisalignedProgramCounter);
        }
        let upper_byte = self.memory[self.pc];
        let lower_byte = self.memory[self.pc + 1];
        let raw = upper_byte as u16 * 0x100 + lower_byte as u16;
        Ok(Instruction::decode(raw))
    }

    /// Carries `instr` out, by its primary nibble; `random` is the byte
    /// that `CXNN` masks, and no other instruction reads it. An instruction
    /// that fails leaves the machine as it was.
    pub fn exec_with(&mut self, instr: Instruction, random: u8) -> (result: Result<
        Outcome,
        Chip8Error,
    >)
        requires
            instr.wf(),
            2 <= old(self)@.pc <= usize::MAX - 2,
        ensures
            final(self)@ == old(self)@.exec(instr, random).state,
            result == old(self)@.exec(instr, random).result,
            result is Err ==> final(self)@ == old(self)@,
            final(self)@.wf(),
    {
        proof {
            use_type_invariant(&*self);
        }
        match instr.operation {
            0x0 => self.zero(instr),
            0x1 => {
                self.jump(instr);
                Ok(Outcome::Executed)
            },
            0x2 => match self.push(instr) {
                Ok(()) => Ok(Outcome::Executed),
                Err(error) => Err(error),
            },
            0x3 => {
                self.skip_if_eq(instr);
                Ok(Outcome::Executed)
            },
            0x4 => {
                self.skip_if_neq(instr);
                Ok(Outcome::Executed)
            },
            0x5 => {
                self.skip_eq_reg(instr);
                Ok(Outcome::Executed)
            },
            0x6 => {
                self.set_register(instr);
                Ok(Outcome::Executed)
            },
            0x7 => {
                self.add_register(instr);
                Ok(Outcome::Executed)
            },
            0x8 => Ok(self.eight(instr)),
            0x9 => {
                self.skip_neq_reg(instr);
                Ok(Outcome::Executed)
            },
            0xA => {
                self.set_index(instr);
                Ok(Outcome::Executed)
            },
            0xB => {
                self.offset_jump(instr);
                Ok(Outcome::Executed)
            },
            0xC => {
                self.random_with(instr, random);
                Ok(Outcome::Executed)
            },
            0xD => match self.draw(instr) {
                Ok(()) => Ok(Outcome::Executed),
                Err(error) => Err(error),
            },
            0xE => Ok(self.skip_key(instr)),
            _ => self.f(instr),
        }
    }

    /// Carries `instr` out, by its primary nibble. `CXNN` draws its byte
    /// from the thread's random generator; but for that byte the result is
    /// that of `exec_with`.
    pub fn exec(&mut self, instr: Instruction) -> (result: Result<Outcome, Chip8Error>)
        requires
            instr.wf(),
            2 <= old(self)@.pc <= usize::MAX - 2,
        ensures
            exists|random: u8|
                final(self)@ == (#[trigger] old(self)@.exec(instr, random)).state && result == old(
                    self,
                )@.exec(instr, random).result,
            result is Err ==> final(self)@ == old(self)@,
            final(self)@.wf(),
    {
        let random = if instr.operation == 0xC {
            random_byte()
        } else {
            0
        };
        self.exec_with(instr, random)
    }

    /// One cycle, with `random` for the byte that `CXNN` masks: fetches the
    /// word at the program counter, moves the program counter past it,
    /// decodes and executes. A cycle that fails leaves the machine as it
    /// was before the cycle.
    pub fn tick_with(&mut self, random: u8) -> (result: Result<Outcome, Chip8Error>)
        ensures
            final(self)@ == old(self)@.tick(random).state,
            result == old(self)@.tick(random).result,
            result is Err ==> final(self)@ == old(self)@,
            final(self)@.wf(),
    {
        proof {
            use_type_invariant(&*self);
        }
        match self.fetch() {
            Ok(instr) => self.run(instr, random),
            Err(error) => Err(error),
        }
    }

    /// One cycle: fetches the word at the program counter, moves the
    /// program counter past it, decodes and executes. `CXNN` draws its byte
    /// from the thread's random generator; but for that byte the result is
    /// that of `tick_with`. A cycle that fails leaves the machine as it was
    /// before the cycle.
    pub fn tick(&mut self) -> (result: Result<Outcome, Chip8Error>)
        ensures
            exists|random: u8|
                final(self)@ == (#[trigger] old(self)@.tick(random)).state && result == old(
                    self,
                )@.tick(random).result,
            result is Err ==> final(self)@ == old(self)@,
            final(self)@.wf(),
    {
        proof {
            use_type_invariant(&*self);
        }
        match self.fetch() {
            Ok(instr) => {
                let random = if instr.operation == 0xC {
                    random_byte()
                } else {
                    0
                };
                let result = self.run(instr, random);
                result
            },
            Err(error) => {
                assert(self@ == old(self)@.tick(0).state);
                Err(error)
            },
        }
    }

    /// What a cycle does once it has fetched `instr`.
    fn run(&mut self, instr: Instruction, random: u8) -> (result: Result<Outcome, Chip8Error>)
        requires
            old(self)@.fetch_error() is None,
            instr == old(self)@.fetched(),
            instr.wf(),
        ensures
            final(self)@ == old(self)@.tick(random).state,
            result == old(self)@.tick(random).result,
            result is Err ==> final(self)@ == old(self)@,
            final(self)@.wf(),
    {
        proof {
            use_type_invariant(&*self);
        }
        let fetched_at = self.pc;
        self.pc += 2;
        let result = self.exec_with(instr, random);
        if result.is_err() {
            self.pc = fetched_at;
        }
        result
    }
}

} // verus!
