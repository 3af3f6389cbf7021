//! The machine itself: its storage, how it is built from a program, and
//! what the host may read and set between cycles.

use vstd::prelude::*;
use crate::error::Chip8Error;
use crate::model::{
    MachineState, DEFAULT_STACK_LIMIT, KEYS, MEM_SIZE, PIXELS, REGISTERS, START_OF_PROG,
};

mod cycle;
mod operations;

verus! {

/// One cell of the display.
#[derive(Clone, Copy, Debug, PartialEq, Eq, Structural)]
pub enum PixelState {
    ON,
    OFF,
}

impl PixelState {
    /// The other state.
    pub open spec fn toggled(self) -> PixelState {
        if self == PixelState::ON {
            PixelState::OFF
        } else {
            PixelState::ON
        }
    }
}

/// One key of the pad.
#[derive(Clone, Copy, Debug, PartialEq, Eq, Structural)]
pub enum KeyState {
    ON,
    OFF,
}

/// A CHIP-8 machine. Its state is read through the view, a `MachineState`;
/// the stack never holds more return addresses than its limit.
pub struct Chip8 {
    pc: usize,
    index: usize,
    stack: Vec<usize>,
    stack_limit: usize,
    display: [PixelState; PIXELS],
    memory: [u8; MEM_SIZE],
    gp_reg: [u8; REGISTERS],
    keypad: [KeyState; KEYS],
    delay_timer: u8,
    sound_timer: u8,
}

impl View for Chip8 {
    type V = MachineState;

    /// The state of the machine, field by field.
    closed spec fn view(&self) -> MachineState {
        MachineState {
            pc: self.pc as int,
            index: self.index as int,
            stack: self.stack@.map_values(|a: usize| a as int),
            stack_limit: self.stack_limit as int,
            memory: self.memory@,
            registers: self.gp_reg@,
            display: self.display@,
            keypad: self.keypad@,
            delay_timer: self.delay_timer,
            sound_timer: self.sound_timer,
        }
    }
}

impl Chip8 {
    #[verifier::type_invariant]
    spec fn within_stack_limit(self) -> bool {
        self.stack.len() <= self.stack_limit
    }

    /// A machine with `rom` loaded at `START_OF_PROG` and room for
    /// `DEFAULT_STACK_LIMIT` return addresses. A program that does not fit
    /// between `START_OF_PROG` and the end of memory is rejected.
    pub fn new(rom: &[u8]) -> (built: Result<Chip8, Chip8Error>)
        ensures
            match built {
                Ok(machine) => rom@.len() <= MEM_SIZE - START_OF_PROG && machine@
                    == MachineState::initial(rom@, DEFAULT_STACK_LIMIT as int) && machine@.wf(),
                Err(error) => rom@.len() > MEM_SIZE - START_OF_PROG && error
                    == Chip8Error::OversizedRom,
            },
    {
        Chip8::with_stack_limit(rom, DEFAULT_STACK_LIMIT)
    }

    /// A machine with `rom` loaded at `START_OF_PROG` and room for
    /// `stack_limit` return addresses: memory is zero but for the program,
    /// execution is about to start at `START_OF_PROG`, all else is zero. A
    /// program that does not fit between `START_OF_PROG` and the end of
    /// memory is rejected.
    pub fn with_stack_limit(rom: &[u8], stack_limit: usize) -> (built: Result<Chip8, Chip8Error>)
        ensures
            match built {
                Ok(machine) => rom@.len() <= MEM_SIZE - START_OF_PROG && machine@
                    == MachineState::initial(rom@, stack_limit as int) && machine@.wf(),
                Err(error) => rom@.len() > MEM_SIZE - START_OF_PROG && error
                    == Chip8Error::OversizedRom,
            },
    {
        if rom.len() > MEM_SIZE - START_OF_PROG {
            return Err(Chip8Error::OversizedRom);
        }
        let mut memory: [u8; MEM_SIZE] = [0u8;MEM_SIZE];
        let mut i: usize = 0;
        while i < rom.len()
            invariant
                i <= rom@.len() <= MEM_SIZE - START_OF_PROG,
                forall|a: int|
                    0 <= a < MEM_SIZE ==> #[trigger] memory@[a] == if START_OF_PROG <= a
                        < START_OF_PROG + i {
                        rom@[a - START_OF_PROG]
                    } else {
                        0u8
                    },
            decreases rom@.len() - i,
        {
            memory[i + START_OF_PROG] = rom[i];
            i += 1;
        }
        let machine = Chip8 {
            pc: START_OF_PROG,
            index: 0,
            stack: Vec::new(),
            stack_limit,
            display: [PixelState::OFF;PIXELS],
            memory,
            gp_reg: [0u8;REGISTERS],
            keypad: [KeyState::OFF;KEYS],
            delay_timer: 0,
            sound_timer: 0,
        };
        Ok(machine)
    }

    /// The program counter.
    pub fn get_pc(&self) -> (pc: usize)
        ensures
            pc == self@.pc,
            self@.wf(),
    {
        proof {
            use_type_invariant(self);
        }
        self.pc
    }

    /// The index register `I`.
    pub fn get_index(&self) -> (index: usize)
        ensures
            index == self@.index,
            self@.wf(),
    {
        proof {
            use_type_invariant(self);
        }
        self.index
    }

    /// The value of register `register`, from 0 for `V0` to 15 for `VF`.
    pub fn get_register(&self, register: usize) -> (value: u8)
        requires
            register < REGISTERS,
        ensures
            value == self@.registers[register as int],
            self@.wf(),
    {
        proof {
            use_type_invariant(self);
        }
        self.gp_reg[register]
    }

    /// The byte of memory at `address`.
    pub fn get_mem_at(&self, address: usize) -> (value: u8)
        requires
            address < MEM_SIZE,
        ensures
            value == self@.memory[address as int],
            self@.wf(),
    {
        proof {
            use_type_invariant(self);
        }
        self.memory[address]
    }

    /// How many return addresses the stack holds.
    pub fn get_stack_depth(&self) -> (depth: usize)
        ensures
            depth == self@.stack.len(),
            self@.wf(),
    {
        proof {
            use_type_invariant(self);
        }
        self.stack.len()
    }

    /// How many return addresses the stack may hold.
    pub fn get_stack_limit(&self) -> (limit: usize)
        ensures
            limit == self@.stack_limit,
            self@.wf(),
    {
        proof {
            use_type_invariant(self);
        }
        self.stack_limit
    }

    /// The newest return address on the stack, which must not be empty.
    pub fn get_top_of_stack(&self) -> (address: usize)
        requires
            self@.stack.len() > 0,
        ensures
            address == self@.stack.last(),
            self@.wf(),
    {
        proof {
            use_type_invariant(self);
        }
        self.stack[self.stack.len() - 1]
    }

    /// The display, row after row, for reading.
    pub fn get_display(&self) -> (display: &[PixelState; PIXELS])
        ensures
            display@ == self@.display,
            self@.wf(),
    {
        proof {
            use_type_invariant(self);
        }
        &self.display
    }

    /// The state of key `key`.
    pub fn get_key_state(&self, key: usize) -> (state: KeyState)
        requires
            key < KEYS,
        ensures
            state == self@.keypad[key as int],
            self@.wf(),
    {
        proof {
            use_type_invariant(self);
        }
        self.keypad[key]
    }

    /// Sets key `key` to `state`. Nothing else changes.
    pub fn set_key_state(&mut self, key: usize, state: KeyState)
        requires
            key < KEYS,
        ensures
            final(self)@ == (MachineState {
                keypad: old(self)@.keypad.update(key as int, state),
                ..old(self)@
            }),
            final(self)@.wf(),
    {
        proof {
            use_type_invariant(&*self);
        }
        self.keypad[key] = state;
    }

    /// The delay timer.
    pub fn get_delay_timer(&self) -> (value: u8)
        ensures
            value == self@.delay_timer,
            self@.wf(),
    {
        proof {
            use_type_invariant(self);
        }
        self.delay_timer
    }

    /// The sound timer.
    pub fn get_sound_timer(&self) -> (value: u8)
        ensures
            value == self@.sound_timer,
            self@.wf(),
    {
        proof {
            use_type_invariant(self);
        }
        self.sound_timer
    }

    /// Sets the delay timer, as the host does when it counts it down.
    /// Nothing else changes.
    pub fn set_delay_timer(&mut self, value: u8)
        ensures
            final(self)@ == (MachineState { delay_timer: value, ..old(self)@ }),
            final(self)@.wf(),
    {
        proof {
            use_type_invariant(&*self);
        }
        self.delay_timer = value;
    }

    /// Sets the sound timer, as the host does when it counts it down.
    /// Nothing else changes.
    pub fn set_sound_timer(&mut self, value: u8)
        ensures
            final(self)@ == (MachineState { sound_timer: value, ..old(self)@ }),
            final(self)@.wf(),
    {
        proof {
            use_type_invariant(&*self);
        }
        self.sound_timer = value;
    }
}

} // verus!
