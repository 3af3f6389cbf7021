//! The mathematical model of the machine: what a state is, and what each
//! operation makes of it.

use vstd::prelude::*;
use crate::error::{Chip8Error, Outcome};
use crate::instructions::{decode_word, Instruction};
use crate::machine::{KeyState, PixelState};

verus! {

/// Bytes of memory.
pub const MEM_SIZE: usize = 4096;

/// Pixels in one display row.
pub const DISPLAY_WIDTH: usize = 64;

/// Display rows.
pub const DISPLAY_HEIGHT: usize = 32;

/// Cells of the display, row after row.
pub const PIXELS: usize = 2048;

/// Where a program is loaded, and where execution starts.
pub const START_OF_PROG: usize = 0x200;

/// General-purpose registers, `V0` to `VF`.
pub const REGISTERS: usize = 16;

/// Keys of the pad.
pub const KEYS: usize = 16;

/// The register that carry, borrow and collision are reported in.
pub const FLAG: usize = 0xF;

/// Return addresses that the call stack holds unless the host says otherwise.
pub const DEFAULT_STACK_LIMIT: usize = 16;

/// Where the glyph of digit 0 starts.
pub const FONT_OFFSET: usize = 0x050;

/// Bytes of one glyph.
pub const GLYPH_SIZE: usize = 5;

/// `8XY4`, add with carry.
pub const ADD: u8 = 4;

/// `8XY5`, `Vx - Vy`.
pub const SUB_XY: u8 = 5;

/// `8XY6`, shift right.
pub const SHIFT_RIGHT: u8 = 6;

/// `8XY7`, `Vy - Vx`.
pub const SUB_YX: u8 = 7;

/// `8XYE`, shift left.
pub const SHIFT_LEFT: u8 = 0xE;

/// `a + b`, held at 255.
pub open spec fn saturating_sum(a: u8, b: u8) -> u8 {
    if a + b > 0xFF {
        0xFF
    } else {
        (a + b) as u8
    }
}

/// `a - b` modulo 256.
pub open spec fn wrapping_difference(a: u8, b: u8) -> u8 {
    if a >= b {
        (a - b) as u8
    } else {
        (a - b + 0x100) as u8
    }
}

/// Whether `n` selects one of the five operations that report in `VF`.
pub open spec fn is_flagged_arithmetic(n: u8) -> bool {
    n == ADD || n == SUB_XY || n == SHIFT_RIGHT || n == SUB_YX || n == SHIFT_LEFT
}

/// What operation `n` stores in `Vx`.
pub open spec fn arithmetic_value(n: u8, vx: u8, vy: u8) -> u8 {
    if n == ADD {
        saturating_sum(vx, vy)
    } else if n == SUB_XY {
        wrapping_difference(vx, vy)
    } else if n == SUB_YX {
        wrapping_difference(vy, vx)
    } else if n == SHIFT_LEFT {
        (vx * 2 % 0x100) as u8
    } else {
        vx / 2
    }
}

/// What operation `n` stores in `VF`: 1 for a carry out of the sum, for a
/// difference that needed no borrow, for a bit shifted out; else 0.
pub open spec fn arithmetic_flag(n: u8, vx: u8, vy: u8) -> u8 {
    if n == ADD {
        if vx + vy > 0xFF { 1 } else { 0 }
    } else if n == SUB_XY {
        if vx >= vy { 1 } else { 0 }
    } else if n == SUB_YX {
        if vy >= vx { 1 } else { 0 }
    } else if n == SHIFT_LEFT {
        vx / 0x80
    } else {
        vx % 2
    }
}

/// Whether a sprite row has a pixel in `column`, counted from the left;
/// the leftmost pixel is the row's highest bit.
pub open spec fn sprite_bit(row: u8, column: int) -> bool {
    (row >> ((7 - column) as u8)) & 1 == 1
}

/// A state together with how the step that led to it ended.
pub struct Step {
    pub state: MachineState,
    pub result: Result<Outcome, Chip8Error>,
}

/// A state of the machine, as plain mathematical values.
#[verifier::ext_equal]
pub struct MachineState {
    pub pc: int,
    pub index: int,
    pub stack: Seq<int>,
    pub stack_limit: int,
    pub memory: Seq<u8>,
    pub registers: Seq<u8>,
    pub display: Seq<PixelState>,
    pub keypad: Seq<KeyState>,
    pub delay_timer: u8,
    pub sound_timer: u8,
}

impl MachineState {
    /// The shape that every state of a machine has.
    pub open spec fn wf(self) -> bool {
        &&& 0 <= self.pc <= usize::MAX
        &&& 0 <= self.index <= usize::MAX
        &&& self.stack.len() <= self.stack_limit <= usize::MAX
        &&& forall|i: int|
            0 <= i < self.stack.len() ==> 0 <= #[trigger] self.stack[i] <= usize::MAX
        &&& self.memory.len() == MEM_SIZE
        &&& self.registers.len() == REGISTERS
        &&& self.display.len() == PIXELS
        &&& self.keypad.len() == KEYS
    }

    /// The state right after construction from `rom` with room for
    /// `stack_limit` return addresses: the program at `START_OF_PROG`,
    /// execution about to start there, all else zero.
    pub open spec fn initial(rom: Seq<u8>, stack_limit: int) -> MachineState {
        MachineState {
            pc: START_OF_PROG as int,
            index: 0,
            stack: Seq::empty(),
            stack_limit,
            memory: Seq::new(
                MEM_SIZE as nat,
                |a: int|
                    if START_OF_PROG <= a < START_OF_PROG + rom.len() {
                        rom[a - START_OF_PROG]
                    } else {
                        0u8
                    },
            ),
            registers: Seq::new(REGISTERS as nat, |r: int| 0u8),
            display: Seq::new(PIXELS as nat, |c: int| PixelState::OFF),
            keypad: Seq::new(KEYS as nat, |k: int| KeyState::OFF),
            delay_timer: 0,
            sound_timer: 0,
        }
    }

    /// `Vx`.
    pub open spec fn vx(self, instr: Instruction) -> u8 {
        self.registers[instr.x as int]
    }

    /// `Vy`.
    pub open spec fn vy(self, instr: Instruction) -> u8 {
        self.registers[instr.y as int]
    }

    /// The state with register `r` set to `value`.
    pub open spec fn with_register(self, r: int, value: u8) -> MachineState {
        MachineState { registers: self.registers.update(r, value), ..self }
    }

    /// The state with the program counter moved by `offset`.
    pub open spec fn advanced(self, offset: int) -> MachineState {
        MachineState { pc: self.pc + offset, ..self }
    }

    /// The state with the next instruction skipped if `condition` holds.
    pub open spec fn skip_when(self, condition: bool) -> MachineState {
        if condition {
            self.advanced(2)
        } else {
            self
        }
    }

    /// The step that carried an instruction out and ended in `self`.
    pub open spec fn executed(self) -> Step {
        Step { state: self, result: Ok(Outcome::Executed) }
    }

    /// The step that found no operation for `instr` and did nothing.
    pub open spec fn unknown(self, instr: Instruction) -> Step {
        Step { state: self, result: Ok(Outcome::UnknownSecondaryOpcode(instr)) }
    }

    /// The step that failed with `error` and left `self` as it was.
    pub open spec fn failed(self, error: Chip8Error) -> Step {
        Step { state: self, result: Err(error) }
    }

    /// `00E0`: every cell off.
    pub open spec fn clear(self) -> MachineState {
        MachineState { display: Seq::new(PIXELS as nat, |c: int| PixelState::OFF), ..self }
    }

    /// `00EE` fails on an empty stack.
    pub open spec fn pop_fails(self) -> bool {
        self.stack.len() == 0
    }

    /// `00EE`: the newest return address leaves the stack and becomes the
    /// program counter.
    pub open spec fn pop(self) -> MachineState {
        MachineState { pc: self.stack.last(), stack: self.stack.drop_last(), ..self }
    }

    /// `1NNN`: `pc := nnn`.
    pub open spec fn jump(self, instr: Instruction) -> MachineState {
        MachineState { pc: instr.nnn as int, ..self }
    }

    /// `2NNN` fails on a stack at its limit.
    pub open spec fn push_fails(self) -> bool {
        self.stack.len() >= self.stack_limit
    }

    /// `2NNN`: the program counter goes onto the stack, then `pc := nnn`.
    pub open spec fn push(self, instr: Instruction) -> MachineState {
        MachineState { pc: instr.nnn as int, stack: self.stack.push(self.pc), ..self }
    }

    /// `3XNN`: skip if `Vx == nn`.
    pub open spec fn skip_if_eq(self, instr: Instruction) -> MachineState {
        self.skip_when(self.vx(instr) == instr.nn)
    }

    /// `4XNN`: skip if `Vx != nn`.
    pub open spec fn skip_if_neq(self, instr: Instruction) -> MachineState {
        self.skip_when(self.vx(instr) != instr.nn)
    }

    /// `5XY0`: skip if `Vx == Vy`.
    pub open spec fn skip_eq_reg(self, instr: Instruction) -> MachineState {
        self.skip_when(self.vx(instr) == self.vy(instr))
    }

    /// `9XY0`: skip if `Vx != Vy`.
    pub open spec fn skip_neq_reg(self, instr: Instruction) -> MachineState {
        self.skip_when(self.vx(instr) != self.vy(instr))
    }

    /// `6XNN`: `Vx := nn`.
    pub open spec fn set_register(self, instr: Instruction) -> MachineState {
        self.with_register(instr.x as int, instr.nn)
    }

    /// `7XNN`: `Vx := Vx + nn`, held at 255; `VF` is left alone.
    pub open spec fn add_register(self, instr: Instruction) -> MachineState {
        self.with_register(instr.x as int, saturating_sum(self.vx(instr), instr.nn))
    }

    /// `8XY4`, `8XY5`, `8XY6`, `8XY7`, `8XYE`: the result goes to `Vx`, then
    /// the flag to `VF`. Where `x` is `F` the flag is what stays.
    pub open spec fn stateful_arithmetic(self, instr: Instruction) -> Step {
        if is_flagged_arithmetic(instr.n) {
            self.with_register(
                instr.x as int,
                arithmetic_value(instr.n, self.vx(instr), self.vy(instr)),
            ).with_register(
                FLAG as int,
                arithmetic_flag(instr.n, self.vx(instr), self.vy(instr)),
            ).executed()
        } else {
            self.unknown(instr)
        }
    }

    /// The `8XYN` group: assign, or, and, xor, and the flagged arithmetic.
    pub open spec fn eight(self, instr: Instruction) -> Step {
        if instr.n == 0 {
            self.with_register(instr.x as int, self.vy(instr)).executed()
        } else if instr.n == 1 {
            self.with_register(instr.x as int, self.vx(instr) | self.vy(instr)).executed()
        } else if instr.n == 2 {
            self.with_register(instr.x as int, self.vx(instr) & self.vy(instr)).executed()
        } else if instr.n == 3 {
            self.with_register(instr.x as int, self.vx(instr) ^ self.vy(instr)).executed()
        } else {
            self.stateful_arithmetic(instr)
        }
    }

    /// `ANNN`: `I := nnn`.
    pub open spec fn set_index(self, instr: Instruction) -> MachineState {
        MachineState { index: instr.nnn as int, ..self }
    }

    /// `BNNN`: `pc := V0 + nnn`.
    pub open spec fn offset_jump(self, instr: Instruction) -> MachineState {
        MachineState { pc: self.registers[0] + instr.nnn, ..self }
    }

    /// `CXNN` with the random byte `random`: `Vx := random & nn`.
    pub open spec fn random_with(self, instr: Instruction, random: u8) -> MachineState {
        self.with_register(instr.x as int, random & instr.nn)
    }

    /// The column of the display where a sprite drawn by `instr` starts.
    pub open spec fn sprite_left(self, instr: Instruction) -> int {
        self.vx(instr) as int % DISPLAY_WIDTH as int
    }

    /// The row of the display where a sprite drawn by `instr` starts.
    pub open spec fn sprite_top(self, instr: Instruction) -> int {
        self.vy(instr) as int % DISPLAY_HEIGHT as int
    }

    /// Whether the sprite that `instr` draws has a pixel on `cell`. The
    /// sprite is `n` rows of eight pixels, read from memory at `I`; what
    /// would lie beyond the right or the bottom edge is on no cell.
    pub open spec fn sprite_covers(self, instr: Instruction, cell: int) -> bool {
        let column = cell % DISPLAY_WIDTH as int - self.sprite_left(instr);
        let row = cell / DISPLAY_WIDTH as int - self.sprite_top(instr);
        &&& 0 <= column < 8
        &&& 0 <= row < instr.n
        &&& sprite_bit(self.memory[self.index + row], column)
    }

    /// Whether drawing turns a lit cell off.
    pub open spec fn draw_collides(self, instr: Instruction) -> bool {
        exists|cell: int|
            0 <= cell < PIXELS && self.display[cell] == PixelState::ON && #[trigger] self.sprite_covers(
                instr,
                cell,
            )
    }

    /// `DXYN` fails where a sprite row lies outside memory.
    pub open spec fn draw_fails(self, instr: Instruction) -> bool {
        instr.n > 0 && self.index + instr.n > MEM_SIZE
    }

    /// `DXYN`: every cell under a sprite pixel is toggled, and `VF` says
    /// whether a lit cell went off.
    pub open spec fn draw(self, instr: Instruction) -> MachineState {
        MachineState {
            display: Seq::new(
                PIXELS as nat,
                |cell: int|
                    if self.sprite_covers(instr, cell) {
                        self.display[cell].toggled()
                    } else {
                        self.display[cell]
                    },
            ),
            registers: self.registers.update(
                FLAG as int,
                if self.draw_collides(instr) { 1u8 } else { 0u8 },
            ),
            ..self
        }
    }

    /// Whether the key with number `key` is down. A number that names no
    /// key is never down.
    pub open spec fn key_pressed(self, key: int) -> bool {
        0 <= key < KEYS && self.keypad[key] == KeyState::ON
    }

    /// `EX9E`: skip if key `Vx` is down. `EXA1`: skip if it is not.
    pub open spec fn skip_key(self, instr: Instruction) -> Step {
        if instr.nn == 0x9E {
            self.skip_when(self.key_pressed(self.vx(instr) as int)).executed()
        } else if instr.nn == 0xA1 {
            self.skip_when(!self.key_pressed(self.vx(instr) as int)).executed()
        } else {
            self.unknown(instr)
        }
    }

    /// `FX07`: `Vx := delay`. `FX15`: `delay := Vx`. `FX18`: `sound := Vx`.
    pub open spec fn timers(self, instr: Instruction) -> Step {
        if instr.nn == 0x07 {
            self.with_register(instr.x as int, self.delay_timer).executed()
        } else if instr.nn == 0x15 {
            MachineState { delay_timer: self.vx(instr), ..self }.executed()
        } else if instr.nn == 0x18 {
            MachineState { sound_timer: self.vx(instr), ..self }.executed()
        } else {
            self.unknown(instr)
        }
    }

    /// `FX1E`: `I := I + Vx`, held at the largest address the host can
    /// count to.
    pub open spec fn add_to_index(self, instr: Instruction) -> MachineState {
        MachineState {
            index: if self.index + self.vx(instr) > usize::MAX {
                usize::MAX as int
            } else {
                self.index + self.vx(instr)
            },
            ..self
        }
    }

    /// Whether `key` is down and no key with a lower number is.
    pub open spec fn is_lowest_pressed(self, key: int) -> bool {
        &&& self.key_pressed(key)
        &&& forall|lower: int| 0 <= lower < key ==> !self.key_pressed(lower)
    }

    /// The lowest key that is down, if any is.
    pub open spec fn lowest_pressed(self) -> Option<int> {
        if exists|key: int| self.is_lowest_pressed(key) {
            Some(choose|key: int| self.is_lowest_pressed(key))
        } else {
            None
        }
    }

    /// `FX0A`: with a key down, `Vx` takes the number of the lowest one;
    /// with none, the program counter goes back by one instruction, so that
    /// the next cycle meets this instruction again.
    pub open spec fn get_key(self, instr: Instruction) -> MachineState {
        match self.lowest_pressed() {
            Some(key) => self.with_register(instr.x as int, key as u8),
            None => self.advanced(-2),
        }
    }

    /// `FX29`: `I` := where the glyph of the low digit of `Vx` starts.
    pub open spec fn get_font(self, instr: Instruction) -> MachineState {
        MachineState {
            index: FONT_OFFSET + (self.vx(instr) % 0x10) * GLYPH_SIZE,
            ..self
        }
    }

    /// `FX33` fails where one of the three digits would lie outside memory.
    pub open spec fn decimal_conversion_fails(self) -> bool {
        self.index + 2 >= MEM_SIZE
    }

    /// `FX33`: hundreds, tens and ones of `Vx` go to memory at `I`, `I + 1`
    /// and `I + 2`.
    pub open spec fn decimal_conversion(self, instr: Instruction) -> MachineState {
        MachineState {
            memory: self.memory.update(self.index, self.vx(instr) / 100).update(
                self.index + 1,
                self.vx(instr) / 10 % 10,
            ).update(self.index + 2, self.vx(instr) % 10),
            ..self
        }
    }

    /// `FX55` and `FX65` fail where one of the bytes `I` to `I + x` lies
    /// outside memory.
    pub open spec fn transfer_fails(self, instr: Instruction) -> bool {
        self.index + instr.x >= MEM_SIZE
    }

    /// `FX55`: `V0` to `Vx` go to memory at `I` to `I + x`.
    pub open spec fn store(self, instr: Instruction) -> MachineState {
        MachineState {
            memory: Seq::new(
                MEM_SIZE as nat,
                |a: int|
                    if self.index <= a <= self.index + instr.x {
                        self.registers[a - self.index]
                    } else {
                        self.memory[a]
                    },
            ),
            ..self
        }
    }

    /// `FX65`: memory at `I` to `I + x` goes to `V0` to `Vx`.
    pub open spec fn load(self, instr: Instruction) -> MachineState {
        MachineState {
            registers: Seq::new(
                REGISTERS as nat,
                |r: int|
                    if r <= instr.x {
                        self.memory[self.index + r]
                    } else {
                        self.registers[r]
                    },
            ),
            ..self
        }
    }

    /// The `0NNN` group: clear the display, return.
    pub open spec fn zero(self, instr: Instruction) -> Step {
        if instr.nn == 0xE0 {
            self.clear().executed()
        } else if instr.nn == 0xEE {
            if self.pop_fails() {
                self.failed(Chip8Error::StackUnderflow)
            } else {
                self.pop().executed()
            }
        } else {
            self.unknown(instr)
        }
    }

    /// The `FXNN` group: timers, index, keys, glyphs, digits, transfers.
    pub open spec fn f(self, instr: Instruction) -> Step {
        if instr.nn == 0x07 || instr.nn == 0x15 || instr.nn == 0x18 {
            self.timers(instr)
        } else if instr.nn == 0x1E {
            self.add_to_index(instr).executed()
        } else if instr.nn == 0x0A {
            self.get_key(instr).executed()
        } else if instr.nn == 0x29 {
            self.get_font(instr).executed()
        } else if instr.nn == 0x33 {
            if self.decimal_conversion_fails() {
                self.failed(Chip8Error::OutOfBoundsMemoryAccess)
            } else {
                self.decimal_conversion(instr).executed()
            }
        } else if instr.nn == 0x55 {
            if self.transfer_fails(instr) {
                self.failed(Chip8Error::OutOfBoundsMemoryAccess)
            } else {
                self.store(instr).executed()
            }
        } else if instr.nn == 0x65 {
            if self.transfer_fails(instr) {
                self.failed(Chip8Error::OutOfBoundsMemoryAccess)
            } else {
                self.load(instr).executed()
            }
        } else {
            self.unknown(instr)
        }
    }

    /// What `instr` does to the state, by its primary nibble. `random` is
    /// the byte that `CXNN` draws; no other instruction reads it.
    pub open spec fn exec(self, instr: Instruction, random: u8) -> Step {
        if instr.operation == 0x0 {
            self.zero(instr)
        } else if instr.operation == 0x1 {
            self.jump(instr).executed()
        } else if instr.operation == 0x2 {
            if self.push_fails() {
                self.failed(Chip8Error::StackOverflow)
            } else {
                self.push(instr).executed()
            }
        } else if instr.operation == 0x3 {
            self.skip_if_eq(instr).executed()
        } else if instr.operation == 0x4 {
            self.skip_if_neq(instr).executed()
        } else if instr.operation == 0x5 {
            self.skip_eq_reg(instr).executed()
        } else if instr.operation == 0x6 {
            self.set_register(instr).executed()
        } else if instr.operation == 0x7 {
            self.add_register(instr).executed()
        } else if instr.operation == 0x8 {
            self.eight(instr)
        } else if instr.operation == 0x9 {
            self.skip_neq_reg(instr).executed()
        } else if instr.operation == 0xA {
            self.set_index(instr).executed()
        } else if instr.operation == 0xB {
            self.offset_jump(instr).executed()
        } else if instr.operation == 0xC {
            self.random_with(instr, random).executed()
        } else if instr.operation == 0xD {
            if self.draw_fails(instr) {
                self.failed(Chip8Error::OutOfBoundsMemoryAccess)
            } else {
                self.draw(instr).executed()
            }
        } else if instr.operation == 0xE {
            self.skip_key(instr)
        } else {
            self.f(instr)
        }
    }

    /// Why the word at the program counter cannot be fetched, if it cannot:
    /// one of its two bytes lies outside memory, or it starts at an odd
    /// address.
    pub open spec fn fetch_error(self) -> Option<Chip8Error> {
        if self.pc + 1 >= MEM_SIZE {
            Some(Chip8Error::OutOfBoundsMemoryAccess)
        } else if self.pc % 2 != 0 {
            Some(Chip8Error::MisalignedProgramCounter)
        } else {
            None
        }
    }

    /// The word at the program counter, high byte first.
    pub open spec fn fetched_word(self) -> u16 {
        (self.memory[self.pc] * 0x100 + self.memory[self.pc + 1]) as u16
    }

    /// The instruction at the program counter.
    pub open spec fn fetched(self) -> Instruction {
        decode_word(self.fetched_word())
    }

    /// One cycle: fetch the word at the program counter, move the program
    /// counter past it, decode, execute. A cycle that fails leaves the state
    /// as it was.
    pub open spec fn tick(self, random: u8) -> Step {
        match self.fetch_error() {
            Some(error) => self.failed(error),
            None => {
                let step = self.advanced(2).exec(self.fetched(), random);
                if step.result is Err {
                    Step { state: self, result: step.result }
                } else {
                    step
                }
            },
        }
    }

    /// The state after one cycle for each byte of `randoms`, in order. A
    /// cycle that fails changes nothing.
    pub open spec fn run(self, randoms: Seq<u8>) -> MachineState
        decreases randoms.len(),
    {
        if randoms.len() == 0 {
            self
        } else {
            self.run(randoms.drop_last()).tick(randoms.last()).state
        }
    }
}

/// The lowest pressed key is what `lowest_pressed` gives: a key that is
/// down, with none below it down, is the only such key.
pub proof fn lemma_lowest_pressed_is(s: MachineState, key: int)
    requires
        s.is_lowest_pressed(key),
    ensures
        s.lowest_pressed() == Some(key),
{
    let chosen = choose|k: int| s.is_lowest_pressed(k);
    assert(s.is_lowest_pressed(chosen));
    assert(!(chosen < key) && !(key < chosen));
}

/// With no key down, `lowest_pressed` gives none.
pub proof fn lemma_no_key_pressed(s: MachineState)
    requires
        forall|key: int| 0 <= key < KEYS ==> !s.key_pressed(key),
    ensures
        s.lowest_pressed() is None,
{
}

} // verus!
