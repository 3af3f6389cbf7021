//! The operation table: one method for each operation, and one for each
//! group that dispatches on a secondary discriminant. Each does to the
//! machine what the model's function of the same name does to a state.

use vstd::prelude::*;
use crate::error::{Chip8Error, Outcome};
use crate::instructions::Instruction;
use crate::machine::{Chip8, KeyState, PixelState};
use crate::model::{
    lemma_lowest_pressed_is, lemma_no_key_pressed, MachineState, ADD, DISPLAY_HEIGHT,
    DISPLAY_WIDTH, FLAG, FONT_OFFSET, GLYPH_SIZE, KEYS, MEM_SIZE, PIXELS, SHIFT_LEFT,
    SHIFT_RIGHT, SUB_XY, SUB_YX,
};

verus! {

/// Whether `cell` lies under a sprite pixel that a draw has reached once it
/// has done `rows` whole rows and `columns` pixels of the next.
spec fn drawn_before(
    s: MachineState,
    instr: Instruction,
    cell: int,
    rows: int,
    columns: int,
) -> bool {
    let column = cell % DISPLAY_WIDTH as int - s.sprite_left(instr);
    let row = cell / DISPLAY_WIDTH as int - s.sprite_top(instr);
    s.sprite_covers(instr, cell) && (row < rows || (row == rows && column < columns))
}

/// What a cell shows once the sprite pixels that `drawn_before` names have
/// been drawn onto the display of `s`.
spec fn shown_after(
    s: MachineState,
    instr: Instruction,
    cell: int,
    rows: int,
    columns: int,
) -> PixelState {
    if drawn_before(s, instr, cell, rows, columns) {
        s.display[cell].toggled()
    } else {
        s.display[cell]
    }
}

/// Whether one of the sprite pixels that `drawn_before` names fell on a lit
/// cell of `s`.
spec fn collided_before(s: MachineState, instr: Instruction, rows: int, columns: int) -> bool {
    exists|cell: int|
        0 <= cell < PIXELS && s.display[cell] == PixelState::ON && #[trigger] drawn_before(
            s,
            instr,
            cell,
            rows,
            columns,
        )
}

/// How the collision flag follows the pixels drawn: when the drawing moves
/// on from one point to the next and on the way draws at most the pixel on
/// `here`, a collision is known at the next point if one was known before
/// or that pixel fell on a lit cell.
proof fn lemma_collision_step(
    s: MachineState,
    instr: Instruction,
    rows: int,
    columns: int,
    next_rows: int,
    next_columns: int,
    here: int,
    drew: bool,
)
    requires
        drew ==> 0 <= here < PIXELS,
        forall|cell: int|
            #![trigger drawn_before(s, instr, cell, next_rows, next_columns)]
            #![trigger drawn_before(s, instr, cell, rows, columns)]
            0 <= cell < PIXELS ==> drawn_before(s, instr, cell, next_rows, next_columns) == (
            drawn_before(s, instr, cell, rows, columns) || (cell == here && drew)),
    ensures
        collided_before(s, instr, next_rows, next_columns) == (collided_before(
            s,
            instr,
            rows,
            columns,
        ) || (drew && s.display[here] == PixelState::ON)),
{
    if collided_before(s, instr, rows, columns) {
        let cell = choose|cell: int|
            0 <= cell < PIXELS && s.display[cell] == PixelState::ON && #[trigger] drawn_before(
                s,
                instr,
                cell,
                rows,
                columns,
            );
        assert(drawn_before(s, instr, cell, next_rows, next_columns));
    }
    if drew && s.display[here] == PixelState::ON {
        assert(drawn_before(s, instr, here, next_rows, next_columns));
    }
}

/// Once all rows are done, a collision is known exactly if the whole sprite
/// collides.
proof fn lemma_collision_whole(s: MachineState, instr: Instruction)
    ensures
        collided_before(s, instr, instr.n as int, 0) == s.draw_collides(instr),
{
    if collided_before(s, instr, instr.n as int, 0) {
        let cell = choose|cell: int|
            0 <= cell < PIXELS && s.display[cell] == PixelState::ON && #[trigger] drawn_before(
                s,
                instr,
                cell,
                instr.n as int,
                0,
            );
        assert(s.sprite_covers(instr, cell));
    }
    if s.draw_collides(instr) {
        let cell = choose|cell: int|
            0 <= cell < PIXELS && s.display[cell] == PixelState::ON && #[trigger] s.sprite_covers(
                instr,
                cell,
            );
        assert(drawn_before(s, instr, cell, instr.n as int, 0));
    }
}

/// One byte from `rand::random`, which draws from the generator that the
/// thread keeps and the system has seeded. Nothing is claimed of the byte:
/// it may be any.
#[verifier::external_body]
pub(crate) fn random_byte() -> (byte: u8) {
    rand::random::<u8>()
}

impl Chip8 {
    /// The `0NNN` group: `E0` clears the display, `EE` returns from a
    /// subroutine. Any other `nn` is reported and changes nothing.
    pub fn zero(&mut self, instr: Instruction) -> (result: Result<Outcome, Chip8Error>)
        ensures
            final(self)@ == old(self)@.zero(instr).state,
            result == old(self)@.zero(instr).result,
            final(self)@.wf(),
    {
        proof {
            use_type_invariant(&*self);
        }
        if instr.nn == 0xE0 {
            self.clear(instr);
            Ok(Outcome::Executed)
        } else if instr.nn == 0xEE {
            match self.pop(instr) {
                Ok(()) => Ok(Outcome::Executed),
                Err(error) => Err(error),
            }
        } else {
            Ok(Outcome::UnknownSecondaryOpcode(instr))
        }
    }

    /// `00E0`: turns every cell of the display off.
    pub fn clear(&mut self, instr: Instruction)
        ensures
            final(self)@ == old(self)@.clear(),
            final(self)@.wf(),
    {
        proof {
            use_type_invariant(&*self);
        }
        self.display = [PixelState::OFF;PIXELS];
    }

    /// `00EE`: returns from a subroutine. The newest return address leaves
    /// the stack and becomes the program counter. With the stack empty the
    /// return is refused and nothing changes.
    pub fn pop(&mut self, instr: Instruction) -> (result: Result<(), Chip8Error>)
        ensures
            old(self)@.pop_fails() ==> result == Err::<(), Chip8Error>(
                Chip8Error::StackUnderflow,
            ) && final(self)@ == old(self)@,
            !old(self)@.pop_fails() ==> result is Ok && final(self)@ == old(self)@.pop(),
            final(self)@.wf(),
    {
        proof {
            use_type_invariant(&*self);
        }
        // The stack is taken out while it shrinks, as it is while it grows
        // in `push`.
        let mut stack: Vec<usize> = Vec::new();
        core::mem::swap(&mut self.stack, &mut stack);
        let top = stack.pop();
        core::mem::swap(&mut self.stack, &mut stack);
        match top {
            Some(address) => {
                self.pc = address;
                Ok(())
            },
            None => Err(Chip8Error::StackUnderflow),
        }
    }

    /// `1NNN`: jump to `nnn`.
    pub fn jump(&mut self, instr: Instruction)
        ensures
            final(self)@ == old(self)@.jump(instr),
            final(self)@.wf(),
    {
        proof {
            use_type_invariant(&*self);
        }
        self.pc = instr.nnn as usize;
    }

    /// `2NNN`: calls the subroutine at `nnn`. The program counter goes onto
    /// the stack and `nnn` takes its place. With the stack at its limit the
    /// call is refused and nothing changes.
    pub fn push(&mut self, instr: Instruction) -> (result: Result<(), Chip8Error>)
        ensures
            old(self)@.push_fails() ==> result == Err::<(), Chip8Error>(
                Chip8Error::StackOverflow,
            ) && final(self)@ == old(self)@,
            !old(self)@.push_fails() ==> result is Ok && final(self)@ == old(self)@.push(instr),
            final(self)@.wf(),
    {
        proof {
            use_type_invariant(&*self);
        }
        if self.stack.len() >= self.stack_limit {
            return Err(Chip8Error::StackOverflow);
        }
        // The stack is taken out while it grows: a push that unwinds then
        // leaves the machine within its limit.
        let mut stack: Vec<usize> = Vec::new();
        core::mem::swap(&mut self.stack, &mut stack);
        stack.push(self.pc);
        core::mem::swap(&mut self.stack, &mut stack);
        self.pc = instr.nnn as usize;
        Ok(())
    }

    /// `3XNN`: skips the next instruction if `Vx == nn`.
    pub fn skip_if_eq(&mut self, instr: Instruction)
        requires
            instr.wf(),
            old(self)@.pc + 2 <= usize::MAX,
        ensures
            final(self)@ == old(self)@.skip_if_eq(instr),
            final(self)@.wf(),
    {
        proof {
            use_type_invariant(&*self);
        }
        if self.gp_reg[instr.x as usize] == instr.nn {
            self.pc += 2;
        }
    }

    /// `4XNN`: skips the next instruction if `Vx != nn`.
    pub fn skip_if_neq(&mut self, instr: Instruction)
        requires
            instr.wf(),
            old(self)@.pc + 2 <= usize::MAX,
        ensures
            final(self)@ == old(self)@.skip_if_neq(instr),
            final(self)@.wf(),
    {
        proof {
            use_type_invariant(&*self);
        }
        if self.gp_reg[instr.x as usize] != instr.nn {
            self.pc += 2;
        }
    }

    /// `5XY0`: skips the next instruction if `Vx == Vy`.
    pub fn skip_eq_reg(&mut self, instr: Instruction)
        requires
            instr.wf(),
            old(self)@.pc + 2 <= usize::MAX,
        ensures
            final(self)@ == old(self)@.skip_eq_reg(instr),
            final(self)@.wf(),
    {
        proof {
            use_type_invariant(&*self);
        }
        if self.gp_reg[instr.x as usize] == self.gp_reg[instr.y as usize] {
            self.pc += 2;
        }
    }

    /// `6XNN`: `Vx` becomes `nn`; no other register changes.
    pub fn set_register(&mut self, instr: Instruction)
        requires
            instr.wf(),
        ensures
            final(self)@ == old(self)@.set_register(instr),
            final(self)@.registers[instr.x as int] == instr.nn,
            forall|r: int|
                0 <= r < 16 && r != instr.x ==> final(self)@.registers[r] == old(self)@.registers[r],
            final(self)@.wf(),
    {
        proof {
            use_type_invariant(&*self);
        }
        self.gp_reg[instr.x as usize] = instr.nn;
    }

    /// `7XNN`: adds `nn` to `Vx` and holds the sum at 255. `VF` is left
    /// alone.
    pub fn add_register(&mut self, instr: Instruction)
        requires
            instr.wf(),
        ensures
            final(self)@ == old(self)@.add_register(instr),
            final(self)@.wf(),
    {
        proof {
            use_type_invariant(&*self);
        }
        let vx = self.gp_reg[instr.x as usize];
        self.gp_reg[instr.x as usize] = vx.saturating_add(instr.nn);
    }

    /// The `8XYN` group: `n` = 0 copies `Vy` to `Vx`, 1 to 3 combine the
    /// two bit by bit (or, and, xor) and touch no flag; the rest is the
    /// flagged arithmetic.
    pub fn eight(&mut self, instr: Instruction) -> (outcome: Outcome)
        requires
            instr.wf(),
        ensures
            final(self)@ == old(self)@.eight(instr).state,
            Ok::<Outcome, Chip8Error>(outcome) == old(self)@.eight(instr).result,
            final(self)@.wf(),
    {
        proof {
            use_type_invariant(&*self);
        }
        let x = instr.x as usize;
        let y = instr.y as usize;
        if instr.n == 0 {
            self.gp_reg[x] = self.gp_reg[y];
            Outcome::Executed
        } else if instr.n == 1 {
            self.gp_reg[x] = self.gp_reg[x] | self.gp_reg[y];
            Outcome::Executed
        } else if instr.n == 2 {
            self.gp_reg[x] = self.gp_reg[x] & self.gp_reg[y];
            Outcome::Executed
        } else if instr.n == 3 {
            self.gp_reg[x] = self.gp_reg[x] ^ self.gp_reg[y];
            Outcome::Executed
        } else {
            self.stateful_arithmetic(instr)
        }
    }

    /// The flagged arithmetic of the `8XYN` group: `n` = 4 adds `Vy` to
    /// `Vx` and holds the sum at 255, 5 and 7 subtract modulo 256, 6 and
    /// `E` shift `Vx` by one bit. `VF` is then overwritten with the carry,
    /// with 1 where no borrow was needed, or with the bit shifted out. Any
    /// other `n` is reported and changes nothing.
    pub fn stateful_arithmetic(&mut self, instr: Instruction) -> (outcome: Outcome)
        requires
            instr.wf(),
        ensures
            final(self)@ == old(self)@.stateful_arithmetic(instr).state,
            Ok::<Outcome, Chip8Error>(outcome) == old(self)@.stateful_arithmetic(instr).result,
            final(self)@.wf(),
    {
        proof {
            use_type_invariant(&*self);
        }
        let x = instr.x as usize;
        let y = instr.y as usize;
        let vx = self.gp_reg[x];
        let vy = self.gp_reg[y];
        let val: u8;
        let flag: u8;
        if instr.n == ADD {
            val = vx.saturating_add(vy);
            flag = if vx.checked_add(vy).is_none() { 1 } else { 0 };
        } else if instr.n == SUB_XY {
            val = vx.wrapping_sub(vy);
            flag = if vx.checked_sub(vy).is_none() { 0 } else { 1 };
        } else if instr.n == SUB_YX {
            val = vy.wrapping_sub(vx);
            flag = if vy.checked_sub(vx).is_none() { 0 } else { 1 };
        } else if instr.n == SHIFT_LEFT {
            val = vx << 1u8;
            flag = (vx >> 7u8) & 1;
            assert(vx << 1u8 == (vx * 2 % 0x100) as u8) by (bit_vector);
            assert((vx >> 7u8) & 1 == vx / 0x80) by (bit_vector);
        } else if instr.n == SHIFT_RIGHT {
            val = vx >> 1u8;
            flag = vx & 1;
            assert(vx >> 1u8 == vx / 2) by (bit_vector);
            assert(vx & 1 == vx % 2) by (bit_vector);
        } else {
            return Outcome::UnknownSecondaryOpcode(instr);
        }
        self.gp_reg[x] = val;
        self.gp_reg[FLAG] = flag;
        Outcome::Executed
    }

    /// `9XY0`: skips the next instruction if `Vx != Vy`.
    pub fn skip_neq_reg(&mut self, instr: Instruction)
        requires
            instr.wf(),
            old(self)@.pc + 2 <= usize::MAX,
        ensures
            final(self)@ == old(self)@.skip_neq_reg(instr),
            final(self)@.wf(),
    {
        proof {
            use_type_invariant(&*self);
        }
        if self.gp_reg[instr.x as usize] != self.gp_reg[instr.y as usize] {
            self.pc += 2;
        }
    }

    /// `ANNN`: `I` becomes `nnn`.
    pub fn set_index(&mut self, instr: Instruction)
        ensures
            final(self)@ == old(self)@.set_index(instr),
            final(self)@.wf(),
    {
        proof {
            use_type_invariant(&*self);
        }
        self.index = instr.nnn as usize;
    }

    /// `BNNN`: jumps to `V0 + nnn`.
    pub fn offset_jump(&mut self, instr: Instruction)
        ensures
            final(self)@ == old(self)@.offset_jump(instr),
            final(self)@.wf(),
    {
        proof {
            use_type_invariant(&*self);
        }
        self.pc = self.gp_reg[0] as usize + instr.nnn as usize;
    }

    /// `CXNN`: `Vx` becomes a random byte masked with `nn`.
    pub fn random(&mut self, instr: Instruction)
        requires
            instr.wf(),
        ensures
            exists|byte: u8| final(self)@ == old(self)@.random_with(instr, byte),
            final(self)@.wf(),
    {
        let byte = random_byte();
        self.random_with(instr, byte);
    }

    /// `CXNN`, with the random byte handed in: `Vx` becomes `random & nn`.
    pub fn random_with(&mut self, instr: Instruction, random: u8)
        requires
            instr.wf(),
        ensures
            final(self)@ == old(self)@.random_with(instr, random),
            final(self)@.wf(),
    {
        proof {
            use_type_invariant(&*self);
        }
        self.gp_reg[instr.x as usize] = random & instr.nn;
    }

    /// `DXYN`: draws the sprite of `n` rows that memory holds at `I`, its
    /// top left corner at column `Vx mod 64` of row `Vy mod 32`. A sprite
    /// pixel toggles the cell under it; what reaches past the right or the
    /// bottom edge is not drawn. `VF` becomes 1 if a lit cell went off, else
    /// 0. A sprite that is not wholly in memory is refused and nothing
    /// changes.
    pub fn draw(&mut self, instr: Instruction) -> (result: Result<(), Chip8Error>)
        requires
            instr.wf(),
        ensures
            old(self)@.draw_fails(instr) ==> result == Err::<(), Chip8Error>(
                Chip8Error::OutOfBoundsMemoryAccess,
            ) && final(self)@ == old(self)@,
            !old(self)@.draw_fails(instr) ==> result is Ok && final(self)@ == old(self)@.draw(
                instr,
            ),
            final(self)@.wf(),
    {
        proof {
            use_type_invariant(&*self);
        }
        let rows = instr.n as usize;
        if rows > 0 && self.index > MEM_SIZE - rows {
            return Err(Chip8Error::OutOfBoundsMemoryAccess);
        }
        let ghost before = self@;
        let left = (self.gp_reg[instr.x as usize] % 64) as usize;
        let top = (self.gp_reg[instr.y as usize] % 32) as usize;
        let mut collided = false;
        let mut row: usize = 0;
        while row < rows
            invariant
                instr.wf(),
                rows == instr.n,
                row <= rows,
                before.wf(),
                !before.draw_fails(instr),
                left == before.sprite_left(instr),
                top == before.sprite_top(instr),
                self@ == (MachineState { display: self@.display, ..before }),
                self.stack.len() <= self.stack_limit,
                forall|cell: int|
                    0 <= cell < PIXELS ==> #[trigger] self.display@[cell] == shown_after(
                        before,
                        instr,
                        cell,
                        row as int,
                        0,
                    ),
                collided == collided_before(before, instr, row as int, 0),
            decreases rows - row,
        {
            let y = top + row;
            if y < DISPLAY_HEIGHT {
                let sprite_row = self.memory[self.index + row];
                let mut column: u8 = 0;
                while column < 8
                    invariant
                        instr.wf(),
                        rows == instr.n,
                        row < rows,
                        column <= 8,
                        before.wf(),
                        !before.draw_fails(instr),
                        left == before.sprite_left(instr),
                        top == before.sprite_top(instr),
                        y == top + row,
                        y < DISPLAY_HEIGHT,
                        sprite_row == before.memory[before.index + row],
                        self@ == (MachineState { display: self@.display, ..before }),
                        self.stack.len() <= self.stack_limit,
                        forall|cell: int|
                            0 <= cell < PIXELS ==> #[trigger] self.display@[cell] == shown_after(
                                before,
                                instr,
                                cell,
                                row as int,
                                column as int,
                            ),
                        collided == collided_before(before, instr, row as int, column as int),
                    decreases 8 - column,
                {
                    let x = left + column as usize;
                    if x < DISPLAY_WIDTH && (sprite_row >> (7 - column)) & 1 == 1 {
                        let cell = x + y * DISPLAY_WIDTH;
                        if self.display[cell] == PixelState::ON {
                            self.display[cell] = PixelState::OFF;
                            collided = true;
                        } else {
                            self.display[cell] = PixelState::ON;
                        }
                    }
                    proof {
                        let here = x as int + y as int * DISPLAY_WIDTH as int;
                        let drew = x < DISPLAY_WIDTH && before.sprite_covers(instr, here);
                        assert forall|cell: int| 0 <= cell < PIXELS implies drawn_before(
                            before,
                            instr,
                            cell,
                            row as int,
                            column as int + 1,
                        ) == (drawn_before(before, instr, cell, row as int, column as int) || (cell
                            == here && drew)) by {}
                        lemma_collision_step(
                            before,
                            instr,
                            row as int,
                            column as int,
                            row as int,
                            column as int + 1,
                            here,
                            drew,
                        );
                    }
                    column += 1;
                }
            }
            proof {
                let reached: int = if y < DISPLAY_HEIGHT { 8 } else { 0 };
                assert forall|cell: int| 0 <= cell < PIXELS implies drawn_before(
                    before,
                    instr,
                    cell,
                    row as int + 1,
                    0,
                ) == drawn_before(before, instr, cell, row as int, reached) by {}
                lemma_collision_step(before, instr, row as int, reached, row as int + 1, 0, 0, false);
            }
            row += 1;
        }
        self.gp_reg[FLAG] = if collided { 1 } else { 0 };
        proof {
            lemma_collision_whole(before, instr);
            assert(self@ =~= before.draw(instr));
        }
        Ok(())
    }

    /// `EX9E` skips the next instruction if the key whose number is in `Vx`
    /// is down, `EXA1` if it is not. A number above 15 names no key, and
    /// no key is never down. Any other `nn` is reported and changes
    /// nothing.
    pub fn skip_key(&mut self, instr: Instruction) -> (outcome: Outcome)
        requires
            instr.wf(),
            old(self)@.pc + 2 <= usize::MAX,
        ensures
            final(self)@ == old(self)@.skip_key(instr).state,
            Ok::<Outcome, Chip8Error>(outcome) == old(self)@.skip_key(instr).result,
            final(self)@.wf(),
    {
        proof {
            use_type_invariant(&*self);
        }
        let key = self.gp_reg[instr.x as usize] as usize;
        let pressed = key < KEYS && self.keypad[key] == KeyState::ON;
        if instr.nn == 0x9E {
            if pressed {
                self.pc += 2;
            }
            Outcome::Executed
        } else if instr.nn == 0xA1 {
            if !pressed {
                self.pc += 2;
            }
            Outcome::Executed
        } else {
            Outcome::UnknownSecondaryOpcode(instr)
        }
    }

    /// The `FXNN` group: `07`, `15` and `18` move a timer, `1E` adds to the
    /// index, `0A` waits for a key, `29` finds a glyph, `33` writes decimal
    /// digits, `55` and `65` move registers to and from memory. Any other
    /// `nn` is reported and changes nothing.
    pub fn f(&mut self, instr: Instruction) -> (result: Result<Outcome, Chip8Error>)
        requires
            instr.wf(),
            instr.nn == 0x0A && old(self)@.lowest_pressed() is None ==> old(self)@.pc >= 2,
        ensures
            final(self)@ == old(self)@.f(instr).state,
            result == old(self)@.f(instr).result,
            final(self)@.wf(),
    {
        proof {
            use_type_invariant(&*self);
        }
        if instr.nn == 0x07 || instr.nn == 0x15 || instr.nn == 0x18 {
            Ok(self.timers(instr))
        } else if instr.nn == 0x1E {
            self.add_to_index(instr);
            Ok(Outcome::Executed)
        } else if instr.nn == 0x0A {
            self.get_key(instr);
            Ok(Outcome::Executed)
        } else if instr.nn == 0x29 {
            self.get_font(instr);
            Ok(Outcome::Executed)
        } else if instr.nn == 0x33 {
            match self.decimal_conversion(instr) {
                Ok(()) => Ok(Outcome::Executed),
                Err(error) => Err(error),
            }
        } else if instr.nn == 0x55 {
            match self.store(instr) {
                Ok(()) => Ok(Outcome::Executed),
                Err(error) => Err(error),
            }
        } else if instr.nn == 0x65 {
            match self.load(instr) {
                Ok(()) => Ok(Outcome::Executed),
                Err(error) => Err(error),
            }
        } else {
            Ok(Outcome::UnknownSecondaryOpcode(instr))
        }
    }

    /// `FX07` copies the delay timer to `Vx`, `FX15` copies `Vx` to the
    /// delay timer, `FX18` copies `Vx` to the sound timer. Any other `nn`
    /// is reported and changes nothing.
    pub fn timers(&mut self, instr: Instruction) -> (outcome: Outcome)
        requires
            instr.wf(),
        ensures
            final(self)@ == old(self)@.timers(instr).state,
            Ok::<Outcome, Chip8Error>(outcome) == old(self)@.timers(instr).result,
            final(self)@.wf(),
    {
        proof {
            use_type_invariant(&*self);
        }
        if instr.nn == 0x07 {
            self.gp_reg[instr.x as usize] = self.delay_timer;
            Outcome::Executed
        } else if instr.nn == 0x15 {
            self.delay_timer = self.gp_reg[instr.x as usize];
            Outcome::Executed
        } else if instr.nn == 0x18 {
            self.sound_timer = self.gp_reg[instr.x as usize];
            Outcome::Executed
        } else {
            Outcome::UnknownSecondaryOpcode(instr)
        }
    }

    /// `FX0A`: waits for a key. With a key down, `Vx` takes the number of
    /// the lowest one. With none, the program counter goes back by one
    /// instruction, so that the next cycle meets this instruction again.
    pub fn get_key(&mut self, instr: Instruction)
        requires
            instr.wf(),
            old(self)@.lowest_pressed() is None ==> old(self)@.pc >= 2,
        ensures
            final(self)@ == old(self)@.get_key(instr),
            final(self)@.wf(),
    {
        proof {
            use_type_invariant(&*self);
        }
        let mut key: usize = 0;
        while key < KEYS && self.keypad[key] != KeyState::ON
            invariant
                key <= KEYS,
                self == old(self),
                forall|lower: int| 0 <= lower < key ==> !self@.key_pressed(lower),
            decreases KEYS - key,
        {
            key += 1;
        }
        if key < KEYS {
            proof {
                lemma_lowest_pressed_is(self@, key as int);
            }
            self.gp_reg[instr.x as usize] = key as u8;
        } else {
            proof {
                lemma_no_key_pressed(self@);
            }
            self.pc -= 2;
        }
    }

    /// `FX1E`: adds `Vx` to `I`, holding the sum at the largest `usize`.
    pub fn add_to_index(&mut self, instr: Instruction)
        requires
            instr.wf(),
        ensures
            final(self)@ == old(self)@.add_to_index(instr),
            final(self)@.wf(),
    {
        proof {
            use_type_invariant(&*self);
        }
        let vx = self.gp_reg[instr.x as usize];
        self.index = self.index.saturating_add(vx as usize);
    }

    /// `FX29`: `I` becomes the address of the glyph for the low digit of
    /// `Vx`: `FONT_OFFSET` + 5 times the digit.
    pub fn get_font(&mut self, instr: Instruction)
        requires
            instr.wf(),
        ensures
            final(self)@ == old(self)@.get_font(instr),
            final(self)@.index == FONT_OFFSET + 5 * (old(self)@.vx(instr) % 16),
            final(self)@.wf(),
    {
        proof {
            use_type_invariant(&*self);
        }
        let vx = self.gp_reg[instr.x as usize];
        let character = vx & 0xF;
        assert(vx & 0xF == vx % 0x10) by (bit_vector);
        self.index = character as usize * GLYPH_SIZE + FONT_OFFSET;
    }

    /// `FX33`: writes the hundreds, tens and ones of `Vx` to memory at `I`,
    /// `I + 1` and `I + 2`. Where one of the three lies outside memory,
    /// the write is refused and nothing changes.
    pub fn decimal_conversion(&mut self, instr: Instruction) -> (result: Result<
        (),
        Chip8Error,
    >)
        requires
            instr.wf(),
        ensures
            old(self)@.decimal_conversion_fails() ==> result == Err::<(), Chip8Error>(
                Chip8Error::OutOfBoundsMemoryAccess,
            ) && final(self)@ == old(self)@,
            !old(self)@.decimal_conversion_fails() ==> result is Ok && final(self)@ == old(
                self,
            )@.decimal_conversion(instr),
            final(self)@.wf(),
    {
        proof {
            use_type_invariant(&*self);
        }
        if self.index >= MEM_SIZE - 2 {
            return Err(Chip8Error::OutOfBoundsMemoryAccess);
        }
        let vx = self.gp_reg[instr.x as usize];
        self.memory[self.index] = vx / 100;
        self.memory[self.index + 1] = vx / 10 % 10;
        self.memory[self.index + 2] = vx % 10;
        Ok(())
    }

    /// `FX55`: copies `V0` to `Vx` to memory at `I` to `I + x`. Where one
    /// of these bytes lies outside memory, the copy is refused and nothing
    /// changes.
    pub fn store(&mut self, instr: Instruction) -> (result: Result<(), Chip8Error>)
        requires
            instr.wf(),
        ensures
            old(self)@.transfer_fails(instr) ==> result == Err::<(), Chip8Error>(
                Chip8Error::OutOfBoundsMemoryAccess,
            ) && final(self)@ == old(self)@,
            !old(self)@.transfer_fails(instr) ==> result is Ok && final(self)@ == old(
                self,
            )@.store(instr),
            final(self)@.wf(),
    {
        proof {
            use_type_invariant(&*self);
        }
        let last = instr.x as usize;
        if self.index >= MEM_SIZE - last {
            return Err(Chip8Error::OutOfBoundsMemoryAccess);
        }
        let ghost before = self@;
        let mut i: usize = 0;
        while i <= last
            invariant
                last == instr.x,
                last < 16,
                i <= last + 1,
                before.index + last < MEM_SIZE,
                before.wf(),
                self.stack.len() <= self.stack_limit,
                self@ == (MachineState { memory: self@.memory, ..before }),
                forall|a: int|
                    0 <= a < MEM_SIZE ==> #[trigger] self@.memory[a] == if before.index <= a
                        < before.index + i {
                        before.registers[a - before.index]
                    } else {
                        before.memory[a]
                    },
            decreases last + 1 - i,
        {
            self.memory[self.index + i] = self.gp_reg[i];
            i += 1;
        }
        Ok(())
    }

    /// `FX65`: copies memory at `I` to `I + x` to `V0` to `Vx`. Where one
    /// of these bytes lies outside memory, the copy is refused and nothing
    /// changes.
    pub fn load(&mut self, instr: Instruction) -> (result: Result<(), Chip8Error>)
        requires
            instr.wf(),
        ensures
            old(self)@.transfer_fails(instr) ==> result == Err::<(), Chip8Error>(
                Chip8Error::OutOfBoundsMemoryAccess,
            ) && final(self)@ == old(self)@,
            !old(self)@.transfer_fails(instr) ==> result is Ok && final(self)@ == old(
                self,
            )@.load(instr),
            final(self)@.wf(),
    {
        proof {
            use_type_invariant(&*self);
        }
        let last = instr.x as usize;
        if self.index >= MEM_SIZE - last {
            return Err(Chip8Error::OutOfBoundsMemoryAccess);
        }
        let ghost before = self@;
        let mut i: usize = 0;
        while i <= last
            invariant
                last == instr.x,
                last < 16,
                i <= last + 1,
                before.index + last < MEM_SIZE,
                before.wf(),
                self.stack.len() <= self.stack_limit,
                self@ == (MachineState { registers: self@.registers, ..before }),
                forall|r: int|
                    0 <= r < 16 ==> #[trigger] self@.registers[r] == if r < i {
                        before.memory[before.index + r]
                    } else {
                        before.registers[r]
                    },
            decreases last + 1 - i,
        {
            self.gp_reg[i] = self.memory[self.index + i];
            i += 1;
        }
        Ok(())
    }
}

} // verus!
