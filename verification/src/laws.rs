//! What holds of the machine whatever the program: laws of the model,
//! each proved from the definitions of the operations.

use vstd::prelude::*;
use crate::error::{Chip8Error, Outcome};
use crate::instructions::{lemma_decode_wf, lemma_wf_is_decoded, Instruction};
use crate::machine::PixelState;
use crate::model::{
    lemma_lowest_pressed_is, lemma_no_key_pressed, MachineState, FLAG, FONT_OFFSET, KEYS, PIXELS,
    REGISTERS,
};

verus! {

/// For every register `x` and every byte `nn`, a cycle on the word `6XNN`
/// sets register `x` to `nn`, leaves every other register as it was, moves
/// the program counter to the next instruction and changes nothing else.
pub proof fn lemma_set_register_cycle(s: MachineState, x: u8, nn: u8, random: u8)
    requires
        s.wf(),
        s.fetch_error() is None,
        x < 16,
        s.fetched_word() == 0x6000 + x * 0x100 + nn,
    ensures
        s.tick(random).result == Ok::<Outcome, Chip8Error>(Outcome::Executed),
        s.tick(random).state == s.advanced(2).with_register(x as int, nn),
        s.tick(random).state.registers[x as int] == nn,
        forall|r: int|
            0 <= r < REGISTERS && r != x ==> s.tick(random).state.registers[r] == s.registers[r],
{
    let instr = Instruction {
        operation: 0x6,
        x,
        y: nn / 0x10,
        n: nn % 0x10,
        nn,
        nnn: (x * 0x100 + nn) as u16,
    };
    lemma_wf_is_decoded(instr);
    assert(s.fetched() == instr);
}

/// `6XNN` on its own: register `x` holds `nn` afterwards, and no other
/// register has changed.
pub proof fn lemma_set_register(s: MachineState, instr: Instruction)
    requires
        s.wf(),
        instr.wf(),
    ensures
        s.set_register(instr).registers[instr.x as int] == instr.nn,
        forall|r: int|
            0 <= r < REGISTERS && r != instr.x ==> s.set_register(instr).registers[r]
                == s.registers[r],
        s.set_register(instr) == (MachineState {
            registers: s.set_register(instr).registers,
            ..s
        }),
{
}

/// A call followed by a return gives back the state before the call,
/// program counter and stack alike. The return consumes the address: if
/// the stack was empty before the call, a second return fails.
pub proof fn lemma_push_pop_round_trip(s: MachineState, instr: Instruction)
    requires
        !s.push_fails(),
    ensures
        !s.push(instr).pop_fails(),
        s.push(instr).pop() == s,
        s.push(instr).pop().pc == s.pc,
        s.pop_fails() ==> s.push(instr).pop().pop_fails(),
{
    assert(s.push(instr).pop().stack =~= s.stack);
}

/// Drawing the same sprite twice in the same place gives back the display
/// as it was. The second draw reports a collision exactly if the sprite has
/// a pixel on a cell that was off before the first draw.
///
/// The place is the same whenever neither `Vx` nor `Vy` is `VF`, the one
/// register that the first draw writes.
pub proof fn lemma_draw_twice(s: MachineState, instr: Instruction)
    requires
        s.wf(),
        instr.wf(),
        !s.draw_fails(instr),
        s.draw(instr).sprite_left(instr) == s.sprite_left(instr),
        s.draw(instr).sprite_top(instr) == s.sprite_top(instr),
    ensures
        !s.draw(instr).draw_fails(instr),
        s.draw(instr).draw(instr).display == s.display,
        s.draw(instr).draw(instr).registers[FLAG as int] == 1 <==> exists|cell: int|
            0 <= cell < PIXELS && s.display[cell] == PixelState::OFF && #[trigger] s.sprite_covers(
                instr,
                cell,
            ),
{
    let once = s.draw(instr);
    // The second draw finds the sprite where the first put it.
    assert forall|cell: int| 0 <= cell < PIXELS implies once.sprite_covers(instr, cell)
        == s.sprite_covers(instr, cell) by {}
    assert(once.draw(instr).display =~= s.display);
    // It collides on the cells that the first draw lit, and on no others.
    if once.draw_collides(instr) {
        let cell = choose|cell: int|
            0 <= cell < PIXELS && once.display[cell] == PixelState::ON
                && #[trigger] once.sprite_covers(instr, cell);
        assert(s.sprite_covers(instr, cell) && s.display[cell] == PixelState::OFF);
    }
    if exists|cell: int|
        0 <= cell < PIXELS && s.display[cell] == PixelState::OFF && #[trigger] s.sprite_covers(
            instr,
            cell,
        ) {
        let cell = choose|cell: int|
            0 <= cell < PIXELS && s.display[cell] == PixelState::OFF && #[trigger] s.sprite_covers(
                instr,
                cell,
            );
        assert(once.sprite_covers(instr, cell) && once.display[cell] == PixelState::ON);
    }
}

/// Where neither coordinate register is `VF`, the second of two draws is
/// in the same place as the first.
pub proof fn lemma_draw_keeps_place(s: MachineState, instr: Instruction)
    requires
        s.wf(),
        instr.wf(),
        instr.x != FLAG,
        instr.y != FLAG,
    ensures
        s.draw(instr).sprite_left(instr) == s.sprite_left(instr),
        s.draw(instr).sprite_top(instr) == s.sprite_top(instr),
{
}

/// While no key is down, a cycle on `FX0A` leaves the state as it was: the
/// program counter has not moved, so the next cycle waits again.
pub proof fn lemma_get_key_waits(s: MachineState, random: u8)
    requires
        s.wf(),
        s.fetch_error() is None,
        s.fetched().operation == 0xF,
        s.fetched().nn == 0x0A,
        forall|key: int| 0 <= key < KEYS ==> !s.key_pressed(key),
    ensures
        s.tick(random).state == s,
        s.tick(random).result == Ok::<Outcome, Chip8Error>(Outcome::Executed),
{
    let advanced = s.advanced(2);
    assert forall|key: int| 0 <= key < KEYS implies !advanced.key_pressed(key) by {
        assert(!s.key_pressed(key));
    }
    lemma_no_key_pressed(advanced);
}

/// While no key is down, any number of cycles on `FX0A` leave the state as
/// it was.
pub proof fn lemma_get_key_keeps_waiting(s: MachineState, randoms: Seq<u8>)
    requires
        s.wf(),
        s.fetch_error() is None,
        s.fetched().operation == 0xF,
        s.fetched().nn == 0x0A,
        forall|key: int| 0 <= key < KEYS ==> !s.key_pressed(key),
    ensures
        s.run(randoms) == s,
    decreases randoms.len(),
{
    if randoms.len() > 0 {
        lemma_get_key_keeps_waiting(s, randoms.drop_last());
        lemma_get_key_waits(s, randoms.last());
    }
}

/// With a key down, a cycle on `FX0A` stores the number of the lowest such
/// key in `Vx` and moves the program counter to the next instruction.
pub proof fn lemma_get_key_takes_key(s: MachineState, key: int, random: u8)
    requires
        s.wf(),
        s.fetch_error() is None,
        s.fetched().operation == 0xF,
        s.fetched().nn == 0x0A,
        s.is_lowest_pressed(key),
    ensures
        s.tick(random).state == s.advanced(2).with_register(s.fetched().x as int, key as u8),
        s.tick(random).state.registers[s.fetched().x as int] == key,
        s.tick(random).state.pc == s.pc + 2,
        s.tick(random).result == Ok::<Outcome, Chip8Error>(Outcome::Executed),
{
    let advanced = s.advanced(2);
    assert forall|lower: int| 0 <= lower < key implies !advanced.key_pressed(lower) by {
        assert(!s.key_pressed(lower));
    }
    lemma_lowest_pressed_is(advanced, key);
}

/// The glyph of digit `digit` is five bytes after that of the digit before
/// it, the first at `FONT_OFFSET`.
pub proof fn lemma_glyph_address(s: MachineState, instr: Instruction, digit: int)
    requires
        0 <= digit < 16,
        s.vx(instr) == digit,
    ensures
        s.get_font(instr).index == FONT_OFFSET + digit * 5,
{
}

/// A cycle keeps the machine in shape: in particular the stack never
/// holds more return addresses than its limit, whatever the cycle did and
/// however it ended.
pub proof fn lemma_tick_keeps_shape(s: MachineState, random: u8)
    requires
        s.wf(),
    ensures
        s.tick(random).state.wf(),
        s.tick(random).state.stack.len() <= s.stack_limit,
        s.tick(random).state.stack_limit == s.stack_limit,
{
    lemma_decode_wf(s.fetched_word());
}

/// Only clearing and drawing change the display: after a cycle on any
/// other instruction every cell is as it was.
pub proof fn lemma_display_changes_by_clear_and_draw(s: MachineState, random: u8)
    requires
        s.wf(),
        s.fetch_error() is None,
        s.fetched().operation != 0xD,
        !(s.fetched().operation == 0x0 && s.fetched().nn == 0xE0),
    ensures
        s.tick(random).state.display == s.display,
{
}

} // verus!
