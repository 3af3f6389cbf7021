use chip8_emulator::instructions::Instruction;
use chip8_emulator::{Chip8, Chip8Error, KeyState, Outcome, PixelState};

fn instr(text: &str) -> Instruction {
    Instruction::from_str(text).unwrap()
}

#[test]
fn call_and_return_end_to_end() {
    let mut chip8 = Chip8::new(&[]).unwrap();
    assert_eq!(chip8.push(instr("2390")), Ok(()));
    assert_eq!(chip8.get_pc(), 0x390);
    assert_eq!(chip8.get_top_of_stack(), 0x200);
    assert_eq!(chip8.pop(instr("0000")), Ok(()));
    assert_eq!(chip8.get_pc(), 0x200);
}

#[test]
fn tick_reads_the_word_high_byte_first() {
    let mut chip8 = Chip8::new(&[0x6A, 0xBC]).unwrap();
    assert_eq!(chip8.fetch(), Ok(Instruction::decode(0x6ABC)));
    assert_eq!(chip8.get_pc(), 0x200);
    assert_eq!(chip8.tick(), Ok(Outcome::Executed));
    assert_eq!(chip8.get_register(0xA), 0xBC);
    assert_eq!(chip8.get_pc(), 0x202);
}

#[test]
fn tick_sets_any_register_to_any_value() {
    for x in 0..16u8 {
        for nn in 0..=255u8 {
            let mut chip8 = Chip8::new(&[0x60 | x, nn]).unwrap();
            assert_eq!(chip8.tick(), Ok(Outcome::Executed));
            for r in 0..16 {
                let expected = if r == x as usize { nn } else { 0 };
                assert_eq!(chip8.get_register(r), expected);
            }
        }
    }
}

#[test]
fn call_pushes_the_address_after_the_call() {
    let rom = [0x23, 0x90];
    let mut chip8 = Chip8::new(&rom).unwrap();
    assert_eq!(chip8.tick(), Ok(Outcome::Executed));
    assert_eq!(chip8.get_pc(), 0x390);
    assert_eq!(chip8.get_top_of_stack(), 0x202);
    assert_eq!(chip8.get_stack_depth(), 1);
}

#[test]
fn a_subroutine_returns_behind_its_call() {
    // 0x200: call 0x206; 0x202: V1 := 2; 0x206: V0 := 1; 0x208: return
    let rom = [0x22, 0x06, 0x61, 0x02, 0x00, 0x00, 0x60, 0x01, 0x00, 0xEE];
    let mut chip8 = Chip8::new(&rom).unwrap();
    assert_eq!(chip8.tick(), Ok(Outcome::Executed));
    assert_eq!(chip8.get_pc(), 0x206);
    assert_eq!(chip8.tick(), Ok(Outcome::Executed));
    assert_eq!(chip8.tick(), Ok(Outcome::Executed));
    assert_eq!(chip8.get_pc(), 0x202);
    assert_eq!(chip8.get_stack_depth(), 0);
    assert_eq!(chip8.tick(), Ok(Outcome::Executed));
    assert_eq!(chip8.get_register(0), 1);
    assert_eq!(chip8.get_register(1), 2);
}

#[test]
fn skips_are_relative_to_the_next_instruction() {
    // 0x200: skip if V0 == 0; 0x202: V1 := 1; 0x204: V2 := 2
    let rom = [0x30, 0x00, 0x61, 0x01, 0x62, 0x02];
    let mut chip8 = Chip8::new(&rom).unwrap();
    assert_eq!(chip8.tick(), Ok(Outcome::Executed));
    assert_eq!(chip8.get_pc(), 0x204);
    assert_eq!(chip8.tick(), Ok(Outcome::Executed));
    assert_eq!(chip8.get_register(1), 0);
    assert_eq!(chip8.get_register(2), 2);
}

#[test]
fn get_key_blocks_until_a_key_is_down() {
    let rom = [0xF4, 0x0A, 0x65, 0x01];
    let mut chip8 = Chip8::new(&rom).unwrap();
    for _ in 0..10 {
        assert_eq!(chip8.tick(), Ok(Outcome::Executed));
        assert_eq!(chip8.get_pc(), 0x200);
        assert_eq!(chip8.get_register(4), 0);
    }
    chip8.set_key_state(0xB, KeyState::ON);
    assert_eq!(chip8.tick(), Ok(Outcome::Executed));
    assert_eq!(chip8.get_register(4), 0xB);
    assert_eq!(chip8.get_pc(), 0x202);
    assert_eq!(chip8.tick(), Ok(Outcome::Executed));
    assert_eq!(chip8.get_register(5), 1);
}

#[test]
fn an_unknown_secondary_opcode_costs_one_cycle() {
    let rom = [0x00, 0x00, 0x8A, 0xB9, 0xE1, 0x00, 0xF2, 0x99, 0x63, 0x07];
    let mut chip8 = Chip8::new(&rom).unwrap();
    for (word, next) in [(0x0000, 0x202), (0x8AB9, 0x204), (0xE100, 0x206), (0xF299, 0x208)] {
        assert_eq!(
            chip8.tick(),
            Ok(Outcome::UnknownSecondaryOpcode(Instruction::decode(word)))
        );
        assert_eq!(chip8.get_pc(), next);
    }
    assert_eq!(chip8.tick(), Ok(Outcome::Executed));
    assert_eq!(chip8.get_register(3), 7);
    for r in 0..16 {
        if r != 3 {
            assert_eq!(chip8.get_register(r), 0);
        }
    }
}

#[test]
fn a_return_without_a_call_halts_the_cycle() {
    let rom = [0x00, 0xEE];
    let mut chip8 = Chip8::new(&rom).unwrap();
    assert_eq!(chip8.tick(), Err(Chip8Error::StackUnderflow));
    assert_eq!(chip8.get_pc(), 0x200);
    assert_eq!(chip8.tick(), Err(Chip8Error::StackUnderflow));
}

#[test]
fn a_call_too_deep_halts_the_cycle() {
    // 0x200: call 0x200
    let rom = [0x22, 0x00];
    let mut chip8 = Chip8::with_stack_limit(&rom, 3).unwrap();
    for depth in 1..=3 {
        assert_eq!(chip8.tick(), Ok(Outcome::Executed));
        assert_eq!(chip8.get_stack_depth(), depth);
        assert_eq!(chip8.get_top_of_stack(), 0x202);
    }
    assert_eq!(chip8.tick(), Err(Chip8Error::StackOverflow));
    assert_eq!(chip8.get_stack_depth(), 3);
    assert_eq!(chip8.get_pc(), 0x200);
}

#[test]
fn a_fetch_beyond_memory_halts_the_cycle() {
    let mut chip8 = Chip8::new(&[]).unwrap();
    chip8.jump(instr("1FFE"));
    assert_eq!(chip8.fetch(), Ok(Instruction::decode(0)));
    chip8.set_register(instr("6002"));
    chip8.offset_jump(instr("BFFE"));
    assert_eq!(chip8.get_pc(), 0x1000);
    assert_eq!(chip8.fetch(), Err(Chip8Error::OutOfBoundsMemoryAccess));
    assert_eq!(chip8.tick(), Err(Chip8Error::OutOfBoundsMemoryAccess));
    assert_eq!(chip8.get_pc(), 0x1000);
    chip8.jump(instr("1FFF"));
    assert_eq!(chip8.tick(), Err(Chip8Error::OutOfBoundsMemoryAccess));
    assert_eq!(chip8.get_pc(), 0xFFF);
}

#[test]
fn a_fetch_from_an_odd_address_halts_the_cycle() {
    let rom = [0x13, 0x69];
    let mut chip8 = Chip8::new(&rom).unwrap();
    assert_eq!(chip8.tick(), Ok(Outcome::Executed));
    assert_eq!(chip8.get_pc(), 0x369);
    assert_eq!(chip8.fetch(), Err(Chip8Error::MisalignedProgramCounter));
    assert_eq!(chip8.tick(), Err(Chip8Error::MisalignedProgramCounter));
    assert_eq!(chip8.get_pc(), 0x369);
}

#[test]
fn a_failing_cycle_changes_nothing() {
    // 0x200: I := 0xFFF; 0x202: V1 := 0x22; 0x204: store V0..V1
    let rom = [0xAF, 0xFF, 0x61, 0x22, 0xF1, 0x55];
    let mut chip8 = Chip8::new(&rom).unwrap();
    assert_eq!(chip8.tick(), Ok(Outcome::Executed));
    assert_eq!(chip8.tick(), Ok(Outcome::Executed));
    assert_eq!(chip8.tick(), Err(Chip8Error::OutOfBoundsMemoryAccess));
    assert_eq!(chip8.get_pc(), 0x204);
    assert_eq!(chip8.get_index(), 0xFFF);
    assert_eq!(chip8.get_mem_at(0xFFF), 0);
    assert_eq!(chip8.get_register(1), 0x22);
}

#[test]
fn tick_with_masks_the_byte_handed_in() {
    let rom = [0xC7, 0x0F, 0xC8, 0xF0];
    let mut chip8 = Chip8::new(&rom).unwrap();
    assert_eq!(chip8.tick_with(0xAB), Ok(Outcome::Executed));
    assert_eq!(chip8.get_register(7), 0x0B);
    assert_eq!(chip8.tick_with(0xAB), Ok(Outcome::Executed));
    assert_eq!(chip8.get_register(8), 0xA0);
    assert_eq!(chip8.get_pc(), 0x204);
}

#[test]
fn tick_with_ignores_the_byte_elsewhere() {
    let rom = [0x63, 0x10, 0x73, 0x05, 0x83, 0x3E];
    let mut first = Chip8::new(&rom).unwrap();
    let mut second = Chip8::new(&rom).unwrap();
    for _ in 0..3 {
        assert_eq!(first.tick_with(0x00), second.tick_with(0xFF));
    }
    assert_eq!(first.get_register(3), 0x2A);
    assert_eq!(second.get_register(3), 0x2A);
    assert_eq!(first.get_pc(), second.get_pc());
}

#[test]
fn tick_draws_its_own_random_byte() {
    let rom = [0xC7, 0x0F];
    for _ in 0..50 {
        let mut chip8 = Chip8::new(&rom).unwrap();
        assert_eq!(chip8.tick(), Ok(Outcome::Executed));
        assert!(chip8.get_register(7) < 0x10);
        assert_eq!(chip8.get_pc(), 0x202);
    }
}

#[test]
fn exec_dispatches_on_the_primary_nibble() {
    let mut chip8 = Chip8::new(&[0x80]).unwrap();
    chip8.jump(instr("1300"));
    assert_eq!(chip8.exec(instr("6A12")), Ok(Outcome::Executed));
    assert_eq!(chip8.exec(instr("7A01")), Ok(Outcome::Executed));
    assert_eq!(chip8.get_register(0xA), 0x13);
    assert_eq!(chip8.exec(instr("A200")), Ok(Outcome::Executed));
    assert_eq!(chip8.exec(instr("D001")), Ok(Outcome::Executed));
    assert_eq!(chip8.get_display()[0], PixelState::ON);
    assert_eq!(chip8.exec(instr("00E0")), Ok(Outcome::Executed));
    assert_eq!(chip8.get_display()[0], PixelState::OFF);
    assert_eq!(chip8.exec(instr("3A13")), Ok(Outcome::Executed));
    assert_eq!(chip8.get_pc(), 0x302);
    assert_eq!(chip8.exec(instr("4A13")), Ok(Outcome::Executed));
    assert_eq!(chip8.get_pc(), 0x302);
    assert_eq!(chip8.exec(instr("5AB0")), Ok(Outcome::Executed));
    assert_eq!(chip8.get_pc(), 0x302);
    assert_eq!(chip8.exec(instr("9AB0")), Ok(Outcome::Executed));
    assert_eq!(chip8.get_pc(), 0x304);
    assert_eq!(chip8.exec(instr("EA9E")), Ok(Outcome::Executed));
    assert_eq!(chip8.get_pc(), 0x304);
    assert_eq!(chip8.exec(instr("2400")), Ok(Outcome::Executed));
    assert_eq!(chip8.get_pc(), 0x400);
    assert_eq!(chip8.exec(instr("00EE")), Ok(Outcome::Executed));
    assert_eq!(chip8.get_pc(), 0x304);
    assert_eq!(chip8.exec(instr("00EE")), Err(Chip8Error::StackUnderflow));
    assert_eq!(chip8.exec(instr("B123")), Ok(Outcome::Executed));
    assert_eq!(chip8.get_pc(), 0x123);
    assert_eq!(chip8.exec(instr("8BA0")), Ok(Outcome::Executed));
    assert_eq!(chip8.get_register(0xB), 0x13);
    assert_eq!(chip8.exec(instr("FB1E")), Ok(Outcome::Executed));
    assert_eq!(chip8.get_index(), 0x213);
    assert_eq!(chip8.exec_with(instr("C1F0"), 0x5A), Ok(Outcome::Executed));
    assert_eq!(chip8.get_register(1), 0x50);
    assert_eq!(chip8.exec(instr("C100")), Ok(Outcome::Executed));
    assert_eq!(chip8.get_register(1), 0);
}
