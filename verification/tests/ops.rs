use chip8_emulator::instructions::Instruction;
use chip8_emulator::model::FONT_OFFSET;
use chip8_emulator::{Chip8, KeyState, Outcome};

fn empty_program() -> Vec<u8> {
    vec![0; 43]
}

fn machine() -> Chip8 {
    Chip8::new(&empty_program()).unwrap()
}

fn instr(text: &str) -> Instruction {
    Instruction::from_str(text).unwrap()
}

#[test]
fn pop_test() {
    // 00EE
    let push_instr = instr("2390");
    let pop_instr = instr("0000");
    let mut chip8 = machine();
    chip8.push(push_instr).unwrap();
    assert_eq!(chip8.get_pc(), 0x390);
    chip8.pop(pop_instr).unwrap();
    assert_eq!(chip8.get_pc(), 0x200);
}

#[test]
fn jump_test() {
    // 1NNN
    let jumper = instr("1369");
    let mut chip8 = machine();
    chip8.jump(jumper);
    assert_eq!(chip8.get_pc(), 0x369);
}

#[test]
fn offset_jump_test() {
    // BNNN
    let setter = instr("6001");
    let offseter = instr("B368");
    let mut chip8 = machine();
    chip8.set_register(setter);
    chip8.offset_jump(offseter);
    assert_eq!(chip8.get_pc(), 0x369);
}

#[test]
fn index_set_test() {
    // ANNN
    let setter = instr("A333");
    let mut chip8 = machine();
    chip8.set_index(setter);
    assert_eq!(chip8.get_index(), 0x333);
}

#[test]
fn index_add_test() {
    // FX1E
    let setter = instr("6033");
    let adder = instr("F01E");
    let mut chip8 = machine();
    chip8.set_register(setter);
    chip8.add_to_index(adder);
    assert_eq!(chip8.get_index(), 0x033);
}

#[test]
fn push_test() {
    // 2NNN
    let call = instr("2390");
    let mut chip8 = machine();
    chip8.push(call).unwrap();
    assert_eq!(chip8.get_pc(), 0x390);
    assert_eq!(chip8.get_top_of_stack(), 0x200);
}

#[test]
fn test_skip_if_eq() {
    // 3XNN
    let set_instr = instr("60EE");
    let skip_instr_pass = instr("30EE");
    let skip_instr_fail = instr("3000");
    let mut chip8 = machine();
    chip8.set_register(set_instr);
    chip8.skip_if_eq(skip_instr_fail);
    assert_ne!(chip8.get_pc(), 0x202);
    chip8.skip_if_eq(skip_instr_pass);
    assert_eq!(chip8.get_pc(), 0x202);
}

#[test]
fn test_skip_if_neq() {
    // 4XNN
    let set_instr = instr("60EE");
    let skip_instr_pass = instr("4000");
    let skip_instr_fail = instr("40EE");
    let mut chip8 = machine();
    chip8.set_register(set_instr);
    chip8.skip_if_neq(skip_instr_fail);
    assert_ne!(chip8.get_pc(), 0x202);
    chip8.skip_if_neq(skip_instr_pass);
    assert_eq!(chip8.get_pc(), 0x202);
}

#[test]
fn test_skip_eq_reg() {
    // 5XY0
    let set_y_instr = instr("60EE");
    let set_x_instr = instr("61EE");
    let skip_pass = instr("5010");
    let mut chip8 = machine();
    chip8.set_register(set_x_instr);
    chip8.set_register(set_y_instr);
    chip8.skip_eq_reg(skip_pass);
    assert_eq!(chip8.get_pc(), 0x202);
}

#[test]
fn test_skip_neq_reg() {
    // 9XY0
    let set_y_instr = instr("60EE");
    let set_x_instr = instr("61EF");
    let skip_pass = instr("9010");
    let mut chip8 = machine();
    chip8.set_register(set_x_instr);
    chip8.set_register(set_y_instr);
    chip8.skip_neq_reg(skip_pass);
    assert_eq!(chip8.get_pc(), 0x202);
}

#[test]
fn set_register_test() {
    // 6XNN
    let set = instr("60EE");
    let mut chip8 = machine();
    chip8.set_register(set);
    let v0 = chip8.get_register(0);
    assert_eq!(v0, 0xEE);
}

#[test]
fn add_register_test() {
    // 7XNN
    let set = instr("6003");
    let add_instr = instr("7004");
    let mut chip8 = machine();
    chip8.set_register(set);
    let v0 = chip8.get_register(0);
    assert_eq!(v0, 0x03);
    chip8.add_register(add_instr);
    let v0 = chip8.get_register(0);
    assert_eq!(v0, 0x07);
    let overflow_instr = instr("70FF");
    chip8.add_register(overflow_instr);
    let v0 = chip8.get_register(0);
    let vf = chip8.get_register(0xF);
    assert_eq!(v0, 0xFF);
    assert_eq!(vf, 0x00);
}

#[test]
fn math_basic_test() {
    // 8XY0 to 8XY3
    let mut chip8 = machine();
    let init_x = instr("60EE");
    let init_y = instr("6111");
    let set = instr("8010");
    let or = instr("8011");
    let and = instr("8012");
    let xor = instr("8013");
    chip8.set_register(init_x.clone());
    chip8.set_register(init_y);
    assert_eq!(chip8.eight(or), Outcome::Executed);
    assert_eq!(chip8.get_register(0), 0xEE | 0x11);
    chip8.set_register(init_x.clone());
    assert_eq!(chip8.eight(set), Outcome::Executed);
    assert_eq!(chip8.get_register(0), 0x11);
    chip8.set_register(init_x.clone());
    assert_eq!(chip8.eight(and), Outcome::Executed);
    assert_eq!(chip8.get_register(0), 0xEE & 0x11);
    chip8.set_register(init_x.clone());
    assert_eq!(chip8.eight(xor), Outcome::Executed);
    assert_eq!(chip8.get_register(0), 0xEE ^ 0x11);
}

#[test]
fn stateful_math_add_test() {
    // 8XY4
    let mut chip8 = machine();
    let init_x = instr("60EE");
    let init_y = instr("6111");
    let init_x_overflow = instr("60FE");
    chip8.set_register(init_x.clone());
    chip8.set_register(init_y);
    let add = instr("8014");
    chip8.eight(add.clone());
    assert_eq!(chip8.get_register(0), 0xEE + 0x11);
    assert_eq!(chip8.get_register(0xF), 0);
    chip8.set_register(init_x_overflow);
    chip8.eight(add.clone());
    assert_eq!(chip8.get_register(0), 0xFF);
    assert_eq!(chip8.get_register(0xF), 1);
}

#[test]
fn stateful_math_sub_xy_test() {
    // 8XY5
    let mut chip8 = machine();
    let init_x_large = instr("60EE");
    let init_y = instr("6111");
    let init_x = instr("6001");
    let sub_xy = instr("8015");
    chip8.set_register(init_x_large);
    chip8.set_register(init_y);
    chip8.eight(sub_xy.clone());
    assert_eq!(chip8.get_register(0), 0xEE - 0x11);
    assert_eq!(chip8.get_register(0xF), 1);
    chip8.set_register(init_x);
    chip8.eight(sub_xy.clone());
    assert_eq!(chip8.get_register(0), 0x01_u8.wrapping_sub(0x11));
    assert_eq!(chip8.get_register(0), 0xF0);
    assert_eq!(chip8.get_register(0xF), 0);
}

#[test]
fn stateful_math_sub_yx_test() {
    // 8XY7
    let mut chip8 = machine();
    let init_y_large = instr("61EE");
    let init_x = instr("6011");
    let init_y = instr("6101");
    let sub_yx = instr("8017");
    chip8.set_register(init_y_large);
    chip8.set_register(init_x.clone());
    chip8.eight(sub_yx.clone());
    assert_eq!(chip8.get_register(0), 0xEE - 0x11);
    assert_eq!(chip8.get_register(0xF), 1);
    chip8.set_register(init_y);
    chip8.set_register(init_x.clone());
    chip8.eight(sub_yx.clone());
    assert_eq!(chip8.get_register(0), 0x01_u8.wrapping_sub(0x11));
    assert_eq!(chip8.get_register(0xF), 0);
}

#[test]
fn shift_left_test() {
    // 8XYE
    let mut chip8 = machine();
    let init_x = instr("60FF");
    let init_x_small = instr("6001");
    let lshift = instr("801E");
    chip8.set_register(init_x);
    chip8.eight(lshift.clone());
    assert_eq!(chip8.get_register(0), 0xFE);
    assert_eq!(chip8.get_register(0xF), 0x1);
    chip8.set_register(init_x_small);
    chip8.eight(lshift.clone());
    assert_eq!(chip8.get_register(0), 0x02);
    assert_eq!(chip8.get_register(0xF), 0x0);
}

#[test]
fn shift_right_test() {
    // 8XY6
    let mut chip8 = machine();
    let init_x = instr("60FF");
    let init_x_small = instr("6000");
    let rshift = instr("8016");
    chip8.set_register(init_x);
    chip8.eight(rshift.clone());
    assert_eq!(chip8.get_register(0), 0x7F);
    assert_eq!(chip8.get_register(0xF), 0x1);
    chip8.set_register(init_x_small);
    chip8.eight(rshift.clone());
    assert_eq!(chip8.get_register(0), 0x00);
    assert_eq!(chip8.get_register(0xF), 0x0);
}

#[test]
fn test_timers() {
    let mut chip8 = machine();
    let init_x = instr("61FE");
    let set_delay = instr("F115");
    let set_sound = instr("F118");
    let get_delay = instr("F207");
    chip8.set_register(init_x);
    assert_eq!(chip8.f(set_delay), Ok(Outcome::Executed));
    assert_eq!(chip8.f(set_sound), Ok(Outcome::Executed));
    assert_eq!(chip8.f(get_delay), Ok(Outcome::Executed));
    assert_eq!(chip8.get_delay_timer(), 0xFE);
    assert_eq!(chip8.get_sound_timer(), 0xFE);
    assert_eq!(chip8.get_register(2), 0xFE);
}

#[test]
fn test_store_and_load() {
    let mut chip8 = machine();
    chip8.set_index(instr("A300"));
    let setters = ["6001", "6102", "6203"];
    let resetters = ["6000", "6100", "6200"];
    let store3 = instr("F255");
    let load3 = instr("F265");
    for instr_str in setters {
        chip8.set_register(instr(instr_str));
    }
    assert_eq!(chip8.f(store3), Ok(Outcome::Executed));
    for instr_str in resetters {
        chip8.set_register(instr(instr_str));
    }
    assert_eq!(chip8.f(load3), Ok(Outcome::Executed));
    for i in 0..3 {
        assert_eq!(chip8.get_register(i), i as u8 + 1);
    }
}

#[test]
fn test_get_font() {
    let mut chip8 = machine();
    let mut font_idxs = [0_usize; 16];
    for i in 0..16 {
        font_idxs[i] = (i * 5) + FONT_OFFSET;
    }
    for i in 0..16 {
        chip8.set_register(instr(format!("60{:02X}", i as u16).as_str()));
        assert_eq!(chip8.f(instr("F029")), Ok(Outcome::Executed));
        assert_eq!(chip8.get_index(), font_idxs[i])
    }
}

#[test]
fn test_decimal_conversion() {
    let mut chip8 = machine();
    chip8.set_register(instr("60FE"));
    assert_eq!(chip8.f(instr("F033")), Ok(Outcome::Executed));
    assert_eq!(chip8.get_mem_at(0), 2);
    assert_eq!(chip8.get_mem_at(1), 5);
    assert_eq!(chip8.get_mem_at(2), 4);
}

#[test]
fn test_get_key() {
    let mut chip8 = machine();
    assert_eq!(chip8.f(instr("F00A")), Ok(Outcome::Executed));
    assert_eq!(chip8.get_pc(), 0x200 - 2);
    chip8.set_key_state(2, KeyState::ON);
    assert_eq!(chip8.f(instr("F00A")), Ok(Outcome::Executed));
    assert_eq!(chip8.get_register(0), 2);
}

#[test]
fn test_skip_key_eq() {
    let mut chip8 = machine();
    chip8.set_register(instr("600F"));
    chip8.set_key_state(0xF, KeyState::ON);
    assert_eq!(chip8.skip_key(instr("E09E")), Outcome::Executed);
    assert_eq!(chip8.get_pc(), 0x200 + 2);
}

#[test]
fn test_skip_key_neq() {
    let mut chip8 = machine();
    chip8.set_register(instr("600F"));
    chip8.set_key_state(0xF, KeyState::OFF);
    assert_eq!(chip8.skip_key(instr("E0A1")), Outcome::Executed);
    assert_eq!(chip8.get_pc(), 0x200 + 2);
}
