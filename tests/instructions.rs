use chip8::cpu::CPU;
use chip8::gpu::{BLACK, WHITE};
use chip8::machine::{decode, Fault, OpCodeNext};
use chip8::rom::Rom;

const NO_KEYS: [bool; 16] = [false; 16];

fn run(cpu: &mut CPU, op: u16) {
    assert_eq!(cpu.execute(op, &NO_KEYS, 0), Ok(()));
}

#[test]
fn load_immediate_sets_register() {
    for x in 0..16u16 {
        for nn in [0x00u16, 0x01, 0x7F, 0xAB, 0xFF] {
            let mut cpu = CPU::new();
            run(&mut cpu, 0x6000 | (x << 8) | nn);
            assert_eq!(cpu.v(x as usize), nn as u8);
            assert_eq!(cpu.pc(), 0x202);
        }
    }
}

#[test]
fn add_with_carry_wraps_and_flags() {
    let mut cpu = CPU::new();
    run(&mut cpu, 0x61FF);
    run(&mut cpu, 0x6201);
    run(&mut cpu, 0x8124);
    assert_eq!(cpu.v(1), 0x00);
    assert_eq!(cpu.v(0xF), 1);
}

#[test]
fn add_without_carry_clears_flag() {
    let mut cpu = CPU::new();
    run(&mut cpu, 0x6F01);
    run(&mut cpu, 0x6110);
    run(&mut cpu, 0x6220);
    run(&mut cpu, 0x8124);
    assert_eq!(cpu.v(1), 0x30);
    assert_eq!(cpu.v(0xF), 0);
}

#[test]
fn subtract_with_borrow() {
    let mut cpu = CPU::new();
    run(&mut cpu, 0x6105);
    run(&mut cpu, 0x620A);
    run(&mut cpu, 0x8125);
    assert_eq!(cpu.v(0xF), 0);
    assert_eq!(cpu.v(1), 0xFB);
}

#[test]
fn subtract_without_borrow() {
    let mut cpu = CPU::new();
    run(&mut cpu, 0x610A);
    run(&mut cpu, 0x6203);
    run(&mut cpu, 0x8125);
    assert_eq!(cpu.v(0xF), 1);
    assert_eq!(cpu.v(1), 0x07);
}

#[test]
fn reverse_subtract() {
    let mut cpu = CPU::new();
    run(&mut cpu, 0x6105);
    run(&mut cpu, 0x620A);
    run(&mut cpu, 0x8127);
    assert_eq!(cpu.v(0xF), 1);
    assert_eq!(cpu.v(1), 0x05);
}

#[test]
fn shifts_report_the_lost_bit() {
    let mut cpu = CPU::new();
    run(&mut cpu, 0x6181);
    run(&mut cpu, 0x8106);
    assert_eq!(cpu.v(1), 0x40);
    assert_eq!(cpu.v(0xF), 1);
    run(&mut cpu, 0x6181);
    run(&mut cpu, 0x810E);
    assert_eq!(cpu.v(1), 0x02);
    assert_eq!(cpu.v(0xF), 1);
}

#[test]
fn add_immediate_leaves_flag_alone() {
    let mut cpu = CPU::new();
    run(&mut cpu, 0x6F07);
    run(&mut cpu, 0x61FF);
    run(&mut cpu, 0x7102);
    assert_eq!(cpu.v(1), 0x01);
    assert_eq!(cpu.v(0xF), 7);
}

#[test]
fn logic_operations() {
    let mut cpu = CPU::new();
    run(&mut cpu, 0x61F0);
    run(&mut cpu, 0x623C);
    run(&mut cpu, 0x8121);
    assert_eq!(cpu.v(1), 0xFC);
    run(&mut cpu, 0x61F0);
    run(&mut cpu, 0x8122);
    assert_eq!(cpu.v(1), 0x30);
    run(&mut cpu, 0x61F0);
    run(&mut cpu, 0x8123);
    assert_eq!(cpu.v(1), 0xCC);
    run(&mut cpu, 0x8120);
    assert_eq!(cpu.v(1), 0x3C);
}

#[test]
fn store_and_load_registers_round_trip() {
    let mut cpu = CPU::new();
    run(&mut cpu, 0x6011);
    run(&mut cpu, 0x6122);
    run(&mut cpu, 0x6233);
    run(&mut cpu, 0x6344);
    run(&mut cpu, 0x6455);
    run(&mut cpu, 0xA300);
    run(&mut cpu, 0xF355);
    assert_eq!(cpu.memory_at(0x300), 0x11);
    assert_eq!(cpu.memory_at(0x303), 0x44);
    assert_eq!(cpu.memory_at(0x304), 0x00);
    for op in [0x6000u16, 0x6100, 0x6200, 0x6300] {
        run(&mut cpu, op);
    }
    run(&mut cpu, 0xF365);
    assert_eq!(cpu.v(0), 0x11);
    assert_eq!(cpu.v(1), 0x22);
    assert_eq!(cpu.v(2), 0x33);
    assert_eq!(cpu.v(3), 0x44);
    assert_eq!(cpu.v(4), 0x55);
}

#[test]
fn decimal_digits() {
    let mut cpu = CPU::new();
    run(&mut cpu, 0x65FE);
    run(&mut cpu, 0xA400);
    run(&mut cpu, 0xF533);
    assert_eq!(cpu.memory_at(0x400), 2);
    assert_eq!(cpu.memory_at(0x401), 5);
    assert_eq!(cpu.memory_at(0x402), 4);
}

#[test]
fn index_add_flags_leaving_the_address_space() {
    let mut cpu = CPU::new();
    run(&mut cpu, 0xAFFE);
    run(&mut cpu, 0x6101);
    run(&mut cpu, 0xF11E);
    assert_eq!(cpu.index(), 0xFFF);
    assert_eq!(cpu.v(0xF), 0);
    run(&mut cpu, 0xF11E);
    assert_eq!(cpu.index(), 0x000);
    assert_eq!(cpu.v(0xF), 1);
}

#[test]
fn font_glyph_address() {
    let mut cpu = CPU::new();
    run(&mut cpu, 0x611A);
    run(&mut cpu, 0xF129);
    assert_eq!(cpu.index(), 50);
}

#[test]
fn call_then_return() {
    let mut cpu = CPU::new();
    run(&mut cpu, 0x2400);
    assert_eq!(cpu.pc(), 0x400);
    assert_eq!(cpu.sp(), 1);
    run(&mut cpu, 0x00EE);
    assert_eq!(cpu.pc(), 0x202);
    assert_eq!(cpu.sp(), 0);
}

#[test]
fn jumps() {
    let mut cpu = CPU::new();
    run(&mut cpu, 0x1ABC);
    assert_eq!(cpu.pc(), 0xABC);
    run(&mut cpu, 0x6010);
    run(&mut cpu, 0xB300);
    assert_eq!(cpu.pc(), 0x310);
}

#[test]
fn skip_if_equal_immediate() {
    let mut cpu = CPU::new();
    run(&mut cpu, 0x6410);
    let pc = cpu.pc();
    run(&mut cpu, 0x3410);
    assert_eq!(cpu.pc(), pc + 4);
    let pc = cpu.pc();
    run(&mut cpu, 0x3411);
    assert_eq!(cpu.pc(), pc + 2);
}

#[test]
fn other_skips() {
    let mut cpu = CPU::new();
    run(&mut cpu, 0x6410);
    run(&mut cpu, 0x6510);
    let pc = cpu.pc();
    run(&mut cpu, 0x4411);
    assert_eq!(cpu.pc(), pc + 4);
    let pc = cpu.pc();
    run(&mut cpu, 0x5450);
    assert_eq!(cpu.pc(), pc + 4);
    let pc = cpu.pc();
    run(&mut cpu, 0x9450);
    assert_eq!(cpu.pc(), pc + 2);
}

#[test]
fn key_skips() {
    let mut cpu = CPU::new();
    let mut keys = [false; 16];
    keys[7] = true;
    assert_eq!(cpu.execute(0x6307, &keys, 0), Ok(()));
    let pc = cpu.pc();
    assert_eq!(cpu.execute(0xE39E, &keys, 0), Ok(()));
    assert_eq!(cpu.pc(), pc + 4);
    let pc = cpu.pc();
    assert_eq!(cpu.execute(0xE3A1, &keys, 0), Ok(()));
    assert_eq!(cpu.pc(), pc + 2);
}

#[test]
fn wait_for_key() {
    let mut cpu = CPU::new();
    let pc = cpu.pc();
    assert_eq!(cpu.execute(0xF20A, &NO_KEYS, 0), Ok(()));
    assert_eq!(cpu.pc(), pc);
    let mut keys = [false; 16];
    keys[9] = true;
    keys[12] = true;
    assert_eq!(cpu.execute(0xF20A, &keys, 0), Ok(()));
    assert_eq!(cpu.pc(), pc + 2);
    assert_eq!(cpu.v(2), 9);
}

#[test]
fn timers_count_down_to_zero() {
    let mut cpu = CPU::new();
    run(&mut cpu, 0x6505);
    run(&mut cpu, 0xF515);
    run(&mut cpu, 0xF518);
    assert_eq!(cpu.delay_timer(), 5);
    for _ in 0..5 {
        cpu.step_count();
    }
    assert_eq!(cpu.delay_timer(), 0);
    assert_eq!(cpu.sound_timer(), 0);
    cpu.step_count();
    assert_eq!(cpu.delay_timer(), 0);
    run(&mut cpu, 0x6509);
    run(&mut cpu, 0xF515);
    cpu.step_count();
    run(&mut cpu, 0xF607);
    assert_eq!(cpu.v(6), 8);
}

#[test]
fn draw_twice_restores_display() {
    let mut cpu = CPU::new();
    cpu.load(&Rom::new(&[]));
    run(&mut cpu, 0x613E);
    run(&mut cpu, 0x621E);
    run(&mut cpu, 0xA000);
    run(&mut cpu, 0xD125);
    assert_eq!(cpu.v(0xF), 0);
    // glyph 0 row 0 is 0xF0: four pixels from x = 62, wrapping to x = 0 and 1
    assert_eq!(cpu.gpu().get_color((62, 30)), WHITE);
    assert_eq!(cpu.gpu().get_color((63, 30)), WHITE);
    assert_eq!(cpu.gpu().get_color((0, 30)), WHITE);
    assert_eq!(cpu.gpu().get_color((1, 30)), WHITE);
    assert_eq!(cpu.gpu().get_color((2, 30)), BLACK);
    // row 1 is 0x90, drawn at y = 31; row 2 wraps to y = 0
    assert_eq!(cpu.gpu().get_color((62, 31)), WHITE);
    assert_eq!(cpu.gpu().get_color((63, 31)), BLACK);
    assert_eq!(cpu.gpu().get_color((62, 0)), WHITE);
    run(&mut cpu, 0xD125);
    assert_eq!(cpu.v(0xF), 1);
    for x in 0..64 {
        for y in 0..32 {
            assert_eq!(cpu.gpu().get_color((x, y)), BLACK);
        }
    }
}

#[test]
fn clear_screen_instruction() {
    let mut cpu = CPU::new();
    cpu.load(&Rom::new(&[]));
    run(&mut cpu, 0xA000);
    run(&mut cpu, 0xD015);
    assert_eq!(cpu.gpu().get_color((0, 0)), WHITE);
    run(&mut cpu, 0x00E0);
    assert_eq!(cpu.gpu().get_color((0, 0)), BLACK);
}

#[test]
fn random_is_within_bound() {
    let mut cpu = CPU::new();
    let mut seen = [false; 2];
    for _ in 0..200 {
        assert_eq!(cpu.run_opcode(0xC101, &NO_KEYS), Ok(()));
        let r = cpu.v(1);
        assert!(r <= 1);
        seen[r as usize] = true;
        assert_eq!(cpu.run_opcode(0xC200, &NO_KEYS), Ok(()));
        assert_eq!(cpu.v(2), 0);
    }
    assert!(seen[0] && seen[1]);
    assert_eq!(cpu.execute(0xC3FF, &NO_KEYS, 0x77), Ok(()));
    assert_eq!(cpu.v(3), 0x77);
}

#[test]
fn faults() {
    let mut cpu = CPU::new();
    assert_eq!(cpu.execute(0x00EE, &NO_KEYS, 0), Err(Fault::StackUnderflow));
    assert_eq!(cpu.execute(0x0123, &NO_KEYS, 0), Err(Fault::Unsupported(0x0123)));
    assert_eq!(cpu.execute(0x5121, &NO_KEYS, 0), Err(Fault::Unsupported(0x5121)));
    assert_eq!(cpu.execute(0x8128, &NO_KEYS, 0), Err(Fault::Unsupported(0x8128)));
    assert_eq!(cpu.execute(0xE1FF, &NO_KEYS, 0), Err(Fault::Unsupported(0xE1FF)));
    assert_eq!(cpu.execute(0xF1FF, &NO_KEYS, 0), Err(Fault::Unsupported(0xF1FF)));
    let mut cpu = CPU::new();
    for _ in 0..16 {
        run(&mut cpu, 0x2300);
    }
    assert_eq!(cpu.execute(0x2300, &NO_KEYS, 0), Err(Fault::StackOverflow));
    let mut cpu = CPU::new();
    run(&mut cpu, 0xAFFE);
    assert_eq!(cpu.execute(0xF033, &NO_KEYS, 0), Err(Fault::AddressOutOfRange));
    assert_eq!(cpu.execute(0xF255, &NO_KEYS, 0), Err(Fault::AddressOutOfRange));
    assert_eq!(cpu.execute(0xD005, &NO_KEYS, 0), Err(Fault::AddressOutOfRange));
    run(&mut cpu, 0x60FF);
    assert_eq!(cpu.execute(0xBFFF, &NO_KEYS, 0), Err(Fault::AddressOutOfRange));
    run(&mut cpu, 0x1FFE);
    assert_eq!(cpu.execute(0x6000, &NO_KEYS, 0), Err(Fault::AddressOutOfRange));
    run(&mut cpu, 0x1FFF);
    assert_eq!(cpu.cycle(&NO_KEYS), Err(Fault::AddressOutOfRange));
}

#[test]
fn decoder_fields() {
    let d = decode(0xD12F);
    assert_eq!((d.a, d.x, d.y, d.n), (0xD, 0x1, 0x2, 0xF));
    assert_eq!(d.nnn, 0x12F);
    assert_eq!(d.nn, 0x2F);
}

#[test]
fn skip_if_picks_effect() {
    assert_eq!(OpCodeNext::skip_if(true), OpCodeNext::Skip);
    assert_eq!(OpCodeNext::skip_if(false), OpCodeNext::Next);
}
