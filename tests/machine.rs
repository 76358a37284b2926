use chip8::chip8::Chip8;
use chip8::cpu::CPU;
use chip8::gpu::{GPU, BLACK, HEIGHT, WHITE, WIDTH};
use chip8::rom::{Rom, MAX_SIZE};

#[test]
fn new_machine_state() {
    let cpu = CPU::new();
    assert_eq!(cpu.pc(), 0x200);
    assert_eq!(cpu.sp(), 0);
    assert_eq!(cpu.index(), 0);
    assert_eq!(cpu.delay_timer(), 0);
    assert_eq!(cpu.sound_timer(), 0);
    for a in 0..4096 {
        assert_eq!(cpu.memory_at(a), 0);
    }
}

#[test]
fn rom_is_truncated() {
    let short = Rom::new(&[1, 2, 3]);
    assert_eq!(short.size, 3);
    assert_eq!(short.data, vec![1, 2, 3]);
    let long_bytes = vec![7u8; MAX_SIZE + 10];
    let long = Rom::new(&long_bytes);
    assert_eq!(long.size, MAX_SIZE);
    assert_eq!(long.data.len(), MAX_SIZE);
    assert_eq!(Rom::new(&[]).size, 0);
}

#[test]
fn load_writes_font_and_program() {
    let mut cpu = CPU::new();
    let rom = Rom::new(&[0x12, 0x34, 0xAB]);
    cpu.load(&rom);
    assert_eq!(cpu.memory_at(0), 0xF0);
    assert_eq!(cpu.memory_at(5), 0x20);
    assert_eq!(cpu.memory_at(79), 0x80);
    assert_eq!(cpu.memory_at(80), 0x00);
    assert_eq!(cpu.memory_at(0x200), 0x12);
    assert_eq!(cpu.memory_at(0x201), 0x34);
    assert_eq!(cpu.memory_at(0x202), 0xAB);
    assert_eq!(cpu.memory_at(0x203), 0x00);
    assert_eq!(cpu.get_opcode(), Ok(0x1234));
}

#[test]
fn load_full_image_fills_memory_end() {
    let mut cpu = CPU::new();
    let bytes: Vec<u8> = (0..MAX_SIZE + 4).map(|k| (k % 251) as u8 + 1).collect();
    cpu.load(&Rom::new(&bytes));
    assert_eq!(cpu.memory_at(4095), ((MAX_SIZE - 1) % 251) as u8 + 1);
}

#[test]
fn cycle_fetches_and_executes() {
    let mut cpu = CPU::new();
    cpu.load(&Rom::new(&[0x61, 0x2A, 0x71, 0x01, 0x12, 0x00]));
    let keys = [false; 16];
    assert_eq!(cpu.cycle(&keys), Ok(()));
    assert_eq!(cpu.v(1), 0x2A);
    assert_eq!(cpu.cycle(&keys), Ok(()));
    assert_eq!(cpu.v(1), 0x2B);
    assert_eq!(cpu.cycle(&keys), Ok(()));
    assert_eq!(cpu.pc(), 0x200);
}

#[test]
fn gpu_pixels() {
    let mut gpu = GPU::new();
    assert_eq!(gpu.get_color((10, 5)), BLACK);
    gpu.draw_pixel((10, 5), WHITE);
    assert_eq!(gpu.get_color((10, 5)), WHITE);
    assert_eq!(gpu.get_color((5, 10)), BLACK);
    gpu.clear_screen();
    assert_eq!(gpu.get_color((10, 5)), BLACK);
}

#[test]
fn start_up_picture() {
    let mut chip = Chip8::new();
    chip.init();
    let screen = chip.screen();
    assert_eq!(screen.get_color((0, 0)), BLACK);
    assert_eq!(screen.get_color((1, 0)), BLACK);
    assert_eq!(screen.get_color((1, 1)), WHITE);
    assert_eq!(screen.get_color((6, 2)), BLACK);
    assert_eq!(screen.get_color((7, 2)), WHITE);
    assert_eq!(chip.cpu_ref().pc(), 0x200);
}

#[test]
fn frame_scales_each_pixel() {
    let mut gpu = GPU::new();
    gpu.draw_pixel((3, 2), WHITE);
    let frame = gpu.frame();
    assert_eq!(frame.len(), WIDTH * HEIGHT);
    assert_eq!(frame[20 * WIDTH + 30], WHITE);
    assert_eq!(frame[29 * WIDTH + 39], WHITE);
    assert_eq!(frame[30 * WIDTH + 39], BLACK);
    assert_eq!(frame[29 * WIDTH + 40], BLACK);
    assert_eq!(frame.iter().filter(|&&c| c == WHITE).count(), 100);
}
