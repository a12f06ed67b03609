use bytepusher_core::{Emulator, EmulatorError, NUM_KEYS, RAM_SIZE, SCREEN_HEIGHT, SCREEN_WIDTH};

/// Three bytes of a 24-bit address, most significant first.
fn be24(addr: usize) -> [u8; 3] {
    [(addr >> 16) as u8, (addr >> 8) as u8, addr as u8]
}

/// Writes one instruction at `at`.
fn put_instruction(image: &mut Vec<u8>, at: usize, source: usize, dest: usize, jump: usize) {
    if image.len() < at + 9 {
        image.resize(at + 9, 0);
    }
    image[at..at + 3].copy_from_slice(&be24(source));
    image[at + 3..at + 6].copy_from_slice(&be24(dest));
    image[at + 6..at + 9].copy_from_slice(&be24(jump));
}

/// A program that starts at 0x100 and idles there.
fn idle_program() -> Vec<u8> {
    let mut image: Vec<u8> = vec![0; 0x100];
    image[2..5].copy_from_slice(&be24(0x100));
    put_instruction(&mut image, 0x100, 0x10, 0x10, 0x100);
    image
}

fn screen_is_blank(emu: &Emulator) -> bool {
    let screen = emu.get_screen();
    screen.len() == SCREEN_HEIGHT
        && screen
            .iter()
            .all(|row| row.len() == SCREEN_WIDTH && row.iter().all(|p| *p == 0))
}

#[test]
fn new_machine_is_zeroed() {
    let emu = Emulator::new();
    assert_eq!(emu.get_ram().len(), RAM_SIZE);
    assert_eq!(RAM_SIZE, 1 << 24);
    assert!(emu.get_ram().iter().all(|b| *b == 0));
    assert!(screen_is_blank(&emu));
    assert_eq!(emu.get_samples().len(), 256);
    assert!(emu.get_samples().iter().all(|b| *b == 0));
    assert_eq!(emu.keyboard_state(), 0);
    assert_eq!(emu.program_counter(), 0);
}

#[test]
fn pressed_key_sets_its_bit() {
    for k in 0..NUM_KEYS {
        let mut emu = Emulator::new();
        emu.load(&idle_program()).unwrap();
        assert_eq!(emu.keypress(k, true), Ok(()));
        emu.cycle();
        let ram = emu.get_ram();
        assert_eq!((ram[k / 8] >> (k % 8)) & 1, 1, "key {}", k);
        assert_eq!(ram[k / 8], 1u8 << (k % 8));
        assert_eq!(ram[1 - k / 8], 0);
        assert_eq!(emu.keyboard_state(), 1u16 << k);
    }
}

#[test]
fn keyboard_bytes_exact_values() {
    let mut emu = Emulator::new();
    emu.load(&idle_program()).unwrap();
    emu.keypress(0, true).unwrap();
    emu.keypress(7, true).unwrap();
    emu.keypress(9, true).unwrap();
    emu.keypress(15, true).unwrap();
    emu.cycle();
    assert_eq!(emu.get_ram()[0], 0x81);
    assert_eq!(emu.get_ram()[1], 0x82);
    assert_eq!(emu.keyboard_state(), 0x8281);
}

#[test]
fn released_key_clears_its_bit() {
    let mut emu = Emulator::new();
    emu.load(&idle_program()).unwrap();
    emu.keypress(3, true).unwrap();
    emu.keypress(12, true).unwrap();
    emu.cycle();
    assert_eq!(emu.get_ram()[0], 0x08);
    assert_eq!(emu.get_ram()[1], 0x10);
    emu.keypress(3, false).unwrap();
    emu.cycle();
    assert_eq!(emu.get_ram()[0], 0x00);
    assert_eq!(emu.get_ram()[1], 0x10);
}

#[test]
fn key_is_published_only_by_a_frame() {
    let mut emu = Emulator::new();
    emu.load(&idle_program()).unwrap();
    emu.keypress(5, true).unwrap();
    assert_eq!(emu.get_ram()[0], 0);
    emu.cycle();
    assert_eq!(emu.get_ram()[0], 0x20);
}

#[test]
fn key_index_out_of_range_is_refused() {
    let mut emu = Emulator::new();
    emu.load(&idle_program()).unwrap();
    assert_eq!(emu.keypress(16, true), Err(EmulatorError::InvalidKey));
    assert_eq!(emu.keypress(usize::MAX, true), Err(EmulatorError::InvalidKey));
    assert_eq!(emu.keypress(15, false), Ok(()));
    emu.cycle();
    assert_eq!(emu.get_ram()[0], 0);
    assert_eq!(emu.get_ram()[1], 0);
    assert_eq!(emu.get_ram()[..0x109], idle_program()[..]);
}

#[test]
fn program_can_overwrite_the_keyboard_bytes() {
    // With no program loaded the instruction at address 0 holds the keyboard
    // bytes themselves: with key 0 held it copies a zero byte over them.
    let mut emu = Emulator::new();
    emu.keypress(0, true).unwrap();
    emu.cycle();
    assert_eq!(emu.get_ram()[0], 0);
}

#[test]
fn reset_clears_everything() {
    let mut emu = Emulator::new();
    let mut image = idle_program();
    image[5] = 0;
    image[0x50] = 77;
    emu.load(&image).unwrap();
    emu.keypress(4, true).unwrap();
    emu.cycle();
    assert_eq!(emu.get_screen()[0][0x50], 77);
    assert!(!screen_is_blank(&emu));
    emu.reset();
    assert!(screen_is_blank(&emu));
    assert!(emu.get_ram().iter().all(|b| *b == 0));
    assert!(emu.get_samples().iter().all(|b| *b == 0));
    emu.cycle();
    assert_eq!(emu.get_ram()[0], 0);
    assert_eq!(emu.get_ram()[1], 0);
}

#[test]
fn reset_of_a_new_machine_changes_nothing() {
    let mut emu = Emulator::new();
    emu.reset();
    assert!(screen_is_blank(&emu));
    assert!(emu.get_ram().iter().all(|b| *b == 0));
}

#[test]
fn zero_program_halts_with_blank_frame() {
    let mut emu = Emulator::new();
    emu.load(&[0, 0, 0, 0, 0, 0, 0, 0, 0]).unwrap();
    emu.cycle();
    assert!(screen_is_blank(&emu));
    assert!(emu.get_ram().iter().all(|b| *b == 0));
}

#[test]
fn unloaded_machine_runs_a_blank_frame() {
    let mut emu = Emulator::new();
    emu.cycle();
    assert!(screen_is_blank(&emu));
    assert!(emu.get_ram().iter().all(|b| *b == 0));
    assert!(emu.get_samples().iter().all(|b| *b == 0));
}

#[test]
fn copy_instruction_reaches_the_screen() {
    let mut image: Vec<u8> = vec![0; 0x0A0001];
    image[2..5].copy_from_slice(&be24(0x100));
    image[5] = 5;
    put_instruction(&mut image, 0x100, 0x0A0000, 0x050000, 0x109);
    put_instruction(&mut image, 0x109, 0x10, 0x10, 0x109);
    image[0x0A0000] = 0xC3;
    let mut emu = Emulator::new();
    emu.load(&image).unwrap();
    emu.cycle();
    assert_eq!(emu.get_screen()[0][0], 0xC3);
    assert_eq!(emu.get_ram()[0x050000], 0xC3);
    assert_eq!(emu.get_ram()[0x0A0000], 0xC3);
    assert_eq!(emu.get_screen()[0][1], 0);
    assert_eq!(emu.get_screen()[1][0], 0);
    assert_eq!(emu.pixel_page(), 5);
}

#[test]
fn screen_is_read_row_by_row() {
    let mut image: Vec<u8> = vec![0; 0x040000];
    image[2..5].copy_from_slice(&be24(0x100));
    image[5] = 3;
    put_instruction(&mut image, 0x100, 0x10, 0x10, 0x100);
    for y in 0..256usize {
        for x in 0..256usize {
            image[0x030000 + (y << 8) + x] = ((x * 7 + y * 13) % 251) as u8;
        }
    }
    let mut emu = Emulator::new();
    emu.load(&image).unwrap();
    emu.cycle();
    let screen = emu.get_screen();
    assert_eq!(screen.len(), 256);
    for y in 0..256usize {
        assert_eq!(screen[y].len(), 256);
        for x in 0..256usize {
            assert_eq!(screen[y][x], ((x * 7 + y * 13) % 251) as u8);
            assert_eq!(screen[y][x], emu.get_ram()[(3 << 16) | (y << 8) | x]);
        }
    }
    assert_eq!(screen[2][1], 33);
    assert_eq!(screen[1][2], 27);
}

#[test]
fn page_is_taken_after_the_program_ran() {
    // The program changes the page selector from 1 to 2 during the frame.
    let mut image: Vec<u8> = vec![0; 0x020100];
    image[2..5].copy_from_slice(&be24(0x100));
    image[5] = 1;
    image[0x20] = 2;
    put_instruction(&mut image, 0x100, 0x20, 0x05, 0x109);
    put_instruction(&mut image, 0x109, 0x10, 0x10, 0x109);
    image[0x010000] = 11;
    image[0x020000] = 22;
    let mut emu = Emulator::new();
    emu.load(&image).unwrap();
    emu.cycle();
    assert_eq!(emu.get_ram()[5], 2);
    assert_eq!(emu.get_screen()[0][0], 22);
}

#[test]
fn screen_is_overwritten_each_frame() {
    let mut image = idle_program();
    image[0x30] = 9;
    let mut emu = Emulator::new();
    emu.load(&image).unwrap();
    emu.cycle();
    assert_eq!(emu.get_screen()[0][0x30], 9);
    let mut second = idle_program();
    second[0x30] = 0;
    second[0x31] = 4;
    emu.load(&second).unwrap();
    emu.cycle();
    assert_eq!(emu.get_screen()[0][0x30], 0);
    assert_eq!(emu.get_screen()[0][0x31], 4);
}

#[test]
fn load_of_full_address_space_succeeds() {
    let mut image: Vec<u8> = vec![0xAB; RAM_SIZE];
    image[RAM_SIZE - 1] = 0xCD;
    let mut emu = Emulator::new();
    assert_eq!(emu.load(&image), Ok(()));
    assert_eq!(emu.get_ram()[0], 0xAB);
    assert_eq!(emu.get_ram()[RAM_SIZE - 1], 0xCD);
    assert!(emu.get_ram()[..] == image[..]);
}

#[test]
fn load_of_one_byte_too_many_fails() {
    let mut emu = Emulator::new();
    emu.load(&[1, 2, 3]).unwrap();
    let image: Vec<u8> = vec![0xAB; RAM_SIZE + 1];
    assert_eq!(emu.load(&image), Err(EmulatorError::ProgramTooLarge));
    assert_eq!(emu.get_ram()[..4], [1, 2, 3, 0]);
    assert!(emu.get_ram()[4..].iter().all(|b| *b == 0));
    assert!(screen_is_blank(&emu));
}

#[test]
fn load_keeps_the_bytes_behind_the_program() {
    let mut emu = Emulator::new();
    emu.load(&[1, 2, 3, 4, 5, 6]).unwrap();
    emu.load(&[9, 8]).unwrap();
    assert_eq!(emu.get_ram()[..8], [9, 8, 3, 4, 5, 6, 0, 0]);
    emu.load(&[]).unwrap();
    assert_eq!(emu.get_ram()[..8], [9, 8, 3, 4, 5, 6, 0, 0]);
}

#[test]
fn load_does_not_touch_the_screen() {
    let mut image = idle_program();
    image[0x40] = 3;
    let mut emu = Emulator::new();
    emu.load(&image).unwrap();
    emu.cycle();
    emu.load(&vec![0u8; 0x200]).unwrap();
    assert_eq!(emu.get_screen()[0][0x40], 3);
}

#[test]
fn endless_chain_stops_after_the_budget() {
    // Instruction i copies the byte 1 to 0x800000 + i and jumps to
    // instruction i + 1: none of them idles.
    let count: usize = 65536 + 10;
    let base: usize = 0x100;
    let mut image: Vec<u8> = vec![0; base + 9 * count];
    image[2..5].copy_from_slice(&be24(base));
    image[0x10] = 1;
    for i in 0..count {
        put_instruction(&mut image, base + 9 * i, 0x10, 0x800000 + i, base + 9 * (i + 1));
    }
    let mut emu = Emulator::new();
    emu.load(&image).unwrap();
    emu.cycle();
    let ram = emu.get_ram();
    assert!(ram[0x800000..0x800000 + 65536].iter().all(|b| *b == 1));
    assert_eq!(ram[0x800000 + 65535], 1);
    assert_eq!(ram[0x800000 + 65536], 0);
    assert!(ram[0x800000 + 65536..0x800000 + count].iter().all(|b| *b == 0));
}

#[test]
fn two_instruction_loop_stops_after_the_budget() {
    // Two instructions that jump to each other and swap nothing: neither
    // is an idle instruction, since neither jumps to itself.
    let mut image: Vec<u8> = vec![0; 0x200];
    image[2..5].copy_from_slice(&be24(0x100));
    put_instruction(&mut image, 0x100, 0x10, 0x10, 0x109);
    put_instruction(&mut image, 0x109, 0x10, 0x10, 0x100);
    let mut emu = Emulator::new();
    emu.load(&image).unwrap();
    emu.cycle();
    assert_eq!(emu.get_ram()[..0x200], image[..]);
    assert_eq!(emu.get_screen()[1][..0x100], image[0x100..0x200]);
}

#[test]
fn idle_instruction_ends_the_frame_early() {
    // The first instruction idles; the one behind it would write a byte.
    let mut image: Vec<u8> = vec![0; 0x200];
    image[2..5].copy_from_slice(&be24(0x100));
    image[0x10] = 5;
    put_instruction(&mut image, 0x100, 0x10, 0x10, 0x100);
    put_instruction(&mut image, 0x109, 0x10, 0x11, 0x109);
    let mut emu = Emulator::new();
    emu.load(&image).unwrap();
    emu.cycle();
    assert_eq!(emu.get_ram()[0x11], 0);
}

#[test]
fn self_jump_that_copies_is_no_idle_instruction() {
    // Jumps to itself but copies between two addresses: it runs, and the
    // copy is seen.
    let mut image: Vec<u8> = vec![0; 0x200];
    image[2..5].copy_from_slice(&be24(0x100));
    image[0x10] = 5;
    put_instruction(&mut image, 0x100, 0x10, 0x11, 0x100);
    let mut emu = Emulator::new();
    emu.load(&image).unwrap();
    emu.cycle();
    assert_eq!(emu.get_ram()[0x11], 5);
}

#[test]
fn program_runs_again_each_frame() {
    // Each frame the program moves on by one instruction: the program
    // counter in memory is rewritten by the program itself.
    let mut image: Vec<u8> = vec![0; 0x200];
    image[2..5].copy_from_slice(&be24(0x100));
    image[0x10] = 7;
    image[0x12] = 0x12;
    // copy 7 to 0x20, then set the low byte of the program counter to
    // 0x12, then idle.
    put_instruction(&mut image, 0x100, 0x10, 0x20, 0x109);
    put_instruction(&mut image, 0x109, 0x12, 0x04, 0x112);
    put_instruction(&mut image, 0x112, 0x10, 0x21, 0x11B);
    put_instruction(&mut image, 0x11B, 0x10, 0x10, 0x11B);
    let mut emu = Emulator::new();
    emu.load(&image).unwrap();
    emu.cycle();
    assert_eq!(emu.get_ram()[0x20], 7);
    assert_eq!(emu.get_ram()[0x21], 7);
    assert_eq!(emu.program_counter(), 0x112);
}

#[test]
fn screen_is_the_same_until_the_next_frame() {
    let mut image = idle_program();
    image[0x44] = 99;
    let mut emu = Emulator::new();
    emu.load(&image).unwrap();
    emu.cycle();
    let first = emu.get_screen().clone();
    let second = emu.get_screen().clone();
    assert_eq!(first, second);
    assert_eq!(first[0][0x44], 99);
    emu.keypress(1, true).unwrap();
    emu.load(&[0u8; 0x100]).unwrap();
    assert_eq!(emu.get_screen(), &first);
}

#[test]
fn addr_at_is_big_endian() {
    let mut emu = Emulator::new();
    emu.load(&[0, 0, 0x12, 0x34, 0x56, 0x78, 0x9A]).unwrap();
    assert_eq!(emu.addr_at(2), 0x123456);
    assert_eq!(emu.addr_at(3), 0x345678);
    assert_eq!(emu.addr_at(4), 0x56789A);
    assert_eq!(emu.program_counter(), 0x123456);
}

#[test]
fn addr_at_wraps_round_the_end() {
    let mut image: Vec<u8> = vec![0; RAM_SIZE];
    image[0] = 0x33;
    image[1] = 0x44;
    image[RAM_SIZE - 2] = 0x11;
    image[RAM_SIZE - 1] = 0x22;
    let mut emu = Emulator::new();
    emu.load(&image).unwrap();
    assert_eq!(emu.addr_at(RAM_SIZE - 2), 0x112233);
    assert_eq!(emu.addr_at(RAM_SIZE - 1), 0x223344);
    assert_eq!(emu.addr_at(RAM_SIZE), 0x334400);
    assert_eq!(emu.addr_at(RAM_SIZE + 1), 0x440000);
}

#[test]
fn instruction_at_the_end_of_memory_wraps() {
    // The instruction starts 7 bytes before the end of memory: the last
    // two bytes of its jump address are the first two of memory.
    let mut image: Vec<u8> = vec![0; RAM_SIZE];
    let at: usize = RAM_SIZE - 7;
    image[2..5].copy_from_slice(&be24(at));
    image[at..at + 3].copy_from_slice(&be24(0x40));
    image[at + 3..at + 6].copy_from_slice(&be24(0x41));
    image[at + 6] = 0x01;
    image[0x40] = 0x5A;
    put_instruction(&mut image, 0x010000, 0x10, 0x10, 0x010000);
    let mut emu = Emulator::new();
    emu.load(&image).unwrap();
    assert_eq!(emu.program_counter(), 0xFFFFF9);
    assert_eq!(emu.addr_at(at + 6), 0x010000);
    emu.cycle();
    assert_eq!(emu.get_ram()[0x41], 0x5A);
}

#[test]
fn samples_are_read_from_the_selected_block() {
    let mut image: Vec<u8> = vec![0; 0x123500];
    image[2..5].copy_from_slice(&be24(0x100));
    image[6] = 0x12;
    image[7] = 0x34;
    put_instruction(&mut image, 0x100, 0x10, 0x10, 0x100);
    for i in 0..256usize {
        image[0x123400 + i] = (255 - i) as u8;
    }
    let mut emu = Emulator::new();
    emu.load(&image).unwrap();
    assert_eq!(emu.sound_page(), 0x1234);
    emu.cycle();
    let samples = emu.get_samples();
    assert_eq!(samples.len(), 256);
    for i in 0..256usize {
        assert_eq!(samples[i], (255 - i) as u8);
    }
    assert_eq!(samples[0], 255);
    assert_eq!(samples[255], 0);
}

#[test]
fn frame_depends_on_memory_and_keys_alone() {
    // Two machines with the same memory and keys, one of which has shown
    // another picture before.
    let mut image = idle_program();
    image[0x60] = 42;
    let mut first = Emulator::new();
    first.load(&image).unwrap();
    let mut second = Emulator::new();
    let mut other = idle_program();
    other[0x61] = 17;
    second.load(&other).unwrap();
    second.cycle();
    assert_eq!(second.get_screen()[0][0x61], 17);
    second.load(&image).unwrap();
    first.keypress(2, true).unwrap();
    second.keypress(2, true).unwrap();
    first.cycle();
    second.cycle();
    assert_eq!(first.get_screen(), second.get_screen());
    assert_eq!(first.get_samples(), second.get_samples());
    assert!(first.get_ram()[..] == second.get_ram()[..]);
    assert_eq!(first.get_screen()[0][0], 0x04);
    assert_eq!(first.get_screen()[0][0x60], 42);
}
