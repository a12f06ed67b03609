//! What holds of the model whatever program is loaded.

use crate::model::{
    addr_at, bit_is_set, executed, frame, frame_ram, initial, is_halt, jump, key_bit, key_byte,
    keyboard_word, loaded, never_halts, pixel_addr, run, step, stopped_at, well_formed, with_key,
    with_keys, word_bit_is_set, wrap, MachineState,
};
use vstd::prelude::*;

verus! {

/// Each bit of a byte made of eight flags, one to a bit, is its flag.
proof fn lemma_packed_bits(
    v: u8,
    b0: u8,
    b1: u8,
    b2: u8,
    b3: u8,
    b4: u8,
    b5: u8,
    b6: u8,
    b7: u8,
)
    by (bit_vector)
    requires
        b0 <= 1 && b1 <= 1 && b2 <= 1 && b3 <= 1 && b4 <= 1 && b5 <= 1 && b6 <= 1 && b7 <= 1,
        v == b0 | (b1 << 1u8) | (b2 << 2u8) | (b3 << 3u8) | (b4 << 4u8) | (b5 << 5u8) | (b6 << 6u8)
            | (b7 << 7u8),
    ensures
        (v >> 0u8) & 1u8 == b0,
        (v >> 1u8) & 1u8 == b1,
        (v >> 2u8) & 1u8 == b2,
        (v >> 3u8) & 1u8 == b3,
        (v >> 4u8) & 1u8 == b4,
        (v >> 5u8) & 1u8 == b5,
        (v >> 6u8) & 1u8 == b6,
        (v >> 7u8) & 1u8 == b7,
{
}

/// Bit `i` of a packed keyboard byte is set exactly when key `base + i` is
/// held.
pub proof fn lemma_key_byte_bits(keys: Seq<bool>, base: int, i: u8)
    requires
        i < 8,
    ensures
        bit_is_set(key_byte(keys, base), i) <==> keys[base + i],
{
    lemma_packed_bits(
        key_byte(keys, base),
        key_bit(keys[base]),
        key_bit(keys[base + 1]),
        key_bit(keys[base + 2]),
        key_bit(keys[base + 3]),
        key_bit(keys[base + 4]),
        key_bit(keys[base + 5]),
        key_bit(keys[base + 6]),
        key_bit(keys[base + 7]),
    );
    if i == 0 {
    } else if i == 1 {
    } else if i == 2 {
    } else if i == 3 {
    } else if i == 4 {
    } else if i == 5 {
    } else if i == 6 {
    } else {
        assert(i == 7);
    }
}

/// When a frame packs the keys, bit `k % 8` of keyboard byte `k / 8` is set
/// exactly when key `k` is held: keys 0-7 are in the byte at address 0,
/// keys 8-15 in the byte at address 1.
pub proof fn lemma_keys_published(ram: Seq<u8>, keys: Seq<bool>, k: int)
    requires
        ram.len() == 0x100_0000,
        0 <= k < 16,
    ensures
        bit_is_set(with_keys(ram, keys)[k / 8], (k % 8) as u8) <==> keys[k],
{
    if k < 8 {
        lemma_key_byte_bits(keys, 0, k as u8);
    } else {
        lemma_key_byte_bits(keys, 8, (k - 8) as u8);
    }
}

/// The low eight bits of a 16-bit value are those of its low byte, the high
/// eight those of its high byte.
proof fn lemma_word_bits(word: u16, low: u8, high: u8, k: u16)
    by (bit_vector)
    requires
        word == (high as u16) * 0x100u16 + (low as u16),
        k < 16,
    ensures
        k < 8 ==> (((word >> k) & 1u16 == 1u16) <==> ((low >> (k as u8)) & 1u8 == 1u8)),
        k >= 8 ==> (((word >> k) & 1u16 == 1u16) <==> ((high >> ((k - 8) as u8)) & 1u8 == 1u8)),
{
}

/// Bit `k` of the keyboard register is bit `k % 8` of the keyboard byte
/// at address `k / 8`.
pub proof fn lemma_keyboard_word_bits(ram: Seq<u8>, k: int)
    requires
        ram.len() == 0x100_0000,
        0 <= k < 16,
    ensures
        word_bit_is_set(keyboard_word(ram) as u16, k as u16) <==> bit_is_set(
            ram[k / 8],
            (k % 8) as u8,
        ),
{
    lemma_word_bits(keyboard_word(ram) as u16, ram[0], ram[1], k as u16);
}

/// After key `k` is pressed and one frame has run, the bit of key `k` is
/// set in the keyboard bytes and in the keyboard register, provided that
/// the program left that bit as the frame packed it.
pub proof fn lemma_pressed_key_is_set(s: MachineState, k: int)
    requires
        well_formed(s),
        0 <= k < 16,
        ({
            let pressed = with_key(s, k, true);
            bit_is_set(frame_ram(pressed)[k / 8], (k % 8) as u8) == bit_is_set(
                with_keys(pressed.ram, pressed.keys)[k / 8],
                (k % 8) as u8,
            )
        }),
    ensures
        bit_is_set(frame(with_key(s, k, true)).ram[k / 8], (k % 8) as u8),
        word_bit_is_set(keyboard_word(frame(with_key(s, k, true)).ram) as u16, k as u16),
{
    let pressed = with_key(s, k, true);
    let packed = with_keys(pressed.ram, pressed.keys);
    lemma_keys_published(pressed.ram, pressed.keys, k);
    lemma_run_keeps_size(packed, addr_at(packed, 2), 65536);
    lemma_keyboard_word_bits(frame(pressed).ram, k);
}

/// A frame whose first instruction idles leaves memory as the keys were
/// packed into it, so that each key's bit is set exactly when the key is
/// held.
pub proof fn lemma_idle_frame_shows_keys(s: MachineState, k: int)
    requires
        well_formed(s),
        0 <= k < 16,
        ({
            let packed = with_keys(s.ram, s.keys);
            is_halt(packed, addr_at(packed, 2))
        }),
    ensures
        frame_ram(s) == with_keys(s.ram, s.keys),
        bit_is_set(frame(s).ram[k / 8], (k % 8) as u8) <==> s.keys[k],
{
    lemma_keys_published(s.ram, s.keys, k);
}

/// A frame depends on memory and on the keys alone: what the screen and
/// the audio block held before does not matter.
pub proof fn lemma_frame_depends_on_memory_and_keys(a: MachineState, b: MachineState)
    requires
        a.ram == b.ram,
        a.keys == b.keys,
    ensures
        frame(a) == frame(b),
{
}

/// Loading puts the program's bytes at the start of memory and keeps
/// every byte behind them.
pub proof fn lemma_loaded_bytes(s: MachineState, data: Seq<u8>, i: int)
    requires
        well_formed(s),
        data.len() <= 0x100_0000,
        0 <= i < 0x100_0000,
    ensures
        well_formed(loaded(s, data)),
        loaded(s, data).ram[i] == (if i < data.len() {
            data[i]
        } else {
            s.ram[i]
        }),
{
}

/// An address read from memory lies in the address space, and is its
/// three bytes side by side, the first byte highest.
pub proof fn lemma_addr_in_range(ram: Seq<u8>, offset: int)
    ensures
        0 <= addr_at(ram, offset) < 0x100_0000,
        addr_at(ram, offset) == ((ram[wrap(offset)] as u32) << 16u32) | ((ram[wrap(
            offset + 1,
        )] as u32) << 8u32) | (ram[wrap(offset + 2)] as u32),
{
    let high: u8 = ram[wrap(offset)];
    let mid: u8 = ram[wrap(offset + 1)];
    let low: u8 = ram[wrap(offset + 2)];
    assert(high as u32 * 0x1_0000u32 + mid as u32 * 0x100u32 + low as u32 == ((high as u32)
        << 16u32) | ((mid as u32) << 8u32) | (low as u32)) by (bit_vector);
}

/// A machine as constructed, or after a reset, shows a screen of zeros.
pub proof fn lemma_initial_screen_blank(x: int, y: int)
    requires
        0 <= x < 256,
        0 <= y < 256,
    ensures
        initial().screen[y][x] == 0,
        well_formed(initial()),
{
}

/// A frame never executes more instructions than its budget, and executes
/// exactly that many when the program meets no idle instruction.
pub proof fn lemma_executed_bounded(ram: Seq<u8>, pc: int, budget: nat)
    ensures
        executed(ram, pc, budget) <= budget,
        never_halts(ram, pc, budget) ==> executed(ram, pc, budget) == budget,
        executed(ram, pc, budget) < budget ==> is_halt(
            run(ram, pc, budget),
            stopped_at(ram, pc, budget),
        ),
    decreases budget,
{
    if budget == 0 || is_halt(ram, pc) {
    } else {
        lemma_executed_bounded(step(ram, pc), jump(ram, pc), (budget - 1) as nat);
    }
}

/// Executing instructions never changes the size of memory.
pub proof fn lemma_run_keeps_size(ram: Seq<u8>, pc: int, budget: nat)
    requires
        ram.len() == 0x100_0000,
    ensures
        run(ram, pc, budget).len() == ram.len(),
    decreases budget,
{
    if budget == 0 || is_halt(ram, pc) {
    } else {
        lemma_run_keeps_size(step(ram, pc), jump(ram, pc), (budget - 1) as nat);
    }
}

/// After a frame the screen equals, pixel for pixel, the page of memory
/// that the byte at address 5 selects at the end of the frame, and the
/// audio block the 256 bytes that the two bytes at address 6 select.
pub proof fn lemma_frame_shows_memory(s: MachineState, x: int, y: int)
    requires
        well_formed(s),
        0 <= x < 256,
        0 <= y < 256,
    ensures
        well_formed(frame(s)),
        frame(s).screen[y][x] == frame(s).ram[pixel_addr(frame(s).ram[5] as int, x, y)],
        0 <= pixel_addr(frame(s).ram[5] as int, x, y) < 0x100_0000,
        frame(s).samples[x] == frame(s).ram[(frame(s).ram[6] * 0x100 + frame(s).ram[7]) * 0x100
            + x],
        frame(s).keys == s.keys,
{
    let packed = with_keys(s.ram, s.keys);
    lemma_run_keeps_size(packed, addr_at(packed, 2), 65536);
}

/// The address of a pixel is its page, row and column side by side:
/// `(page << 16) | (y << 8) | x`.
pub proof fn lemma_pixel_addr_bits(page: u8, x: u8, y: u8)
    ensures
        pixel_addr(page as int, x as int, y as int) == ((page as u32) << 16u32) | ((y as u32)
            << 8u32) | (x as u32),
{
    assert(page as u32 * 0x1_0000u32 + y as u32 * 0x100u32 + x as u32 == ((page as u32) << 16u32)
        | ((y as u32) << 8u32) | (x as u32)) by (bit_vector);
}

/// A machine that holds no program idles at once: a frame leaves a machine
/// as constructed unchanged.
pub proof fn lemma_unloaded_frame_is_blank()
    ensures
        frame(initial()) == initial(),
{
    let s = initial();
    let zero = key_byte(s.keys, 0);
    assert(zero == 0u8) by {
        assert((0u8 | (0u8 << 1u8) | (0u8 << 2u8) | (0u8 << 3u8) | (0u8 << 4u8) | (0u8 << 5u8) | (
        0u8 << 6u8) | (0u8 << 7u8)) == 0u8) by (bit_vector);
    }
    assert(key_byte(s.keys, 8) == 0u8) by {
        assert((0u8 | (0u8 << 1u8) | (0u8 << 2u8) | (0u8 << 3u8) | (0u8 << 4u8) | (0u8 << 5u8) | (
        0u8 << 6u8) | (0u8 << 7u8)) == 0u8) by (bit_vector);
    }
    let packed = with_keys(s.ram, s.keys);
    assert(packed =~= s.ram);
    assert(is_halt(packed, 0));
    assert(frame_ram(s) == s.ram);
    assert(frame(s).screen =~~= s.screen);
    assert(frame(s).samples =~= s.samples);
}

} // verus!
