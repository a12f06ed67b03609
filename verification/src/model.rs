//! The mathematical model of the machine: what a frame does to memory,
//! stated over sequences of bytes.

use vstd::prelude::*;

verus! {

/// Size of the address space in bytes (2^24).
pub const RAM_SIZE: usize = 0x100_0000;

pub const SCREEN_WIDTH: usize = 256;

pub const SCREEN_HEIGHT: usize = 256;

pub const NUM_KEYS: usize = 16;

/// Samples per second: one block of 256 samples for each of 60 frames.
pub const SAMPLE_RATE: usize = 15360;

/// Samples in the audio block of one frame.
pub const SAMPLE_COUNT: usize = 256;

/// The most instructions that one frame executes.
pub const FRAME_BUDGET: usize = 65536;

/// Address of the two keyboard bytes.
pub const KEYBOARD_STATE: usize = 0x0;

/// Address of the three bytes that hold the program counter.
pub const PROGRAM_COUNTER: usize = 0x2;

/// Address of the byte that selects the page shown on screen.
pub const PIXEL_DATA: usize = 0x5;

/// Address of the two bytes that select the audio block.
pub const SOUND_DATA: usize = 0x6;

/// The observable state of a machine.
pub struct MachineState {
    pub ram: Seq<u8>,
    pub keys: Seq<bool>,
    pub screen: Seq<Seq<u8>>,
    pub samples: Seq<u8>,
}

/// An address reduced into the address space: reads that run past the last
/// byte continue at address 0.
pub open spec fn wrap(a: int) -> int {
    a % 0x100_0000
}

/// The 24-bit big-endian value held in the three bytes at `offset`.
pub open spec fn addr_at(ram: Seq<u8>, offset: int) -> int {
    ram[wrap(offset)] * 0x1_0000 + ram[wrap(offset + 1)] * 0x100 + ram[wrap(offset + 2)]
}

/// Address that the instruction at `pc` reads its byte from.
pub open spec fn source(ram: Seq<u8>, pc: int) -> int {
    addr_at(ram, pc)
}

/// Address that the instruction at `pc` writes its byte to.
pub open spec fn dest(ram: Seq<u8>, pc: int) -> int {
    addr_at(ram, pc + 3)
}

/// Address of the instruction that follows the one at `pc`.
pub open spec fn jump(ram: Seq<u8>, pc: int) -> int {
    addr_at(ram, pc + 6)
}

/// The instruction at `pc` copies a byte onto itself and jumps to itself:
/// the program idles until the next frame.
pub open spec fn is_halt(ram: Seq<u8>, pc: int) -> bool {
    source(ram, pc) == dest(ram, pc) && jump(ram, pc) == pc
}

/// Memory after the instruction at `pc` has copied its byte.
pub open spec fn step(ram: Seq<u8>, pc: int) -> Seq<u8> {
    ram.update(dest(ram, pc), ram[source(ram, pc)])
}

/// Memory after executing from `pc` until an idle instruction is met or
/// `budget` instructions have run.
pub open spec fn run(ram: Seq<u8>, pc: int, budget: nat) -> Seq<u8>
    decreases budget,
{
    if budget == 0 || is_halt(ram, pc) {
        ram
    } else {
        run(step(ram, pc), jump(ram, pc), (budget - 1) as nat)
    }
}

/// The address at which `run` stops.
pub open spec fn stopped_at(ram: Seq<u8>, pc: int, budget: nat) -> int
    decreases budget,
{
    if budget == 0 || is_halt(ram, pc) {
        pc
    } else {
        stopped_at(step(ram, pc), jump(ram, pc), (budget - 1) as nat)
    }
}

/// How many instructions `run` executes.
pub open spec fn executed(ram: Seq<u8>, pc: int, budget: nat) -> nat
    decreases budget,
{
    if budget == 0 || is_halt(ram, pc) {
        0
    } else {
        1 + executed(step(ram, pc), jump(ram, pc), (budget - 1) as nat)
    }
}

/// No instruction reached from `pc` within `budget` steps is an idle one.
pub open spec fn never_halts(ram: Seq<u8>, pc: int, budget: nat) -> bool
    decreases budget,
{
    budget == 0 || (!is_halt(ram, pc) && never_halts(
        step(ram, pc),
        jump(ram, pc),
        (budget - 1) as nat,
    ))
}

/// 1 for a held key, 0 for a released one.
pub open spec fn key_bit(held: bool) -> u8 {
    if held {
        1u8
    } else {
        0u8
    }
}

/// The byte that packs the eight keys `base .. base + 8`, the lowest key
/// in the lowest bit.
pub open spec fn key_byte(keys: Seq<bool>, base: int) -> u8 {
    key_bit(keys[base]) | (key_bit(keys[base + 1]) << 1u8) | (key_bit(keys[base + 2]) << 2u8) | (
    key_bit(keys[base + 3]) << 3u8) | (key_bit(keys[base + 4]) << 4u8) | (key_bit(keys[base + 5])
        << 5u8) | (key_bit(keys[base + 6]) << 6u8) | (key_bit(keys[base + 7]) << 7u8)
}

/// Bit `i` of `byte` is 1.
pub open spec fn bit_is_set(byte: u8, i: u8) -> bool {
    (byte >> i) & 1u8 == 1u8
}

/// Memory with the keyboard bytes rewritten from the key flags: keys 0-7
/// in the byte at address 0, keys 8-15 in the byte at address 1.
pub open spec fn with_keys(ram: Seq<u8>, keys: Seq<bool>) -> Seq<u8> {
    ram.update(0, key_byte(keys, 0)).update(1, key_byte(keys, 8))
}

/// The two keyboard bytes as one 16-bit value: bit `k` stands for key `k`.
pub open spec fn keyboard_word(ram: Seq<u8>) -> int {
    ram[1] * 0x100 + ram[0]
}

/// Bit `k` of the 16-bit value `word` is 1.
pub open spec fn word_bit_is_set(word: u16, k: u16) -> bool {
    (word >> k) & 1u16 == 1u16
}

/// Address of the pixel at column `x`, row `y` of page `page`.
pub open spec fn pixel_addr(page: int, x: int, y: int) -> int {
    page * 0x1_0000 + y * 0x100 + x
}

/// Row `y` of page `page`: 256 pixels, column 0 first.
pub open spec fn page_row(ram: Seq<u8>, page: int, y: int) -> Seq<u8> {
    Seq::new(256, |x: int| ram[pixel_addr(page, x, y)])
}

/// The 256 rows of 256 pixels that page `page` of memory holds.
pub open spec fn page_pixels(ram: Seq<u8>, page: int) -> Seq<Seq<u8>> {
    Seq::new(256, |y: int| page_row(ram, page, y))
}

/// The 256 samples that start at address `selector * 256`.
pub open spec fn sample_block(ram: Seq<u8>, selector: int) -> Seq<u8> {
    Seq::new(256, |i: int| ram[selector * 0x100 + i])
}

/// The 16-bit big-endian value in the two bytes at `offset`.
pub open spec fn word_at(ram: Seq<u8>, offset: int) -> int {
    ram[offset] * 0x100 + ram[offset + 1]
}

/// A machine as constructed: memory, screen and samples zero, no key held.
pub open spec fn initial() -> MachineState {
    MachineState {
        ram: Seq::new(0x100_0000, |i: int| 0u8),
        keys: Seq::new(16, |i: int| false),
        screen: Seq::new(256, |y: int| Seq::new(256, |x: int| 0u8)),
        samples: Seq::new(256, |i: int| 0u8),
    }
}

/// The state after `data` has been copied to the start of memory.
pub open spec fn loaded(s: MachineState, data: Seq<u8>) -> MachineState {
    MachineState { ram: data + s.ram.skip(data.len() as int), ..s }
}

/// The state after key `idx` has been pressed or released.
pub open spec fn with_key(s: MachineState, idx: int, pressed: bool) -> MachineState {
    MachineState { keys: s.keys.update(idx, pressed), ..s }
}

/// Memory at the end of a frame: the keys are packed, then the program
/// runs from the program counter within the frame's budget.
pub open spec fn frame_ram(s: MachineState) -> Seq<u8> {
    let packed = with_keys(s.ram, s.keys);
    run(packed, addr_at(packed, 2), 65536)
}

/// The state after one frame: screen and samples are read out of the
/// memory that the program left behind.
pub open spec fn frame(s: MachineState) -> MachineState {
    let ram = frame_ram(s);
    MachineState {
        ram,
        keys: s.keys,
        screen: page_pixels(ram, ram[5] as int),
        samples: sample_block(ram, word_at(ram, 6)),
    }
}

/// Sizes that every machine keeps.
pub open spec fn well_formed(s: MachineState) -> bool {
    &&& s.ram.len() == 0x100_0000
    &&& s.keys.len() == 16
    &&& s.screen.len() == 256
    &&& forall|y: int| 0 <= y < 256 ==> (#[trigger] s.screen[y]).len() == 256
    &&& s.samples.len() == 256
}

} // verus!
