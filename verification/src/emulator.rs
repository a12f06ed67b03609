//! The machine itself.

use crate::model::{
    addr_at, executed, frame, initial, is_halt, key_bit, key_byte, keyboard_word, loaded,
    page_pixels, page_row, pixel_addr, run, sample_block, well_formed, with_key, with_keys,
    word_at, wrap, MachineState, FRAME_BUDGET, KEYBOARD_STATE, NUM_KEYS, PIXEL_DATA,
    PROGRAM_COUNTER, RAM_SIZE, SAMPLE_COUNT, SCREEN_HEIGHT, SCREEN_WIDTH, SOUND_DATA,
};
use vstd::prelude::*;

verus! {

/// Why the machine turned a request down.
#[derive(Clone, Copy, Debug, PartialEq, Eq)]
pub enum EmulatorError {
    /// The program is larger than the address space.
    ProgramTooLarge,
    /// The key index is not one of the 16 keys.
    InvalidKey,
}

pub struct Emulator {
    ram: Vec<u8>,
    screen: Vec<Vec<u8>>,
    samples: Vec<u8>,
    keys: [bool; 16],
}

impl View for Emulator {
    type V = MachineState;

    closed spec fn view(&self) -> MachineState {
        MachineState {
            ram: self.ram@,
            keys: self.keys@,
            screen: Seq::new(self.screen@.len(), |y: int| self.screen@[y]@),
            samples: self.samples@,
        }
    }
}

/// A screen of 256 rows of 256 zero bytes.
fn blank_screen() -> (screen: Vec<Vec<u8>>)
    ensures
        screen@.len() == 256,
        forall|y: int| 0 <= y < 256 ==> (#[trigger] screen@[y])@ == Seq::new(256, |x: int| 0u8),
{
    let mut screen: Vec<Vec<u8>> = Vec::with_capacity(SCREEN_HEIGHT);
    let mut y: usize = 0;
    while y < SCREEN_HEIGHT
        invariant
            y <= SCREEN_HEIGHT,
            screen@.len() == y,
            forall|r: int| 0 <= r < y ==> (#[trigger] screen@[r])@ == Seq::new(256, |x: int| 0u8),
        decreases SCREEN_HEIGHT - y,
    {
        let row: Vec<u8> = vec![0u8; SCREEN_WIDTH];
        assert(row@ =~= Seq::new(256, |x: int| 0u8));
        screen.push(row);
        y += 1;
    }
    screen
}

impl Emulator {
    /// The sizes of memory, screen, sample block and key flags are as the
    /// architecture fixes them.
    pub open spec fn wf(&self) -> bool {
        well_formed(self@)
    }

    #[verifier::type_invariant]
    closed spec fn inv(&self) -> bool {
        well_formed(self@)
    }

    /// A machine with all memory zero, no key held and a blank screen.
    pub fn new() -> (e: Self)
        ensures
            e.wf(),
            e@ == initial(),
    {
        let e = Self {
            ram: vec![0u8; RAM_SIZE],
            screen: blank_screen(),
            samples: vec![0u8; SAMPLE_COUNT],
            keys: [false; 16],
        };
        assert(e@.ram =~= initial().ram);
        assert(e@.keys =~= initial().keys);
        assert(e@.screen =~= initial().screen);
        assert(e@.samples =~= initial().samples);
        e
    }

    /// Puts the machine back into the state in which `new` makes it.
    pub fn reset(&mut self)
        ensures
            final(self).wf(),
            final(self)@ == initial(),
            forall|x: int, y: int|
                0 <= x < 256 && 0 <= y < 256 ==> #[trigger] final(self)@.screen[y][x] == 0,
    {
        *self = Self::new();
    }

    /// The 24-bit big-endian address held in the three bytes that start at
    /// `offset`. The offset, and the two that follow it, wrap round the end
    /// of the address space.
    pub fn addr_at(&self, offset: usize) -> (addr: usize)
        ensures
            addr == addr_at(self@.ram, offset as int),
            addr < RAM_SIZE,
    {
        proof {
            use_type_invariant(&*self);
        }
        let first: usize = offset % RAM_SIZE;
        let second: usize = (first + 1) % RAM_SIZE;
        let third: usize = (first + 2) % RAM_SIZE;
        assert(second == wrap(offset + 1) && third == wrap(offset + 2)) by {
            lemma_wrap_next(offset as int, 1);
            lemma_wrap_next(offset as int, 2);
        }
        let high: usize = self.ram[first] as usize;
        let mid: usize = self.ram[second] as usize;
        let low: usize = self.ram[third] as usize;
        high * 0x1_0000 + mid * 0x100 + low
    }

    /// Copies `data` to the start of memory and leaves the bytes behind it
    /// as they were. A program larger than the address space is refused,
    /// and the machine is then unchanged.
    pub fn load(&mut self, data: &[u8]) -> (res: Result<(), EmulatorError>)
        ensures
            final(self).wf(),
            res is Ok <==> data@.len() <= RAM_SIZE,
            res is Ok ==> final(self)@ == loaded(old(self)@, data@),
            res is Err ==> res == Err::<(), EmulatorError>(EmulatorError::ProgramTooLarge)
                && *final(self) == *old(self),
    {
        proof {
            use_type_invariant(&*self);
        }
        if data.len() > RAM_SIZE {
            return Err(EmulatorError::ProgramTooLarge);
        }
        let mut i: usize = 0;
        while i < data.len()
            invariant
                i <= data@.len() <= RAM_SIZE,
                self.wf(),
                self.keys == old(self).keys,
                self.screen == old(self).screen,
                self.samples == old(self).samples,
                forall|j: int| 0 <= j < i ==> self.ram@[j] == data@[j],
                forall|j: int| i <= j < RAM_SIZE ==> self.ram@[j] == old(self).ram@[j],
            decreases data@.len() - i,
        {
            self.ram[i] = data[i];
            i += 1;
        }
        assert(self@.ram =~= loaded(old(self)@, data@).ram);
        Ok(())
    }

    /// The frame that the last `cycle` read out, row by row.
    pub fn get_screen(&self) -> (screen: &Vec<Vec<u8>>)
        ensures
            self.wf(),
            screen@.len() == 256,
            forall|y: int| 0 <= y < 256 ==> (#[trigger] screen@[y])@ == self@.screen[y],
    {
        proof {
            use_type_invariant(&*self);
        }
        &self.screen
    }

    /// The audio block that the last `cycle` read out: 256 unsigned 8-bit
    /// samples.
    pub fn get_samples(&self) -> (samples: &Vec<u8>)
        ensures
            self.wf(),
            samples@ == self@.samples,
    {
        proof {
            use_type_invariant(&*self);
        }
        &self.samples
    }

    /// The whole address space.
    pub fn get_ram(&self) -> (ram: &Vec<u8>)
        ensures
            self.wf(),
            ram@ == self@.ram,
    {
        proof {
            use_type_invariant(&*self);
        }
        &self.ram
    }

    /// The keyboard register: the two bytes at address 0 as one value, in
    /// which bit `k` stands for key `k`.
    pub fn keyboard_state(&self) -> (state: u16)
        ensures
            state == keyboard_word(self@.ram),
    {
        proof {
            use_type_invariant(&*self);
        }
        let low: u16 = self.ram[KEYBOARD_STATE] as u16;
        let high: u16 = self.ram[KEYBOARD_STATE + 1] as u16;
        high * 0x100 + low
    }

    /// The program counter register: the address in the three bytes at
    /// address 2, at which the next frame starts to execute.
    pub fn program_counter(&self) -> (pc: usize)
        ensures
            pc == addr_at(self@.ram, 2),
            pc < RAM_SIZE,
    {
        proof {
            use_type_invariant(&*self);
        }
        self.addr_at(PROGRAM_COUNTER)
    }

    /// The video register: the byte at address 5, which selects the page
    /// that the screen is read from.
    pub fn pixel_page(&self) -> (page: u8)
        ensures
            page == self@.ram[5],
    {
        proof {
            use_type_invariant(&*self);
        }
        self.ram[PIXEL_DATA]
    }

    /// The audio register: the value in the two bytes at address 6, which
    /// selects the 256 bytes that the audio block is read from.
    pub fn sound_page(&self) -> (selector: u16)
        ensures
            selector == word_at(self@.ram, 6),
    {
        proof {
            use_type_invariant(&*self);
        }
        let high: u16 = self.ram[SOUND_DATA] as u16;
        let low: u16 = self.ram[SOUND_DATA + 1] as u16;
        high * 0x100 + low
    }

    /// Records that key `idx` is held or released. The next frame
    /// publishes it in the keyboard bytes. An index that is not one of the
    /// 16 keys is refused, and the machine is then unchanged.
    pub fn keypress(&mut self, idx: usize, pressed: bool) -> (res: Result<(), EmulatorError>)
        ensures
            final(self).wf(),
            res is Ok <==> idx < NUM_KEYS,
            res is Ok ==> final(self)@ == with_key(old(self)@, idx as int, pressed),
            res is Err ==> res == Err::<(), EmulatorError>(EmulatorError::InvalidKey)
                && *final(self) == *old(self),
    {
        proof {
            use_type_invariant(&*self);
        }
        if idx >= NUM_KEYS {
            return Err(EmulatorError::InvalidKey);
        }
        self.keys[idx] = pressed;
        assert(self@.screen =~= old(self)@.screen);
        Ok(())
    }

    /// Writes the key flags into the two keyboard bytes.
    fn store_keys(&mut self)
        ensures
            final(self).wf(),
            final(self)@ == (MachineState {
                ram: with_keys(old(self)@.ram, old(self)@.keys),
                ..old(self)@
            }),
    {
        proof {
            use_type_invariant(&*self);
        }
        let low: u8 = pack_keys(&self.keys, 0);
        let high: u8 = pack_keys(&self.keys, 8);
        self.ram[KEYBOARD_STATE] = low;
        self.ram[KEYBOARD_STATE + 1] = high;
        assert(self@.screen =~= old(self)@.screen);
    }

    /// Executes instructions from `start` until an idle instruction is met
    /// or the frame's budget is used up, and returns how many were executed.
    fn run_instructions(&mut self, start: usize) -> (count: usize)
        requires
            start < RAM_SIZE,
        ensures
            final(self).wf(),
            final(self)@ == (MachineState {
                ram: run(old(self)@.ram, start as int, FRAME_BUDGET as nat),
                ..old(self)@
            }),
            count == executed(old(self)@.ram, start as int, FRAME_BUDGET as nat),
            count <= FRAME_BUDGET,
    {
        proof {
            use_type_invariant(&*self);
        }
        let mut pc: usize = start;
        let mut count: usize = 0;
        let mut halted: bool = false;
        while count < FRAME_BUDGET && !halted
            invariant
                self.wf(),
                self.keys == old(self).keys,
                self.screen == old(self).screen,
                self.samples == old(self).samples,
                pc < RAM_SIZE,
                count <= FRAME_BUDGET,
                halted ==> is_halt(self.ram@, pc as int),
                run(self.ram@, pc as int, (FRAME_BUDGET - count) as nat) == run(
                    old(self).ram@,
                    start as int,
                    FRAME_BUDGET as nat,
                ),
                count + executed(self.ram@, pc as int, (FRAME_BUDGET - count) as nat) == executed(
                    old(self).ram@,
                    start as int,
                    FRAME_BUDGET as nat,
                ),
            decreases FRAME_BUDGET - count + (if halted { 0int } else { 1int }),
        {
            let source: usize = self.addr_at(pc);
            let dest: usize = self.addr_at(pc + 3);
            let jump: usize = self.addr_at(pc + 6);
            if source == dest && jump == pc {
                halted = true;
            } else {
                let value: u8 = self.ram[source];
                self.ram[dest] = value;
                pc = jump;
                count += 1;
            }
        }
        count
    }

    /// Reads the screen out of the page that the byte at address 5 selects.
    fn read_screen(&mut self)
        ensures
            final(self).wf(),
            final(self)@ == (MachineState {
                screen: page_pixels(old(self)@.ram, old(self)@.ram[5] as int),
                ..old(self)@
            }),
    {
        proof {
            use_type_invariant(&*self);
        }
        let page: u8 = self.pixel_page();
        assert forall|r: int| 0 <= r < 256 implies (#[trigger] self.screen@[r])@.len() == 256 by {
            assert(self@.screen[r].len() == 256);
        }
        copy_page(&self.ram, page, &mut self.screen);
        assert(self@.screen =~= page_pixels(old(self)@.ram, old(self)@.ram[5] as int));
    }

    /// Reads the audio block out of the 256 bytes that the two bytes at
    /// address 6 select.
    fn read_samples(&mut self)
        ensures
            final(self).wf(),
            final(self)@ == (MachineState {
                samples: sample_block(old(self)@.ram, word_at(old(self)@.ram, 6)),
                ..old(self)@
            }),
    {
        proof {
            use_type_invariant(&*self);
        }
        let selector: usize = self.sound_page() as usize;
        let mut i: usize = 0;
        while i < SAMPLE_COUNT
            invariant
                i <= SAMPLE_COUNT,
                self.wf(),
                self.ram == old(self).ram,
                self.keys == old(self).keys,
                self.screen == old(self).screen,
                selector == word_at(old(self).ram@, 6),
                forall|j: int| 0 <= j < i ==> self.samples@[j] == self.ram@[selector * 0x100 + j],
            decreases SAMPLE_COUNT - i,
        {
            let sample: u8 = self.ram[selector * 0x100 + i];
            self.samples[i] = sample;
            i += 1;
        }
        assert(self@.samples =~= sample_block(old(self)@.ram, word_at(old(self)@.ram, 6)));
    }

    /// Runs one frame: publishes the keys in the keyboard bytes, executes
    /// the program from the program counter until it idles or 65536
    /// instructions have run, and reads screen and audio block out of the
    /// memory that it left.
    pub fn cycle(&mut self)
        ensures
            final(self).wf(),
            final(self)@ == frame(old(self)@),
    {
        proof {
            use_type_invariant(&*self);
        }
        self.store_keys();
        let pc: usize = self.program_counter();
        let _ = self.run_instructions(pc);
        self.read_screen();
        self.read_samples();
    }
}

/// Copies page `page` of `ram` into `screen`, pixel by pixel.
fn copy_page(ram: &Vec<u8>, page: u8, screen: &mut Vec<Vec<u8>>)
    requires
        ram@.len() == RAM_SIZE,
        old(screen)@.len() == 256,
        forall|r: int| 0 <= r < 256 ==> (#[trigger] old(screen)@[r])@.len() == 256,
    ensures
        final(screen)@.len() == 256,
        forall|r: int|
            0 <= r < 256 ==> (#[trigger] final(screen)@[r])@ == page_row(ram@, page as int, r),
    no_unwind
{
    let base: usize = (page as usize) * 0x1_0000;
    let mut y: usize = 0;
    while y < SCREEN_HEIGHT
        invariant
            y <= SCREEN_HEIGHT,
            ram@.len() == RAM_SIZE,
            base == page * 0x1_0000,
            screen@.len() == 256,
            forall|r: int| 0 <= r < 256 ==> (#[trigger] screen@[r])@.len() == 256,
            forall|r: int|
                0 <= r < y ==> (#[trigger] screen@[r])@ == page_row(ram@, page as int, r),
        decreases SCREEN_HEIGHT - y,
    {
        let mut x: usize = 0;
        while x < SCREEN_WIDTH
            invariant
                y < SCREEN_HEIGHT,
                x <= SCREEN_WIDTH,
                ram@.len() == RAM_SIZE,
                base == page * 0x1_0000,
                screen@.len() == 256,
                forall|r: int| 0 <= r < 256 ==> (#[trigger] screen@[r])@.len() == 256,
                forall|r: int|
                    0 <= r < y ==> (#[trigger] screen@[r])@ == page_row(ram@, page as int, r),
                forall|c: int|
                    0 <= c < x ==> #[trigger] screen@[y as int]@[c] == ram@[pixel_addr(
                        page as int,
                        c,
                        y as int,
                    )],
            decreases SCREEN_WIDTH - x,
        {
            let pixel_addr: usize = base + y * 0x100 + x;
            let pixel_data: u8 = ram[pixel_addr];
            screen[y][x] = pixel_data;
            x += 1;
        }
        assert(screen@[y as int]@ =~= page_row(ram@, page as int, y as int));
        y += 1;
    }
}

/// 1 for a held key, 0 for a released one.
fn bit(held: bool) -> (b: u8)
    ensures
        b == key_bit(held),
{
    if held {
        1
    } else {
        0
    }
}

/// Packs the eight keys from `base` on into one byte, the lowest key in the
/// lowest bit.
fn pack_keys(keys: &[bool; 16], base: usize) -> (byte: u8)
    requires
        base <= 8,
    ensures
        byte == key_byte(keys@, base as int),
{
    bit(keys[base]) | (bit(keys[base + 1]) << 1u8) | (bit(keys[base + 2]) << 2u8) | (bit(
        keys[base + 3],
    ) << 3u8) | (bit(keys[base + 4]) << 4u8) | (bit(keys[base + 5]) << 5u8) | (bit(keys[base + 6])
        << 6u8) | (bit(keys[base + 7]) << 7u8)
}

/// Stepping an address that was reduced into the address space gives the
/// same as stepping it before.
proof fn lemma_wrap_next(offset: int, k: int)
    requires
        0 <= offset,
        0 <= k,
    ensures
        wrap(wrap(offset) + k) == wrap(offset + k),
{
    vstd::arithmetic::div_mod::lemma_add_mod_noop(offset, k, 0x100_0000);
    vstd::arithmetic::div_mod::lemma_add_mod_noop(wrap(offset), k, 0x100_0000);
    vstd::arithmetic::div_mod::lemma_mod_twice(offset, 0x100_0000);
}

} // verus!
