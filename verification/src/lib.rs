//! A BytePusher virtual machine: a flat 16 MiB address space, one
//! copy-and-jump instruction, and memory-mapped keyboard, video and audio.

pub mod emulator;
pub mod input;
pub mod laws;
pub mod model;
pub mod palette;

pub use emulator::Emulator;
pub use emulator::EmulatorError;
pub use model::NUM_KEYS;
pub use model::RAM_SIZE;
pub use model::SAMPLE_COUNT;
pub use model::SAMPLE_RATE;
pub use model::SCREEN_HEIGHT;
pub use model::SCREEN_WIDTH;
