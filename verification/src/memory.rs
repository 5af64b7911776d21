//! What is put in memory before a run: the two fonts and the program.

use vstd::prelude::*;

use crate::cpu::{Cpu, Machine, PROGRAM_START};
use crate::error::EmuError;

verus! {

/// Address of the first glyph of the small font.
pub const FONT_START: u16 = 0x000;

/// Address of the first glyph of the large font.
pub const BIGFONT_START: u16 = 0x050;

/// The small font: sixteen glyphs, `0` to `F`, of five rows each.
pub const FONT: [u8; 80] = [
    0xF0, 0x90, 0x90, 0x90, 0xF0,
    0x20, 0x60, 0x20, 0x20, 0x70,
    0xF0, 0x10, 0xF0, 0x80, 0xF0,
    0xF0, 0x10, 0xF0, 0x10, 0xF0,
    0x90, 0x90, 0xF0, 0x10, 0x10,
    0xF0, 0x80, 0xF0, 0x10, 0xF0,
    0xF0, 0x80, 0xF0, 0x90, 0xF0,
    0xF0, 0x10, 0x20, 0x40, 0x40,
    0xF0, 0x90, 0xF0, 0x90, 0xF0,
    0xF0, 0x90, 0xF0, 0x10, 0xF0,
    0xF0, 0x90, 0xF0, 0x90, 0x90,
    0xE0, 0x90, 0xE0, 0x90, 0xE0,
    0xF0, 0x80, 0x80, 0x80, 0xF0,
    0xE0, 0x90, 0x90, 0x90, 0xE0,
    0xF0, 0x80, 0xF0, 0x80, 0xF0,
    0xF0, 0x80, 0xF0, 0x80, 0x80,
];

/// The large font: sixteen glyphs, `0` to `F`, of ten rows each.
pub const BIGFONT: [u8; 160] = [
    0xFF, 0xFF, 0xC3, 0xC3, 0xC3, 0xC3, 0xC3, 0xC3, 0xFF, 0xFF,
    0x18, 0x78, 0x78, 0x18, 0x18, 0x18, 0x18, 0x18, 0xFF, 0xFF,
    0xFF, 0xFF, 0x03, 0x03, 0xFF, 0xFF, 0xC0, 0xC0, 0xFF, 0xFF,
    0xFF, 0xFF, 0x03, 0x03, 0xFF, 0xFF, 0x03, 0x03, 0xFF, 0xFF,
    0xC3, 0xC3, 0xC3, 0xC3, 0xFF, 0xFF, 0x03, 0x03, 0x03, 0x03,
    0xFF, 0xFF, 0xC0, 0xC0, 0xFF, 0xFF, 0x03, 0x03, 0xFF, 0xFF,
    0xFF, 0xFF, 0xC0, 0xC0, 0xFF, 0xFF, 0xC3, 0xC3, 0xFF, 0xFF,
    0xFF, 0xFF, 0x03, 0x03, 0x06, 0x0C, 0x18, 0x18, 0x18, 0x18,
    0xFF, 0xFF, 0xC3, 0xC3, 0xFF, 0xFF, 0xC3, 0xC3, 0xFF, 0xFF,
    0xFF, 0xFF, 0xC3, 0xC3, 0xFF, 0xFF, 0x03, 0x03, 0xFF, 0xFF,
    0x7E, 0xFF, 0xC3, 0xC3, 0xC3, 0xFF, 0xFF, 0xC3, 0xC3, 0xC3,
    0xFC, 0xFC, 0xC3, 0xC3, 0xFC, 0xFC, 0xC3, 0xC3, 0xFC, 0xFC,
    0x3C, 0xFF, 0xC3, 0xC0, 0xC0, 0xC0, 0xC0, 0xC3, 0xFF, 0x3C,
    0xFC, 0xFE, 0xC3, 0xC3, 0xC3, 0xC3, 0xC3, 0xC3, 0xFE, 0xFC,
    0xFF, 0xFF, 0xC0, 0xC0, 0xFF, 0xFF, 0xC0, 0xC0, 0xFF, 0xFF,
    0xFF, 0xFF, 0xC0, 0xC0, 0xFF, 0xFF, 0xC0, 0xC0, 0xC0, 0xC0,
];

/// `target` with the bytes of `source` written over it from index `at` on.
pub open spec fn spliced(target: Seq<u8>, at: int, source: Seq<u8>) -> Seq<u8> {
    Seq::new(
        target.len(),
        |a: int|
            if at <= a < at + source.len() {
                source[a - at]
            } else {
                target[a]
            },
    )
}

impl Cpu {
    /// Copies `bytes` into memory from address `at` on.
    fn write_bytes(&mut self, at: usize, bytes: &[u8])
        requires
            at + bytes@.len() <= 4096,
        ensures
            final(self)@ == (Machine {
                memory: spliced(old(self)@.memory, at as int, bytes@),
                ..old(self)@
            }),
    {
        let count = bytes.len();
        for k in 0..count
            invariant
                count == bytes@.len(),
                at + count <= 4096,
                self@ == (Machine {
                    memory: spliced(old(self)@.memory, at as int, bytes@.take(k as int)),
                    ..old(self)@
                }),
        {
            self.memory[at + k] = bytes[k];
        }
        assert(bytes@.take(count as int) == bytes@);
    }

    /// Loads a program: copies `rom` into memory from the program start on.
    /// A program that does not fit between there and the end of memory is
    /// refused, and memory stays as it was.
    pub fn load_rom(&mut self, rom: &[u8]) -> (r: Result<(), EmuError>)
        ensures
            r == if rom@.len() <= 4096 - PROGRAM_START {
                Ok::<(), EmuError>(())
            } else {
                Err(EmuError::IndexOutOfRange)
            },
            final(self)@ == if rom@.len() <= 4096 - PROGRAM_START {
                Machine {
                    memory: spliced(old(self)@.memory, PROGRAM_START as int, rom@),
                    ..old(self)@
                }
            } else {
                old(self)@
            },
    {
        if rom.len() > 4096 - PROGRAM_START as usize {
            return Err(EmuError::IndexOutOfRange);
        }
        self.write_bytes(PROGRAM_START as usize, rom);
        Ok(())
    }

    /// Writes the two fonts to their places in low memory.
    pub fn load_fonts(&mut self)
        ensures
            final(self)@ == (Machine {
                memory: spliced(
                    spliced(old(self)@.memory, FONT_START as int, FONT@),
                    BIGFONT_START as int,
                    BIGFONT@,
                ),
                ..old(self)@
            }),
    {
        self.write_bytes(FONT_START as usize, &FONT);
        self.write_bytes(BIGFONT_START as usize, &BIGFONT);
    }
}

} // verus!
