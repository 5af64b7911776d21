//! The machine state, its mathematical model, and the operations on it that
//! are no instructions: power-on, the timer tick and the keypad.

use vstd::prelude::*;

use crate::display::pixel_count;

verus! {

/// Address at which a program is loaded and execution starts.
pub const PROGRAM_START: u16 = 0x200;

/// The mathematical state of the machine: what a `Cpu` stands for.
#[verifier::ext_equal]
pub struct Machine {
    /// The 4096 bytes of memory.
    pub memory: Seq<u8>,
    /// The bitmap, row by row: pixel `row`, `col` has index `row * cols + col`.
    pub display: Seq<bool>,
    /// Whether the display is in high resolution, 128 by 64; else 64 by 32.
    pub hires: bool,
    /// The program counter.
    pub pc: u16,
    /// The index register I.
    pub i: u16,
    /// The return addresses, the latest last.
    pub stack: Seq<u16>,
    /// The delay timer.
    pub delay_timer: u8,
    /// The sound timer.
    pub sound_timer: u8,
    /// The registers V0 to VF; VF is also the flag of many instructions.
    pub v: Seq<u8>,
    /// The sixteen flag registers that outlive a run.
    pub flag: Seq<u8>,
    /// For each key of the keypad, whether it is down.
    pub keys: Seq<bool>,
    /// Whether a wait for a key has taken its key and waits for all keys up.
    pub key_state: bool,
    /// The instruction word that was fetched last.
    pub opcode: u16,
    /// Whether the tone counts as on.
    pub playing: bool,
}

impl Machine {
    /// This machine with register `x` holding `value`.
    pub open spec fn set_v(self, x: int, value: u8) -> Machine {
        Machine { v: self.v.update(x, value), ..self }
    }

    /// The fixed sizes of the register files and memory, and a bitmap whose
    /// size is that of the current resolution.
    pub open spec fn wf(self) -> bool {
        &&& self.memory.len() == 4096
        &&& self.v.len() == 16
        &&& self.flag.len() == 16
        &&& self.keys.len() == 16
        &&& self.display.len() == pixel_count(self.hires)
    }
}

/// The machine state that the interpreter works on. The caller owns it,
/// feeds the keys, ticks the timers and reads the bitmap between steps.
#[derive(Clone, Debug, PartialEq, Eq)]
pub struct Cpu {
    /// Memory: fonts from 0x000, the program from 0x200.
    pub memory: [u8; 4096],
    /// The bitmap, row by row; 2048 pixels, or 8192 in high resolution.
    pub display_buffer: Vec<bool>,
    /// The program counter.
    pub pc: u16,
    /// The index register I.
    pub i: u16,
    /// The return addresses, the latest last.
    pub stack: Vec<u16>,
    /// The delay timer.
    pub delay_timer: u8,
    /// The sound timer.
    pub sound_timer: u8,
    /// The registers V0 to VF.
    pub v: [u8; 16],
    /// The flag registers that outlive a run.
    pub flag: [u8; 16],
    /// The keypad: which keys are down.
    pub keys: [bool; 16],
    /// Whether a wait for a key has taken its key.
    pub key_state: bool,
    /// The instruction word that was fetched last.
    pub opcode: u16,
    /// Whether the display is in high resolution.
    pub hires: bool,
    /// Whether the tone counts as on.
    pub playing: bool,
}

impl View for Cpu {
    type V = Machine;

    open spec fn view(&self) -> Machine {
        Machine {
            memory: self.memory@,
            display: self.display_buffer@,
            hires: self.hires,
            pc: self.pc,
            i: self.i,
            stack: self.stack@,
            delay_timer: self.delay_timer,
            sound_timer: self.sound_timer,
            v: self.v@,
            flag: self.flag@,
            keys: self.keys@,
            key_state: self.key_state,
            opcode: self.opcode,
            playing: self.playing,
        }
    }
}

/// A timer after one tick: one less, and never below zero.
pub open spec fn ticked(timer: u8) -> u8 {
    if timer == 0 {
        0u8
    } else {
        (timer - 1) as u8
    }
}

/// The lowest index of a pressed key, if any key is pressed.
pub open spec fn lowest_pressed(keys: Seq<bool>) -> Option<int> {
    if exists|k: int| 0 <= k < keys.len() && keys[k] {
        Some(
            choose|k: int|
                0 <= k < keys.len() && keys[k] && forall|j: int| 0 <= j < k ==> !keys[j],
        )
    } else {
        None
    }
}

/// The lowest pressed key is the one pressed key with no pressed key below
/// it: where several keys are down at once, the lowest index wins.
pub proof fn lemma_lowest_pressed(keys: Seq<bool>, k: int)
    requires
        0 <= k < keys.len(),
        keys[k],
        forall|j: int| 0 <= j < k ==> !keys[j],
    ensures
        lowest_pressed(keys) == Some(k),
{
    let found = choose|c: int|
        0 <= c < keys.len() && keys[c] && forall|j: int| 0 <= j < c ==> !keys[j];
    assert(found == k) by {
        if found < k {
            assert(!keys[found]);
        }
        if k < found {
            assert(!keys[k]);
        }
    }
}

/// The code of the host key that stands for the keypad key `pad`. The host
/// keys are the block `1234` / `qwer` / `asdf` / `zxcv`, the keypad it stands
/// for is `123C` / `456D` / `789E` / `A0BF`; a code is the key's character.
pub open spec fn key_code(pad: int) -> i32 {
    seq![
        0x78i32, 0x31i32, 0x32i32, 0x33i32,
        0x71i32, 0x77i32, 0x65i32, 0x61i32,
        0x73i32, 0x64i32, 0x7Ai32, 0x63i32,
        0x34i32, 0x72i32, 0x66i32, 0x76i32,
    ][pad]
}

/// The keypad key that the host key with code `key` stands for, if it stands
/// for one.
pub open spec fn keypad_key(key: i32) -> Option<usize> {
    if key == 0x31 {
        Some(0x1usize)
    } else if key == 0x32 {
        Some(0x2usize)
    } else if key == 0x33 {
        Some(0x3usize)
    } else if key == 0x34 {
        Some(0xCusize)
    } else if key == 0x71 {
        Some(0x4usize)
    } else if key == 0x77 {
        Some(0x5usize)
    } else if key == 0x65 {
        Some(0x6usize)
    } else if key == 0x72 {
        Some(0xDusize)
    } else if key == 0x61 {
        Some(0x7usize)
    } else if key == 0x73 {
        Some(0x8usize)
    } else if key == 0x64 {
        Some(0x9usize)
    } else if key == 0x66 {
        Some(0xEusize)
    } else if key == 0x7A {
        Some(0xAusize)
    } else if key == 0x78 {
        Some(0x0usize)
    } else if key == 0x63 {
        Some(0xBusize)
    } else if key == 0x76 {
        Some(0xFusize)
    } else {
        None
    }
}

/// The sixteen host keys stand for the sixteen keypad keys one to one, and
/// no other host key stands for a keypad key.
pub proof fn lemma_keypad_layout(key: i32)
    ensures
        match keypad_key(key) {
            Some(pad) => pad < 16 && key_code(pad as int) == key,
            None => forall|pad: int| 0 <= pad < 16 ==> key_code(pad) != key,
        },
        forall|pad: int|
            0 <= pad < 16 ==> keypad_key(#[trigger] key_code(pad)) == Some(pad as usize),
{
}

impl Cpu {
    /// The bitmap has the size of the current resolution.
    pub open spec fn wf(&self) -> bool {
        self@.wf()
    }

    /// A machine at power-on: zeroed memory and registers, an empty stack, a
    /// blank low-resolution display, the program counter at the program start
    /// and the given persistent flag registers.
    pub fn new(flag: [u8; 16]) -> (cpu: Cpu)
        ensures
            cpu.wf(),
            cpu@.memory == Seq::new(4096, |k: int| 0u8),
            cpu@.display == Seq::new(2048, |k: int| false),
            !cpu@.hires,
            cpu@.pc == PROGRAM_START,
            cpu@.i == 0,
            cpu@.stack == Seq::<u16>::empty(),
            cpu@.delay_timer == 0,
            cpu@.sound_timer == 0,
            cpu@.v == Seq::new(16, |k: int| 0u8),
            cpu@.flag == flag@,
            cpu@.keys == Seq::new(16, |k: int| false),
            !cpu@.key_state,
            cpu@.opcode == 0,
            !cpu@.playing,
    {
        Cpu {
            memory: [0; 4096],
            display_buffer: vec![false; 2048],
            pc: PROGRAM_START,
            i: 0,
            stack: Vec::new(),
            delay_timer: 0,
            sound_timer: 0,
            v: [0; 16],
            flag,
            keys: [false; 16],
            key_state: false,
            opcode: 0,
            hires: false,
            playing: false,
        }
    }

    /// Whether the bitmap has the size of the current resolution.
    pub fn well_formed(&self) -> (b: bool)
        ensures
            b == self.wf(),
    {
        self.display_buffer.len() == if self.hires { 8192 } else { 2048 }
    }

    /// Sets the shared flag register VF to 1 if `condition` holds, else to 0.
    pub fn set_flag_register(&mut self, condition: bool)
        ensures
            final(self)@ == old(self)@.set_v(15, if condition { 1u8 } else { 0u8 }),
    {
        if condition {
            self.v[0xF] = 1;
        } else {
            self.v[0xF] = 0;
        }
    }

    /// One tick of the two timers. Each goes down by one unless it is zero.
    /// The result is what the tone generator has to do: `Some(true)` where
    /// the tone has to start, `Some(false)` where it has to stop, `None`
    /// where it goes on as it is. After the tick the machine counts the tone
    /// as on exactly when the sound timer is not zero.
    pub fn tick_timers(&mut self) -> (tone: Option<bool>)
        ensures
            final(self)@ == (Machine {
                delay_timer: ticked(old(self).delay_timer),
                sound_timer: ticked(old(self).sound_timer),
                playing: ticked(old(self).sound_timer) != 0,
                ..old(self)@
            }),
            tone == if ticked(old(self).sound_timer) != 0 && !old(self).playing {
                Some(true)
            } else if ticked(old(self).sound_timer) == 0 && old(self).playing {
                Some(false)
            } else {
                None::<bool>
            },
    {
        self.delay_timer = self.delay_timer.saturating_sub(1);
        self.sound_timer = self.sound_timer.saturating_sub(1);
        if self.sound_timer != 0 && !self.playing {
            self.playing = true;
            Some(true)
        } else if self.sound_timer == 0 && self.playing {
            self.playing = false;
            Some(false)
        } else {
            None
        }
    }

    /// The keypad key that the host key with code `key` stands for, if it
    /// stands for one.
    pub fn match_key(key: i32) -> (pad: Option<usize>)
        ensures
            pad == keypad_key(key),
    {
        match key {
            0x31 => Some(0x1),
            0x32 => Some(0x2),
            0x33 => Some(0x3),
            0x34 => Some(0xC),
            0x71 => Some(0x4),
            0x77 => Some(0x5),
            0x65 => Some(0x6),
            0x72 => Some(0xD),
            0x61 => Some(0x7),
            0x73 => Some(0x8),
            0x64 => Some(0x9),
            0x66 => Some(0xE),
            0x7A => Some(0xA),
            0x78 => Some(0x0),
            0x63 => Some(0xB),
            0x76 => Some(0xF),
            _ => None,
        }
    }

    /// The lowest pressed key, if any key is pressed.
    pub fn pressed_key(&self) -> (key: Option<usize>)
        ensures
            match key {
                Some(k) => lowest_pressed(self@.keys) == Some(k as int),
                None => lowest_pressed(self@.keys) is None,
            },
            key matches Some(k) ==> k < 16,
    {
        let mut k: usize = 0;
        while k < 16
            invariant
                k <= 16,
                forall|j: int| 0 <= j < k ==> !self.keys[j],
            decreases 16 - k,
        {
            if self.keys[k] {
                proof {
                    lemma_lowest_pressed(self@.keys, k as int);
                }
                return Some(k);
            }
            k += 1;
        }
        None
    }

    /// Moves the program counter past the next instruction if `condition`
    /// holds.
    pub fn skip_instruction(&mut self, condition: bool)
        requires
            condition ==> old(self).pc <= 0xFFFD,
        ensures
            final(self)@ == (Machine {
                pc: if condition { (old(self).pc + 2) as u16 } else { old(self).pc },
                ..old(self)@
            }),
    {
        if condition {
            self.pc += 2;
        }
    }
}

} // verus!
