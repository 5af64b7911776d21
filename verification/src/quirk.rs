//! The quirks table and what each toggle does to the machine.

use vstd::prelude::*;

use crate::cpu::{Cpu, Machine};
use crate::error::EmuError;

verus! {

/// The behaviours on which historical interpreters disagree, one toggle each.
/// A value is fixed once built: nothing mutates it.
#[derive(Clone, Copy, Debug, PartialEq, Eq, Structural)]
pub struct Quirks {
    /// Shifts work on VX in place; when unset they first copy VY into VX.
    pub shift: bool,
    /// Register transfers advance I by X (unless I is left unchanged).
    pub memory_increment_by_x: bool,
    /// Register transfers leave I unchanged; this wins over the toggle above.
    pub memory_leave_i_unchanged: bool,
    /// Sprites wrap around the screen edges instead of being clipped.
    pub wrap: bool,
    /// The jump with offset adds VX; when unset it adds V0.
    pub jump: bool,
    /// The logical operations clear VF.
    pub logic: bool,
}

impl Quirks {
    /// What a register transfer over V0..VX leaves in I, as an unbounded
    /// integer: I itself, I + X, or I + X + 1.
    pub open spec fn index_after_transfer(self, i: int, x: int) -> int {
        if self.memory_leave_i_unchanged {
            i
        } else if self.memory_increment_by_x {
            i + x
        } else {
            i + x + 1
        }
    }

    /// The register whose value the jump with offset adds.
    pub open spec fn jump_register(self, x: int) -> int {
        if self.jump { x } else { 0 }
    }

    /// The register that a shift reads.
    pub open spec fn shift_source(self, x: int, y: int) -> int {
        if self.shift { x } else { y }
    }

    /// The default table: in-place shifts, I unchanged by transfers, clipped
    /// sprites, jump offset from VX, logic operations keep VF.
    pub fn new() -> (q: Quirks)
        ensures
            q == (Quirks {
                shift: true,
                memory_increment_by_x: false,
                memory_leave_i_unchanged: true,
                wrap: false,
                jump: true,
                logic: false,
            }),
    {
        Quirks {
            shift: true,
            memory_increment_by_x: false,
            memory_leave_i_unchanged: true,
            wrap: false,
            jump: true,
            logic: false,
        }
    }

    /// Prepares VX for a shift: copies VY into it unless shifts are in place.
    pub fn shift(&self, cpu: &mut Cpu, x: usize, y: usize)
        requires
            x < 16,
            y < 16,
        ensures
            final(cpu)@ == old(cpu)@.set_v(
                x as int,
                old(cpu)@.v[self.shift_source(x as int, y as int)],
            ),
    {
        if !self.shift {
            cpu.v[x] = cpu.v[y];
        }
    }

    /// Advances I by `x` where transfers increment by X. Fails, leaving the
    /// machine as it was, where the sum does not fit the index register.
    pub fn memory_increment_by_x(&self, cpu: &mut Cpu, x: usize) -> (r: Result<(), EmuError>)
        ensures
            r == if self.memory_increment_by_x && !self.memory_leave_i_unchanged && old(cpu).i + x
                > 0xFFFF {
                Err::<(), EmuError>(EmuError::IndexOutOfRange)
            } else {
                Ok(())
            },
            final(cpu)@ == if self.memory_increment_by_x && !self.memory_leave_i_unchanged
                && old(cpu).i + x <= 0xFFFF {
                Machine { i: (old(cpu).i + x) as u16, ..old(cpu)@ }
            } else {
                old(cpu)@
            },
    {
        if self.memory_increment_by_x && !self.memory_leave_i_unchanged {
            if x > 0xFFFF - cpu.i as usize {
                return Err(EmuError::IndexOutOfRange);
            }
            cpu.i += x as u16;
        }
        Ok(())
    }

    /// Advances I by `x + 1` where transfers neither leave I unchanged nor
    /// increment by X. Fails, leaving the machine as it was, where the sum
    /// does not fit the index register.
    pub fn memory_leave_i_unchanged(&self, cpu: &mut Cpu, x: usize) -> (r: Result<(), EmuError>)
        ensures
            r == if !self.memory_increment_by_x && !self.memory_leave_i_unchanged && old(cpu).i + x
                + 1 > 0xFFFF {
                Err::<(), EmuError>(EmuError::IndexOutOfRange)
            } else {
                Ok(())
            },
            final(cpu)@ == if !self.memory_increment_by_x && !self.memory_leave_i_unchanged
                && old(cpu).i + x + 1 <= 0xFFFF {
                Machine { i: (old(cpu).i + x + 1) as u16, ..old(cpu)@ }
            } else {
                old(cpu)@
            },
    {
        if !self.memory_increment_by_x && !self.memory_leave_i_unchanged {
            if x >= 0xFFFF - cpu.i as usize {
                return Err(EmuError::IndexOutOfRange);
            }
            cpu.i += x as u16 + 1;
        }
        Ok(())
    }

    /// The offset that the jump with offset adds: VX, or V0.
    pub fn jump(&self, cpu: &mut Cpu, x: usize) -> (offset: u8)
        requires
            x < 16,
        ensures
            offset == old(cpu)@.v[self.jump_register(x as int)],
            final(cpu)@ == old(cpu)@,
    {
        if self.jump {
            cpu.v[x]
        } else {
            cpu.v[0]
        }
    }

    /// Clears VF where the logical operations do so.
    pub fn logic(&self, cpu: &mut Cpu)
        ensures
            final(cpu)@ == if self.logic {
                old(cpu)@.set_v(15, 0)
            } else {
                old(cpu)@
            },
    {
        if self.logic {
            cpu.v[0xF] = 0;
        }
    }
}

} // verus!
