//! What each instruction does, as functions from one machine state to the
//! next. The executable engine is proved against these.

use vstd::prelude::*;

use crate::cpu::{lowest_pressed, Machine};
use crate::display::{blank, cols, rotated, rows};
use crate::draw::{sprite_drawn, super_sprite_drawn};
use crate::error::EmuError;
use crate::memory::spliced;
use crate::quirk::Quirks;

verus! {

/// The instruction class: the high nibble of the instruction word.
pub open spec fn op_class(op: u16) -> int {
    op as int / 0x1000
}

/// The X field: the second nibble of the instruction word.
pub open spec fn op_x(op: u16) -> int {
    (op as int / 0x100) % 0x10
}

/// The Y field: the third nibble of the instruction word.
pub open spec fn op_y(op: u16) -> int {
    (op as int / 0x10) % 0x10
}

/// The N field: the low nibble of the instruction word.
pub open spec fn op_n(op: u16) -> int {
    op as int % 0x10
}

/// The NN field: the low byte of the instruction word.
pub open spec fn op_nn(op: u16) -> u8 {
    (op as int % 0x100) as u8
}

/// The NNN field: the low twelve bits of the instruction word.
pub open spec fn op_nnn(op: u16) -> u16 {
    (op as int % 0x1000) as u16
}

/// The fields of an instruction word as masks and shifts give them.
pub proof fn lemma_opcode_fields(op: u16)
    by (bit_vector)
    ensures
        (op & 0xF000) >> 12 == op / 0x1000,
        (op & 0x0F00) >> 8 == (op / 0x100) % 0x10,
        (op & 0x00F0) >> 4 == (op / 0x10) % 0x10,
        op & 0x000F == op % 0x10,
        op & 0x00FF == op % 0x100,
        op & 0x0FFF == op % 0x1000,
{
}

/// What an instruction leaves: the machine after it, and success or the
/// fault that it reports.
pub type Outcome = (Machine, Result<(), EmuError>);

/// The instruction completed and left the machine as `m`.
pub open spec fn done(m: Machine) -> Outcome {
    (m, Ok(()))
}

/// The instruction was refused with `e` and the machine is left as `m`.
pub open spec fn fault(m: Machine, e: EmuError) -> Outcome {
    (m, Err(e))
}

/// Fetch: the word at the program counter, high byte first, becomes the
/// current instruction and the program counter moves past it. A program
/// counter whose word does not lie in memory is a fault that changes nothing.
pub open spec fn fetched(m: Machine) -> Outcome {
    if m.pc + 1 < 4096 {
        done(
            Machine {
                opcode: (m.memory[m.pc as int] * 0x100 + m.memory[m.pc + 1]) as u16,
                pc: (m.pc + 2) as u16,
                ..m
            },
        )
    } else {
        fault(m, EmuError::IndexOutOfRange)
    }
}

/// A conditional skip: where `condition` holds the program counter moves
/// past one more instruction. A skip that would take the program counter out
/// of its sixteen bits is a fault that changes nothing.
pub open spec fn skipped(m: Machine, condition: bool) -> Outcome {
    if !condition {
        done(m)
    } else if m.pc <= 0xFFFD {
        done(Machine { pc: (m.pc + 2) as u16, ..m })
    } else {
        fault(m, EmuError::IndexOutOfRange)
    }
}

/// A call: the program counter is pushed and then set to `target`. A call is
/// taken while the stack holds at most sixteen addresses, so that the stack
/// can come to hold seventeen; a call on more is an overflow.
pub open spec fn called(m: Machine, target: u16) -> Outcome {
    if m.stack.len() <= 16 {
        done(Machine { stack: m.stack.push(m.pc), pc: target, ..m })
    } else {
        fault(m, EmuError::StackOverflow)
    }
}

/// A return: the program counter is popped off the stack.
pub open spec fn returned(m: Machine) -> Outcome {
    if m.stack.len() > 0 {
        done(Machine { pc: m.stack.last(), stack: m.stack.drop_last(), ..m })
    } else {
        fault(m, EmuError::StackUnderflow)
    }
}

/// A switch of resolution: nothing where the machine is in that resolution
/// already, else a blank bitmap of the new size.
pub open spec fn switched(m: Machine, hires: bool) -> Machine {
    if m.hires == hires {
        m
    } else {
        Machine { hires: hires, display: blank(hires), ..m }
    }
}

/// The system instructions, class 0: clear, return, the three scrolls, exit
/// and the two switches of resolution.
pub open spec fn executed_0(m: Machine) -> Outcome {
    let op = m.opcode;
    if op == 0x00E0 {
        done(Machine { display: blank(m.hires), ..m })
    } else if op == 0x00EE {
        returned(m)
    } else if 0x00C0 <= op <= 0x00CF {
        done(Machine { display: rotated(m.display, cols(m.hires) * op_n(op)), ..m })
    } else if op == 0x00FB {
        done(Machine { display: rotated(m.display, 4), ..m })
    } else if op == 0x00FC {
        done(Machine { display: rotated(m.display, -4), ..m })
    } else if op == 0x00FD {
        fault(m, EmuError::Exit)
    } else if op == 0x00FE {
        done(switched(m, false))
    } else if op == 0x00FF {
        done(switched(m, true))
    } else {
        fault(m, EmuError::InvalidOpcode(op))
    }
}

/// The register instructions, class 8, on registers `x` and `y`; the low
/// nibble of the instruction word selects the operation. Arithmetic is modulo
/// 256. Where an operation sets VF, it does so after it has written VX.
pub open spec fn executed_8(m: Machine, q: Quirks, x: int, y: int) -> Outcome {
    let n = op_n(m.opcode);
    let vx = m.v[x];
    let vy = m.v[y];
    let shifted = m.v[q.shift_source(x, y)];
    if n == 0x0 {
        done(m.set_v(x, vy))
    } else if n == 0x1 {
        done(cleared_by_logic(m.set_v(x, vx | vy), q))
    } else if n == 0x2 {
        done(cleared_by_logic(m.set_v(x, vx & vy), q))
    } else if n == 0x3 {
        done(cleared_by_logic(m.set_v(x, vx ^ vy), q))
    } else if n == 0x4 {
        done(m.set_v(x, ((vx + vy) % 256) as u8).set_v(15, if vx + vy > 255 { 1u8 } else { 0u8 }))
    } else if n == 0x5 {
        done(m.set_v(x, ((vx - vy) % 256) as u8).set_v(15, if vx >= vy { 1u8 } else { 0u8 }))
    } else if n == 0x6 {
        done(m.set_v(x, shifted / 2).set_v(15, shifted % 2))
    } else if n == 0x7 {
        done(m.set_v(x, ((vy - vx) % 256) as u8).set_v(15, if vy >= vx { 1u8 } else { 0u8 }))
    } else if n == 0xE {
        done(m.set_v(x, ((shifted * 2) % 256) as u8).set_v(15, shifted / 128))
    } else {
        fault(m, EmuError::InvalidOpcode(m.opcode))
    }
}

/// VF cleared where the logic quirk asks for it.
pub open spec fn cleared_by_logic(m: Machine, q: Quirks) -> Machine {
    if q.logic {
        m.set_v(15, 0)
    } else {
        m
    }
}

/// The draw instructions, class D. The sprite goes to column VX modulo the
/// columns and row VY modulo the rows, both read before VF is cleared; a low
/// nibble of zero selects the large sprite.
pub open spec fn executed_d(m: Machine, q: Quirks) -> Outcome {
    let x0 = m.v[op_x(m.opcode)] as int % cols(m.hires);
    let y0 = m.v[op_y(m.opcode)] as int % rows(m.hires);
    let cleared = m.set_v(15, 0);
    if op_n(m.opcode) != 0 {
        sprite_drawn(cleared, q.wrap, x0, y0, op_n(m.opcode))
    } else {
        super_sprite_drawn(cleared, q.wrap, x0, y0)
    }
}

/// The key instructions, class E: skip if the key named by VX is down, or if
/// it is up. A VX that names no key is a fault.
pub open spec fn executed_e(m: Machine) -> Outcome {
    let nn = op_nn(m.opcode);
    let key = m.v[op_x(m.opcode)] as int;
    if nn != 0x9E && nn != 0xA1 {
        fault(m, EmuError::InvalidOpcode(m.opcode))
    } else if key >= 16 {
        fault(m, EmuError::IndexOutOfRange)
    } else if nn == 0x9E {
        skipped(m, m.keys[key])
    } else {
        skipped(m, !m.keys[key])
    }
}

/// The wait for a key. The program counter goes back by one instruction, so
/// that the wait runs again, unless no key is down and an earlier round has
/// taken one: then the wait is over. The first round that sees a key down
/// takes the lowest such key into VX.
pub open spec fn key_waited(m: Machine, x: int) -> Outcome {
    match lowest_pressed(m.keys) {
        Some(key) => if m.pc < 2 {
            fault(m, EmuError::IndexOutOfRange)
        } else if m.key_state {
            done(Machine { pc: (m.pc - 2) as u16, ..m })
        } else {
            done(Machine { pc: (m.pc - 2) as u16, key_state: true, ..m.set_v(x, key as u8) })
        },
        None => if m.key_state {
            done(Machine { key_state: false, ..m })
        } else if m.pc < 2 {
            fault(m, EmuError::IndexOutOfRange)
        } else {
            done(Machine { pc: (m.pc - 2) as u16, ..m })
        },
    }
}

/// The index register after a transfer of V0..VX, as the quirks have it.
pub open spec fn transferred(m: Machine, q: Quirks, x: int) -> Machine {
    Machine { i: q.index_after_transfer(m.i as int, x) as u16, ..m }
}

/// The timer, index and transfer instructions, class F, on register `x`; the
/// low byte of the instruction word selects the operation. One that would
/// reach past the end of memory, or take the index register out of its
/// sixteen bits, is a fault that changes nothing.
pub open spec fn executed_f(m: Machine, q: Quirks, x: int) -> Outcome {
    let nn = op_nn(m.opcode);
    let vx = m.v[x];
    let i = m.i as int;
    if nn == 0x07 {
        done(m.set_v(x, m.delay_timer))
    } else if nn == 0x15 {
        done(Machine { delay_timer: vx, ..m })
    } else if nn == 0x18 {
        done(Machine { sound_timer: vx, ..m })
    } else if nn == 0x1E {
        if i + vx <= 0xFFFF {
            done(Machine { i: (i + vx) as u16, ..m })
        } else {
            fault(m, EmuError::IndexOutOfRange)
        }
    } else if nn == 0x0A {
        key_waited(m, x)
    } else if nn == 0x29 {
        done(Machine { i: (vx * 5) as u16, ..m })
    } else if nn == 0x30 {
        done(Machine { i: (vx * 5 + 0x50) as u16, ..m })
    } else if nn == 0x33 {
        if i + 2 < 4096 {
            done(
                Machine {
                    memory: spliced(m.memory, i, seq![vx / 100, (vx / 10) % 10, vx % 10]),
                    ..m
                },
            )
        } else {
            fault(m, EmuError::IndexOutOfRange)
        }
    } else if nn == 0x55 {
        if i + x < 4096 {
            done(transferred(Machine { memory: spliced(m.memory, i, m.v.take(x + 1)), ..m }, q, x))
        } else {
            fault(m, EmuError::IndexOutOfRange)
        }
    } else if nn == 0x65 {
        if i + x < 4096 {
            done(
                transferred(
                    Machine { v: spliced(m.v, 0, m.memory.subrange(i, i + x + 1)), ..m },
                    q,
                    x,
                ),
            )
        } else {
            fault(m, EmuError::IndexOutOfRange)
        }
    } else if nn == 0x75 {
        done(Machine { flag: spliced(m.flag, 0, m.v.take(x + 1)), ..m })
    } else if nn == 0x85 {
        done(Machine { v: spliced(m.v, 0, m.flag.take(x + 1)), ..m })
    } else {
        fault(m, EmuError::InvalidOpcode(m.opcode))
    }
}

/// Decode and execute: what the current instruction does to the machine.
/// `random` is the byte that the random instruction takes; no other
/// instruction reads it. A fault leaves the machine as it was, but for a
/// faulting draw, which has cleared VF.
pub open spec fn executed(m: Machine, q: Quirks, random: u8) -> Outcome {
    let op = m.opcode;
    let class = op_class(op);
    let x = op_x(op);
    let y = op_y(op);
    let nn = op_nn(op);
    let nnn = op_nnn(op);
    if class == 0x0 {
        executed_0(m)
    } else if class == 0x1 {
        done(Machine { pc: nnn, ..m })
    } else if class == 0x2 {
        called(m, nnn)
    } else if class == 0x3 {
        skipped(m, m.v[x] == nn)
    } else if class == 0x4 {
        skipped(m, m.v[x] != nn)
    } else if class == 0x5 {
        if op_n(op) == 0 {
            skipped(m, m.v[x] == m.v[y])
        } else {
            fault(m, EmuError::InvalidOpcode(op))
        }
    } else if class == 0x6 {
        done(m.set_v(x, nn))
    } else if class == 0x7 {
        done(m.set_v(x, ((m.v[x] + nn) % 256) as u8))
    } else if class == 0x8 {
        executed_8(m, q, x, y)
    } else if class == 0x9 {
        if op_n(op) == 0 {
            skipped(m, m.v[x] != m.v[y])
        } else {
            fault(m, EmuError::InvalidOpcode(op))
        }
    } else if class == 0xA {
        done(Machine { i: nnn, ..m })
    } else if class == 0xB {
        done(Machine { pc: (nnn + m.v[q.jump_register(x)]) as u16, ..m })
    } else if class == 0xC {
        done(m.set_v(x, random & nn))
    } else if class == 0xD {
        executed_d(m, q)
    } else if class == 0xE {
        executed_e(m)
    } else {
        executed_f(m, q, x)
    }
}

/// One whole cycle: fetch, then decode and execute what was fetched. A fault
/// of the fetch ends the cycle.
pub open spec fn stepped(m: Machine, q: Quirks, random: u8) -> Outcome {
    let (loaded, r) = fetched(m);
    if r is Ok {
        executed(loaded, q, random)
    } else {
        (loaded, r)
    }
}

} // verus!
