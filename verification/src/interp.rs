//! The engine: fetch, decode and execute, one instruction at a time.

use frand::Rand;
use vstd::prelude::*;

use crate::cpu::{Cpu, Machine};
use crate::display::{pixel_count, rotated};
use crate::draw::{draw_sprite, draw_super_sprite};
use crate::error::EmuError;
use crate::memory::spliced;
use crate::quirk::Quirks;
use crate::random::random_byte;
use crate::semantics::{
    executed, executed_0, executed_8, executed_f, fetched, key_waited, lemma_opcode_fields,
    op_class, skipped, stepped,
};

verus! {

/// Fetch: reads the instruction word at the program counter, high byte
/// first, into `opcode` and moves the program counter past it. A program
/// counter whose word does not lie in memory is a fault that changes nothing.
pub fn fetch(cpu: &mut Cpu) -> (r: Result<(), EmuError>)
    ensures
        (final(cpu)@, r) == fetched(old(cpu)@),
{
    let pc = cpu.pc as usize;
    if pc + 1 >= 4096 {
        return Err(EmuError::IndexOutOfRange);
    }
    let high = cpu.memory[pc];
    let low = cpu.memory[pc + 1];
    assert(((high as u16) << 8) | (low as u16) == high as u16 * 0x100 + low as u16) by (bit_vector);
    cpu.opcode = ((high as u16) << 8) | (low as u16);
    cpu.pc += 2;
    Ok(())
}

/// A conditional skip that reports a program counter which cannot move on.
fn skip(cpu: &mut Cpu, condition: bool) -> (r: Result<(), EmuError>)
    ensures
        (final(cpu)@, r) == skipped(old(cpu)@, condition),
{
    if condition && cpu.pc > 0xFFFD {
        return Err(EmuError::IndexOutOfRange);
    }
    cpu.skip_instruction(condition);
    Ok(())
}

/// Executes the current instruction where it is a system instruction, one of
/// class 0.
pub fn decode_0(cpu: &mut Cpu) -> (r: Result<(), EmuError>)
    requires
        old(cpu).wf(),
    ensures
        (final(cpu)@, r) == executed_0(old(cpu)@),
        final(cpu).wf(),
{
    let op = cpu.opcode;
    proof {
        lemma_opcode_fields(op);
    }
    if op == 0x00E0 {
        cpu.clear_display();
    } else if op == 0x00EE {
        match cpu.stack.pop() {
            Some(address) => {
                cpu.pc = address;
            },
            None => {
                return Err(EmuError::StackUnderflow);
            },
        }
    } else if 0x00C0 <= op && op <= 0x00CF {
        let cols: usize = if cpu.hires { 128 } else { 64 };
        cpu.rotate_display(cols * (op & 0x000F) as usize);
    } else if op == 0x00FB {
        cpu.rotate_display(4);
    } else if op == 0x00FC {
        let len = cpu.display_buffer.len();
        proof {
            lemma_rotate_left(old(cpu)@.display, old(cpu).hires);
        }
        cpu.rotate_display(len - 4);
    } else if op == 0x00FD {
        return Err(EmuError::Exit);
    } else if op == 0x00FE {
        if cpu.hires {
            cpu.set_resolution(false);
        }
    } else if op == 0x00FF {
        if !cpu.hires {
            cpu.set_resolution(true);
        }
    } else {
        return Err(EmuError::InvalidOpcode(op));
    }
    Ok(())
}

/// Moving every pixel four places back is moving it on by four places less
/// than the bitmap's length.
proof fn lemma_rotate_left(display: Seq<bool>, hires: bool)
    requires
        display.len() == pixel_count(hires),
    ensures
        rotated(display, display.len() - 4) == rotated(display, -4),
{
    assert(rotated(display, display.len() - 4) =~= rotated(display, -4));
}

/// Executes the current instruction where it is a register instruction, one
/// of class 8, on registers `x` and `y`.
pub fn decode_8(cpu: &mut Cpu, quirks: &Quirks, x: usize, y: usize) -> (r: Result<(), EmuError>)
    requires
        x < 16,
        y < 16,
    ensures
        (final(cpu)@, r) == executed_8(old(cpu)@, *quirks, x as int, y as int),
{
    let op = cpu.opcode;
    let n = op & 0x000F;
    proof {
        lemma_opcode_fields(op);
    }
    if n == 0x0 {
        cpu.v[x] = cpu.v[y];
    } else if n == 0x1 {
        cpu.v[x] = cpu.v[x] | cpu.v[y];
        if quirks.logic {
            cpu.v[0xF] = 0;
        }
    } else if n == 0x2 {
        cpu.v[x] = cpu.v[x] & cpu.v[y];
        if quirks.logic {
            cpu.v[0xF] = 0;
        }
    } else if n == 0x3 {
        cpu.v[x] = cpu.v[x] ^ cpu.v[y];
        quirks.logic(cpu);
    } else if n == 0x4 {
        let vx = cpu.v[x];
        let vy = cpu.v[y];
        cpu.v[x] = vx.wrapping_add(vy);
        cpu.set_flag_register(vx as u16 + vy as u16 > 0xFF);
    } else if n == 0x5 {
        let vx = cpu.v[x];
        let vy = cpu.v[y];
        cpu.v[x] = vx.wrapping_sub(vy);
        cpu.set_flag_register(vx >= vy);
    } else if n == 0x6 {
        quirks.shift(cpu, x, y);
        let value = cpu.v[x];
        assert(value & 1 == value % 2 && value >> 1 == value / 2) by (bit_vector);
        let shifted_bit = value & 1;
        cpu.v[x] = value >> 1;
        cpu.v[0xF] = shifted_bit;
    } else if n == 0x7 {
        let vx = cpu.v[x];
        let vy = cpu.v[y];
        cpu.v[x] = vy.wrapping_sub(vx);
        cpu.set_flag_register(vy >= vx);
    } else if n == 0xE {
        quirks.shift(cpu, x, y);
        let value = cpu.v[x];
        assert((value & 0x80 != 0) == (value / 128 == 1) && value / 128 <= 1 && value << 1 == (value
            * 2) % 256) by (bit_vector);
        let shifted_bit = value & 0x80;
        cpu.v[x] = value << 1;
        cpu.v[0xF] = if shifted_bit != 0 { 1 } else { 0 };
    } else {
        return Err(EmuError::InvalidOpcode(op));
    }
    Ok(())
}

/// The wait for a key: goes back to run again until a key was taken in and
/// is up again.
fn wait_for_key(cpu: &mut Cpu, x: usize) -> (r: Result<(), EmuError>)
    requires
        x < 16,
    ensures
        (final(cpu)@, r) == key_waited(old(cpu)@, x as int),
{
    match cpu.pressed_key() {
        Some(key) => {
            if cpu.pc < 2 {
                return Err(EmuError::IndexOutOfRange);
            }
            if !cpu.key_state {
                cpu.v[x] = key as u8;
                cpu.key_state = true;
            }
            cpu.pc -= 2;
        },
        None => {
            if cpu.key_state {
                cpu.key_state = false;
            } else {
                if cpu.pc < 2 {
                    return Err(EmuError::IndexOutOfRange);
                }
                cpu.pc -= 2;
            }
        },
    }
    Ok(())
}

/// Executes the current instruction where it is a timer, index or transfer
/// instruction, one of class F, on register `x`.
pub fn decode_f(cpu: &mut Cpu, quirks: &Quirks, x: usize) -> (r: Result<(), EmuError>)
    requires
        x < 16,
    ensures
        (final(cpu)@, r) == executed_f(old(cpu)@, *quirks, x as int),
{
    let op = cpu.opcode;
    let nn = op & 0x00FF;
    let i = cpu.i as usize;
    proof {
        lemma_opcode_fields(op);
    }
    if nn == 0x07 {
        cpu.v[x] = cpu.delay_timer;
    } else if nn == 0x15 {
        cpu.delay_timer = cpu.v[x];
    } else if nn == 0x18 {
        cpu.sound_timer = cpu.v[x];
    } else if nn == 0x1E {
        if cpu.v[x] as u16 > 0xFFFF - cpu.i {
            return Err(EmuError::IndexOutOfRange);
        }
        cpu.i += cpu.v[x] as u16;
    } else if nn == 0x0A {
        return wait_for_key(cpu, x);
    } else if nn == 0x29 {
        cpu.i = cpu.v[x] as u16 * 5;
    } else if nn == 0x30 {
        cpu.i = cpu.v[x] as u16 * 5 + 0x50;
    } else if nn == 0x33 {
        if i + 2 >= 4096 {
            return Err(EmuError::IndexOutOfRange);
        }
        let value = cpu.v[x];
        cpu.memory[i] = value / 100;
        cpu.memory[i + 1] = (value / 10) % 10;
        cpu.memory[i + 2] = value % 10;
        assert(cpu.memory@ == spliced(
            old(cpu)@.memory,
            i as int,
            seq![value / 100, (value / 10) % 10, value % 10],
        ));
    } else if nn == 0x55 {
        if i + x >= 4096 {
            return Err(EmuError::IndexOutOfRange);
        }
        for k in 0..x + 1
            invariant
                x < 16,
                i + x < 4096,
                cpu@ == (Machine {
                    memory: spliced(old(cpu)@.memory, i as int, old(cpu)@.v.take(k as int)),
                    ..old(cpu)@
                }),
        {
            cpu.memory[i + k] = cpu.v[k];
        }
        let _ = quirks.memory_increment_by_x(cpu, x);
        let _ = quirks.memory_leave_i_unchanged(cpu, x);
    } else if nn == 0x65 {
        if i + x >= 4096 {
            return Err(EmuError::IndexOutOfRange);
        }
        for k in 0..x + 1
            invariant
                x < 16,
                i + x < 4096,
                cpu@ == (Machine {
                    v: spliced(old(cpu)@.v, 0, old(cpu)@.memory.subrange(i as int, i + k)),
                    ..old(cpu)@
                }),
        {
            cpu.v[k] = cpu.memory[i + k];
        }
        let _ = quirks.memory_increment_by_x(cpu, x);
        let _ = quirks.memory_leave_i_unchanged(cpu, x);
    } else if nn == 0x75 {
        for k in 0..x + 1
            invariant
                x < 16,
                cpu@ == (Machine {
                    flag: spliced(old(cpu)@.flag, 0, old(cpu)@.v.take(k as int)),
                    ..old(cpu)@
                }),
        {
            cpu.flag[k] = cpu.v[k];
        }
    } else if nn == 0x85 {
        for k in 0..x + 1
            invariant
                x < 16,
                cpu@ == (Machine {
                    v: spliced(old(cpu)@.v, 0, old(cpu)@.flag.take(k as int)),
                    ..old(cpu)@
                }),
        {
            cpu.v[k] = cpu.flag[k];
        }
    } else {
        return Err(EmuError::InvalidOpcode(op));
    }
    Ok(())
}

/// Decode and execute: carries out the current instruction, `random` being
/// the byte that the random instruction takes.
pub fn execute(cpu: &mut Cpu, quirks: &Quirks, random: u8) -> (r: Result<(), EmuError>)
    requires
        old(cpu).wf(),
    ensures
        (final(cpu)@, r) == executed(old(cpu)@, *quirks, random),
        final(cpu).wf(),
{
    let op = cpu.opcode;
    proof {
        lemma_opcode_fields(op);
    }
    let x = ((op & 0x0F00) >> 8) as usize;
    let y = ((op & 0x00F0) >> 4) as usize;
    let n = op & 0x000F;
    let nn = (op & 0x00FF) as u8;
    let nnn = op & 0x0FFF;
    let class = (op & 0xF000) >> 12;
    if class == 0x0 {
        decode_0(cpu)
    } else if class == 0x1 {
        cpu.pc = nnn;
        Ok(())
    } else if class == 0x2 {
        if cpu.stack.len() <= 16 {
            cpu.stack.push(cpu.pc);
            cpu.pc = nnn;
            Ok(())
        } else {
            Err(EmuError::StackOverflow)
        }
    } else if class == 0x3 {
        let condition = cpu.v[x] == nn;
        skip(cpu, condition)
    } else if class == 0x4 {
        let condition = cpu.v[x] != nn;
        skip(cpu, condition)
    } else if class == 0x5 {
        if n != 0 {
            return Err(EmuError::InvalidOpcode(op));
        }
        let condition = cpu.v[x] == cpu.v[y];
        skip(cpu, condition)
    } else if class == 0x6 {
        cpu.v[x] = nn;
        Ok(())
    } else if class == 0x7 {
        cpu.v[x] = cpu.v[x].wrapping_add(nn);
        Ok(())
    } else if class == 0x8 {
        decode_8(cpu, quirks, x, y)
    } else if class == 0x9 {
        if n != 0 {
            return Err(EmuError::InvalidOpcode(op));
        }
        let condition = cpu.v[x] != cpu.v[y];
        skip(cpu, condition)
    } else if class == 0xA {
        cpu.i = nnn;
        Ok(())
    } else if class == 0xB {
        let offset = quirks.jump(cpu, x);
        cpu.pc = nnn + offset as u16;
        Ok(())
    } else if class == 0xC {
        cpu.v[x] = random & nn;
        Ok(())
    } else if class == 0xD {
        let cols: u16 = if cpu.hires { 128 } else { 64 };
        let rows: u16 = if cpu.hires { 64 } else { 32 };
        let x0 = cpu.v[x] as u16 % cols;
        let y0 = cpu.v[y] as u16 % rows;
        cpu.v[0xF] = 0;
        if n != 0 {
            draw_sprite(cpu, quirks, x0, y0)
        } else {
            draw_super_sprite(cpu, quirks, x0, y0)
        }
    } else if class == 0xE {
        if nn != 0x9E && nn != 0xA1 {
            return Err(EmuError::InvalidOpcode(op));
        }
        let key = cpu.v[x] as usize;
        if key >= 16 {
            return Err(EmuError::IndexOutOfRange);
        }
        let condition = if nn == 0x9E { cpu.keys[key] } else { !cpu.keys[key] };
        skip(cpu, condition)
    } else {
        decode_f(cpu, quirks, x)
    }
}

/// Decode and execute with the machine's generator: the random instruction
/// takes its byte from `rng`, and only that instruction draws one. What the
/// instruction does is `execute` on that byte; for every other instruction
/// the outcome is fixed by the machine and the quirks.
pub fn decode(cpu: &mut Cpu, quirks: &Quirks, rng: &mut Rand) -> (r: Result<(), EmuError>)
    requires
        old(cpu).wf(),
    ensures
        exists|random: u8| (final(cpu)@, r) == #[trigger] executed(old(cpu)@, *quirks, random),
        op_class(old(cpu).opcode) != 0xC ==> (final(cpu)@, r) == executed(old(cpu)@, *quirks, 0),
        final(cpu).wf(),
{
    let op = cpu.opcode;
    proof {
        lemma_opcode_fields(op);
    }
    let random = if (op & 0xF000) >> 12 == 0xC {
        random_byte(rng)
    } else {
        0
    };
    execute(cpu, quirks, random)
}

/// One whole cycle: fetch, then decode and execute. A fault of the fetch
/// ends the cycle before anything is executed.
pub fn step(cpu: &mut Cpu, quirks: &Quirks, rng: &mut Rand) -> (r: Result<(), EmuError>)
    requires
        old(cpu).wf(),
    ensures
        exists|random: u8| (final(cpu)@, r) == #[trigger] stepped(old(cpu)@, *quirks, random),
        op_class(fetched(old(cpu)@).0.opcode) != 0xC ==> (final(cpu)@, r) == stepped(
            old(cpu)@,
            *quirks,
            0,
        ),
        final(cpu).wf(),
{
    match fetch(cpu) {
        Ok(()) => {
            let ghost loaded = cpu@;
            let r = decode(cpu, quirks, rng);
            proof {
                let random = choose|random: u8|
                    (cpu@, r) == #[trigger] executed(loaded, *quirks, random);
                assert((cpu@, r) == stepped(old(cpu)@, *quirks, random));
            }
            r
        },
        Err(e) => {
            assert((cpu@, Err::<(), EmuError>(e)) == stepped(old(cpu)@, *quirks, 0));
            Err(e)
        },
    }
}

} // verus!
