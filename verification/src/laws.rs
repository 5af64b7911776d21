//! Laws of the instruction set, proved of the semantics that the engine
//! implements.

use vstd::prelude::*;

use crate::cpu::Machine;
use crate::display::{blank, cols, rows};
use crate::draw::{sprite_collides, sprite_lit, stamped, Placement};
use crate::error::EmuError;
use crate::quirk::Quirks;
use crate::semantics::{executed, fetched, op_class, op_n, op_nn, op_x, op_y, stepped};

verus! {

/// Executing an instruction leaves a well-formed machine well-formed,
/// whether the instruction completes or faults.
pub proof fn lemma_executed_wf(m: Machine, q: Quirks, random: u8)
    requires
        m.wf(),
    ensures
        executed(m, q, random).0.wf(),
{
}

/// Only the random instruction, class C, reads the random byte.
pub proof fn lemma_random_unread(m: Machine, q: Quirks, a: u8, b: u8)
    requires
        op_class(m.opcode) != 0xC,
    ensures
        executed(m, q, a) == executed(m, q, b),
{
}

/// A fault is local to its instruction: it leaves the machine as it was,
/// but for a faulting draw, which has cleared VF.
pub proof fn lemma_fault_keeps_machine(m: Machine, q: Quirks, random: u8)
    requires
        m.wf(),
        executed(m, q, random).1 is Err,
    ensures
        executed(m, q, random).0 == if op_class(m.opcode) == 0xD {
            m.set_v(15, 0)
        } else {
            m
        },
{
}

/// When each fault comes: the exit request for the exit instruction alone,
/// a stack overflow for a call on a stack of more than sixteen addresses, a
/// stack underflow for a return on an empty stack, and an invalid
/// instruction only ever with the current instruction word.
pub proof fn lemma_fault_causes(m: Machine, q: Quirks, random: u8)
    requires
        m.wf(),
    ensures
        executed(m, q, random).1 == Err::<(), EmuError>(EmuError::Exit) <==> m.opcode == 0x00FD,
        executed(m, q, random).1 == Err::<(), EmuError>(EmuError::StackOverflow) <==> op_class(
            m.opcode,
        ) == 0x2 && m.stack.len() > 16,
        executed(m, q, random).1 == Err::<(), EmuError>(EmuError::StackUnderflow) <==> m.opcode
            == 0x00EE && m.stack.len() == 0,
        forall|op: u16|
            executed(m, q, random).1 == Err::<(), EmuError>(EmuError::InvalidOpcode(op)) ==> op
                == m.opcode,
{
}

/// The call stack never grows past seventeen addresses: a call on sixteen is
/// still taken, a call on seventeen is an overflow.
pub proof fn lemma_stack_bounded(m: Machine, q: Quirks, random: u8)
    requires
        m.wf(),
        m.stack.len() <= 17,
    ensures
        executed(m, q, random).0.stack.len() <= 17,
{
}

/// Instructions do not count the timers down: a timer changes only when
/// its own write instruction sets it, and no instruction switches the tone.
pub proof fn lemma_timers_only_written(m: Machine, q: Quirks, random: u8)
    requires
        m.wf(),
    ensures
        !(op_class(m.opcode) == 0xF && op_nn(m.opcode) == 0x15) ==> executed(
            m,
            q,
            random,
        ).0.delay_timer == m.delay_timer,
        !(op_class(m.opcode) == 0xF && op_nn(m.opcode) == 0x18) ==> executed(
            m,
            q,
            random,
        ).0.sound_timer == m.sound_timer,
        executed(m, q, random).0.playing == m.playing,
{
}

/// An instruction word that is refused as invalid still moves the program
/// counter past it, and changes nothing else but the current instruction.
pub proof fn lemma_invalid_opcode_advances(m: Machine, q: Quirks, random: u8, op: u16)
    requires
        m.wf(),
        stepped(m, q, random).1 == Err::<(), EmuError>(EmuError::InvalidOpcode(op)),
    ensures
        m.pc + 1 < 4096,
        op == fetched(m).0.opcode,
        stepped(m, q, random).0 == (Machine { opcode: op, pc: (m.pc + 2) as u16, ..m }),
{
}

/// After `6XNN`, register X holds NN, for every X and NN, and nothing else
/// has changed.
pub proof fn lemma_load_constant(m: Machine, q: Quirks, random: u8, x: int, nn: u8)
    requires
        m.wf(),
        0 <= x < 16,
        m.opcode == 0x6000 + x * 0x100 + nn,
    ensures
        executed(m, q, random) == (m.set_v(x, nn), Ok::<(), EmuError>(())),
        executed(m, q, random).0.v[x] == nn,
{
}

/// `7XNN` adds NN to register X modulo 256 and changes no other register:
/// VF keeps its value unless X is F. In particular 0xFF plus 0x01 is 0x00.
pub proof fn lemma_add_constant(m: Machine, q: Quirks, random: u8, x: int, nn: u8)
    requires
        m.wf(),
        0 <= x < 16,
        m.opcode == 0x7000 + x * 0x100 + nn,
    ensures
        executed(m, q, random).1 is Ok,
        executed(m, q, random).0.v[x] == (m.v[x] + nn) % 256,
        forall|j: int| 0 <= j < 16 && j != x ==> executed(m, q, random).0.v[j] == m.v[j],
        x != 15 ==> executed(m, q, random).0.v[15] == m.v[15],
        m.v[x] == 0xFF && nn == 0x01 ==> executed(m, q, random).0.v[x] == 0x00,
{
}

/// A call that is at once followed by a return brings the program counter
/// back to the instruction after the call and the stack to what it held, for
/// every target in memory and every stack that has room for the call.
pub proof fn lemma_call_return(m: Machine, q: Quirks, a: u8, b: u8, nnn: u16)
    requires
        m.wf(),
        m.stack.len() <= 16,
        m.pc + 1 < 4096,
        nnn + 1 < 4096,
        m.memory[m.pc as int] * 0x100 + m.memory[m.pc + 1] == 0x2000 + nnn,
        m.memory[nnn as int] == 0x00,
        m.memory[nnn + 1] == 0xEE,
    ensures
        stepped(m, q, a).1 is Ok,
        stepped(m, q, a).0.pc == nnn,
        stepped(stepped(m, q, a).0, q, b) == (
            Machine { pc: (m.pc + 2) as u16, opcode: 0x00EEu16, ..m },
            Ok::<(), EmuError>(()),
        ),
{
    let called = stepped(m, q, a).0;
    assert(called.stack.drop_last() == m.stack);
}

/// A switch to the other resolution leaves a blank bitmap of the new size,
/// whatever was drawn before.
pub proof fn lemma_switch_clears(m: Machine, q: Quirks, random: u8)
    requires
        m.wf(),
        m.opcode == if m.hires { 0x00FEu16 } else { 0x00FFu16 },
    ensures
        executed(m, q, random).1 is Ok,
        executed(m, q, random).0.hires == !m.hires,
        executed(m, q, random).0.display == blank(!m.hires),
        executed(m, q, random).0.display.len() == if m.hires { 2048int } else { 8192int },
        forall|k: int|
            0 <= k < executed(m, q, random).0.display.len() ==> !executed(
                m,
                q,
                random,
            ).0.display[k],
{
}

/// Drawing the same sprite at the same place twice gives back the bitmap
/// that was there before the first draw. The second draw turns a pixel off,
/// and reports it, exactly when the first turned one on.
pub proof fn lemma_draw_twice(m: Machine, p: Placement)
    ensures
        stamped(stamped(m, p), p).display == m.display,
        sprite_collides(stamped(m, p), p) <==> exists|k: int|
            0 <= k < m.display.len() && !m.display[k] && #[trigger] sprite_lit(m, p, k),
{
    let once = stamped(m, p);
    let twice = stamped(once, p);
    assert forall|k: int| sprite_lit(once, p, k) == sprite_lit(m, p, k) by {}
    assert(twice.display =~= m.display);
    if sprite_collides(once, p) {
        let k = choose|k: int|
            0 <= k < once.display.len() && once.display[k] && #[trigger] sprite_lit(once, p, k);
        assert(!m.display[k] && sprite_lit(m, p, k));
    }
    if exists|k: int| 0 <= k < m.display.len() && !m.display[k] && #[trigger] sprite_lit(m, p, k) {
        let k = choose|k: int|
            0 <= k < m.display.len() && !m.display[k] && #[trigger] sprite_lit(m, p, k);
        assert(once.display[k] && sprite_lit(once, p, k));
    }
}

/// The draw instruction run twice in a row, with coordinates that it does
/// not take from VF, gives back the bitmap that was there before. Where the
/// first run turned no pixel off, it leaves VF at 0; the second then leaves
/// VF at 1 exactly when the first run changed the bitmap.
pub proof fn lemma_draw_instruction_twice(m: Machine, q: Quirks, a: u8, b: u8)
    requires
        m.wf(),
        op_class(m.opcode) == 0xD,
        op_x(m.opcode) != 15,
        op_y(m.opcode) != 15,
        executed(m, q, a).1 is Ok,
    ensures
        executed(executed(m, q, a).0, q, b).1 is Ok,
        executed(executed(m, q, a).0, q, b).0.display == m.display,
        executed(m, q, a).0.v[15] == 0 || executed(m, q, a).0.v[15] == 1,
        executed(m, q, a).0.v[15] == 0 ==> (executed(executed(m, q, a).0, q, b).0.v[15] == 1
            <==> executed(m, q, a).0.display != m.display),
{
    let once = executed(m, q, a).0;
    let large = op_n(m.opcode) == 0;
    let p = Placement {
        wrap: q.wrap,
        x0: m.v[op_x(m.opcode)] as int % cols(m.hires),
        y0: m.v[op_y(m.opcode)] as int % rows(m.hires),
        width: if large { 16 } else { 8 },
        height: if large { 16 } else { op_n(m.opcode) },
    };
    let cleared = m.set_v(15, 0);
    assert(once == stamped(cleared, p));
    let cleared_again = once.set_v(15, 0);
    lemma_draw_twice(cleared, p);
    assert forall|k: int| sprite_lit(cleared_again, p, k) == sprite_lit(once, p, k) by {}
    let twice = stamped(cleared_again, p);
    assert(twice.display =~= stamped(once, p).display);
    assert(executed(once, q, b) == (twice, Ok::<(), EmuError>(())));
    if once.v[15] == 0 {
        if sprite_collides(cleared_again, p) {
            let k = choose|k: int|
                0 <= k < cleared_again.display.len() && cleared_again.display[k]
                    && #[trigger] sprite_lit(cleared_again, p, k);
            assert(once.display[k] != m.display[k]);
            assert(once.display != m.display);
        }
        if once.display != m.display {
            assert(!(once.display =~= m.display));
            let k = choose|k: int| 0 <= k < m.display.len() && once.display[k] != m.display[k];
            assert(sprite_lit(cleared, p, k));
            assert(!sprite_collides(cleared, p));
            assert(!m.display[k]);
            assert(once.display[k] && sprite_lit(cleared_again, p, k));
            assert(sprite_collides(cleared_again, p));
        }
    }
}

} // verus!
