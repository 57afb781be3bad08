//! Properties that hold across instructions, proved over the model.
use vstd::prelude::*;

use crate::instruction::{decode_spec, word_at, Instruction};
use crate::machine::{
    glyph_table, with_glyphs, ExecutionFault, MachineState, DISPLAY_SIZE, FLAG, LAST_FETCH_ADDR,
    MEMORY_SIZE, SCREEN_HEIGHT, SCREEN_WIDTH, STACK_DEPTH,
};
use crate::semantics::{call_spec, draw_spec, execute_spec, sprite_pixel, step_spec, Outcome};

verus! {

/// A step at a word `6xkk` leaves `kk` in register `Vx`, whatever `x` and
/// `kk` are.
pub proof fn lemma_load_byte_reads_back(s: MachineState, x: u16, kk: u16, rnd: u8)
    requires
        s.wf(),
        s.pc <= LAST_FETCH_ADDR,
        x < 16,
        kk < 256,
        word_at(s.memory, s.pc as int) == 0x6000 + 256 * x + kk,
    ensures
        step_spec(s, rnd).1 is Ok,
        step_spec(s, rnd).0.v[x as int] == kk,
{
    let w = word_at(s.memory, s.pc as int);
    assert(w / 4096 == 6 && (w / 256) % 16 == x && w % 256 == kk) by (bit_vector)
        requires
            w == 0x6000 + 256 * x + kk,
            x < 16,
            kk < 256,
    ;
    assert(decode_spec(w) == Instruction::LoadByte { x: x as usize, kk: kk as u8 });
}

/// A call followed by a return comes back to the instruction after the
/// call, with the stack pointer as it was; only the stack slot the call
/// used keeps the return address.
pub proof fn lemma_call_then_return(s: MachineState, nnn: u16, rnd: u8)
    requires
        s.wf(),
        s.pc <= LAST_FETCH_ADDR,
        s.sp < STACK_DEPTH,
    ensures
        ({
            let (called, r1) = execute_spec(s, Instruction::Call { nnn }, rnd);
            let (back, r2) = execute_spec(called, Instruction::Return, rnd);
            &&& r1 is Ok
            &&& r2 is Ok
            &&& back.pc == s.pc + 2
            &&& back.sp == s.sp
            &&& back == MachineState {
                pc: (s.pc + 2) as u16,
                stack: s.stack.update(s.sp as int, (s.pc + 2) as u16),
                ..s
            }
        }),
{
}

/// Whether the sprite lights any pixel at all.
pub open spec fn sprite_lights_any(memory: Seq<u8>, addr: int, x0: int, y0: int, n: int) -> bool {
    exists|p: int| 0 <= p < DISPLAY_SIZE && #[trigger] sprite_pixel(memory, addr, x0, y0, n, p)
}

/// Drawing the same sprite twice at the same place gives the display back
/// as it was. On a blank display the first draw reports no collision and
/// the second reports one exactly when the sprite lights a pixel.
pub proof fn lemma_draw_twice(s: MachineState, x: usize, y: usize, n: usize)
    requires
        s.wf(),
        x < 16,
        y < 16,
        n < 16,
        x != FLAG,
        y != FLAG,
        s.i + n <= MEMORY_SIZE,
    ensures
        ({
            let (once, r1) = draw_spec(s, x as int, y as int, n as int);
            let (twice, r2) = draw_spec(once, x as int, y as int, n as int);
            let x0 = s.v[x as int] as int % SCREEN_WIDTH as int;
            let y0 = s.v[y as int] as int % SCREEN_HEIGHT as int;
            &&& r1 is Ok
            &&& r2 is Ok
            &&& twice.gfx == s.gfx
            &&& (forall|p: int| 0 <= p < DISPLAY_SIZE ==> !s.gfx[p]) ==> {
                &&& once.v[FLAG as int] == 0
                &&& twice.v[FLAG as int] == (if sprite_lights_any(
                    s.memory,
                    s.i as int,
                    x0,
                    y0,
                    n as int,
                ) {
                    1u8
                } else {
                    0u8
                })
            }
        }),
{
    let x0 = s.v[x as int] as int % SCREEN_WIDTH as int;
    let y0 = s.v[y as int] as int % SCREEN_HEIGHT as int;
    let once = draw_spec(s, x as int, y as int, n as int).0;
    let twice = draw_spec(once, x as int, y as int, n as int).0;
    assert(once.v[x as int] == s.v[x as int]);
    assert(once.v[y as int] == s.v[y as int]);
    assert(twice.gfx =~= s.gfx);
    if forall|p: int| 0 <= p < DISPLAY_SIZE ==> !s.gfx[p] {
        let lit = sprite_lights_any(s.memory, s.i as int, x0, y0, n as int);
        if lit {
            let p = choose|p: int|
                0 <= p < DISPLAY_SIZE && #[trigger] sprite_pixel(
                    s.memory,
                    s.i as int,
                    x0,
                    y0,
                    n as int,
                    p,
                );
            assert(once.gfx[p]);
        } else {
            assert forall|p: int| 0 <= p < DISPLAY_SIZE implies !once.gfx[p] by {
                assert(!sprite_pixel(s.memory, s.i as int, x0, y0, n as int, p));
            }
        }
    }
}

/// Loading the glyph table and then pointing the index register at the
/// glyph of digit `Vx` gives the address `5 * Vx`, where the five rows of
/// that glyph lie; the glyph of 0 is F0 90 90 90 F0.
pub proof fn lemma_glyph_lookup(s: MachineState, x: usize, rnd: u8)
    requires
        s.wf(),
        s.pc <= LAST_FETCH_ADDR,
        x < 16,
        s.v[x as int] < 16,
    ensures
        ({
            let loaded = MachineState { memory: with_glyphs(s.memory), ..s };
            let (t, r) = execute_spec(loaded, Instruction::LoadGlyph { x }, rnd);
            let d = s.v[x as int] as int;
            &&& r is Ok
            &&& t.i == 5 * d
            &&& t.memory.subrange(5 * d, 5 * d + 5) == glyph_table().subrange(5 * d, 5 * d + 5)
            &&& d == 0 ==> t.memory.subrange(0, 5) == seq![0xF0u8, 0x90, 0x90, 0x90, 0xF0]
        }),
{
    let loaded = MachineState { memory: with_glyphs(s.memory), ..s };
    let t = execute_spec(loaded, Instruction::LoadGlyph { x }, rnd).0;
    let d = s.v[x as int] as int;
    assert(t.memory.subrange(5 * d, 5 * d + 5) =~= glyph_table().subrange(5 * d, 5 * d + 5));
    assert(t.memory.subrange(0, 5) =~= seq![0xF0u8, 0x90, 0x90, 0x90, 0xF0]);
}

/// A chain of calls made one after the other, each to the address in
/// `targets`, stopping at the first fault.
pub open spec fn call_chain(s: MachineState, targets: Seq<u16>) -> Outcome
    decreases targets.len(),
{
    if targets.len() == 0 {
        (s, Ok(()))
    } else {
        let (t, r) = call_spec(s, targets[0]);
        if r is Err {
            (t, r)
        } else {
            call_chain(t, targets.drop_first())
        }
    }
}

proof fn lemma_call_chain_fills(s: MachineState, targets: Seq<u16>)
    requires
        s.wf(),
        s.sp + targets.len() == STACK_DEPTH + 1,
    ensures
        call_chain(s, targets).1 == Err::<(), ExecutionFault>(ExecutionFault::StackOverflow),
        call_chain(s, targets).0.sp == STACK_DEPTH,
    decreases targets.len(),
{
    if s.sp < STACK_DEPTH {
        let t = call_spec(s, targets[0]).0;
        lemma_call_chain_fills(t, targets.drop_first());
    }
}

/// Sixteen nested calls from an empty stack all succeed; a seventeenth
/// then fails with `StackOverflow`, leaving the stack pointer at 16.
pub proof fn lemma_seventeenth_call_overflows(s: MachineState, targets: Seq<u16>)
    requires
        s.wf(),
        s.sp == 0,
        targets.len() == STACK_DEPTH + 1,
    ensures
        call_chain(s, targets.take(STACK_DEPTH as int)).1 is Ok,
        call_chain(s, targets.take(STACK_DEPTH as int)).0.sp == STACK_DEPTH,
        call_chain(s, targets).1 == Err::<(), ExecutionFault>(ExecutionFault::StackOverflow),
        call_chain(s, targets).0.sp == STACK_DEPTH,
{
    lemma_call_chain_fills(s, targets);
    lemma_call_chain_succeeds(s, targets.take(STACK_DEPTH as int));
}

proof fn lemma_call_chain_succeeds(s: MachineState, targets: Seq<u16>)
    requires
        s.wf(),
        s.sp + targets.len() <= STACK_DEPTH,
    ensures
        call_chain(s, targets).1 is Ok,
        call_chain(s, targets).0.sp == s.sp + targets.len(),
        call_chain(s, targets).0.wf(),
    decreases targets.len(),
{
    if targets.len() > 0 {
        let t = call_spec(s, targets[0]).0;
        lemma_call_chain_succeeds(t, targets.drop_first());
    }
}

} // verus!
