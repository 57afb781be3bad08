//! What each instruction does, as a function from the machine state before
//! it to the state after it and the fault it raises, if any.
use vstd::prelude::*;

use crate::instruction::{decode_spec, word_at, Instruction};
use crate::machine::{
    ExecutionFault, MachineState, DISPLAY_SIZE, FLAG, LAST_FETCH_ADDR, MEMORY_SIZE, SCREEN_HEIGHT,
    SCREEN_WIDTH, STACK_DEPTH,
};

verus! {

/// Result of executing one instruction: the new state and the fault, if any.
pub type Outcome = (MachineState, Result<(), ExecutionFault>);

/// The state with the program counter moved on to the next instruction.
pub open spec fn advanced(s: MachineState) -> MachineState {
    MachineState { pc: (s.pc + 2) as u16, ..s }
}

/// The state with the next instruction skipped when `cond` holds and the
/// program counter moved on by one instruction otherwise.
pub open spec fn skipped_if(s: MachineState, cond: bool) -> MachineState {
    MachineState { pc: (if cond { s.pc + 4 } else { s.pc + 2 }) as u16, ..s }
}

/// The state with `Vx` set to `b` and the program counter moved on.
pub open spec fn register_set(s: MachineState, x: int, b: u8) -> MachineState {
    MachineState { v: s.v.update(x, b), pc: (s.pc + 2) as u16, ..s }
}

/// The state with `Vx` set to `b`, then the flag register set to `flag`,
/// and the program counter moved on. The flag is written last, so it wins
/// when `x` is the flag register itself.
pub open spec fn register_and_flag_set(s: MachineState, x: int, b: u8, flag: u8) -> MachineState {
    MachineState { v: s.v.update(x, b).update(FLAG as int, flag), pc: (s.pc + 2) as u16, ..s }
}

/// 00E0: every pixel off; the display is marked for redrawing.
pub open spec fn clear_spec(s: MachineState) -> MachineState {
    MachineState {
        gfx: Seq::new(DISPLAY_SIZE as nat, |p: int| false),
        draw_flag: true,
        pc: (s.pc + 2) as u16,
        ..s
    }
}

/// 00EE: the program counter takes the address on top of the stack, which
/// is popped; an empty stack is a fault and changes nothing.
pub open spec fn return_spec(s: MachineState) -> Outcome {
    if s.sp == 0 {
        (s, Err(ExecutionFault::StackUnderflow))
    } else {
        (
            MachineState { pc: s.stack[s.sp - 1], sp: (s.sp - 1) as usize, ..s },
            Ok(()),
        )
    }
}

/// 1nnn: the program counter takes `nnn`.
pub open spec fn jump_spec(s: MachineState, nnn: u16) -> MachineState {
    MachineState { pc: nnn, ..s }
}

/// 2nnn: the address of the next instruction is pushed and the program
/// counter takes `nnn`; a full stack is a fault and changes nothing.
pub open spec fn call_spec(s: MachineState, nnn: u16) -> Outcome {
    if s.sp >= STACK_DEPTH {
        (s, Err(ExecutionFault::StackOverflow))
    } else {
        (
            MachineState {
                stack: s.stack.update(s.sp as int, (s.pc + 2) as u16),
                sp: (s.sp + 1) as usize,
                pc: nnn,
                ..s
            },
            Ok(()),
        )
    }
}

/// 8xy4: the sum modulo 256, with the flag set when the sum exceeds 255.
pub open spec fn add_spec(s: MachineState, x: int, y: int) -> MachineState {
    let sum = s.v[x] + s.v[y];
    register_and_flag_set(s, x, (sum % 256) as u8, if sum > 255 { 1 } else { 0 })
}

/// 8xy5: `Vx - Vy` modulo 256, with the flag set when no borrow occurs.
pub open spec fn sub_spec(s: MachineState, x: int, y: int) -> MachineState {
    register_and_flag_set(
        s,
        x,
        ((s.v[x] - s.v[y]) % 256) as u8,
        if s.v[x] >= s.v[y] { 1 } else { 0 },
    )
}

/// 8xy7: `Vy - Vx` modulo 256, with the flag set when no borrow occurs.
pub open spec fn sub_reversed_spec(s: MachineState, x: int, y: int) -> MachineState {
    register_and_flag_set(
        s,
        x,
        ((s.v[y] - s.v[x]) % 256) as u8,
        if s.v[y] >= s.v[x] { 1 } else { 0 },
    )
}

/// 8xy6: `Vx` halved, the bit shifted out going to the flag.
pub open spec fn shift_right_spec(s: MachineState, x: int) -> MachineState {
    register_and_flag_set(s, x, (s.v[x] / 2) as u8, (s.v[x] % 2) as u8)
}

/// 8xyE: `Vx` doubled modulo 256, the bit shifted out going to the flag.
pub open spec fn shift_left_spec(s: MachineState, x: int) -> MachineState {
    register_and_flag_set(s, x, ((s.v[x] * 2) % 256) as u8, (s.v[x] / 128) as u8)
}

/// Whether bit `col` of a sprite row is set, counting from the most
/// significant bit (the leftmost pixel).
pub open spec fn bit_of(byte: u8, col: int) -> bool {
    (byte >> ((7 - col) as u8)) & 1u8 == 1u8
}

/// How many rows below row `y0` row `py` lies, wrapping around the screen.
pub open spec fn row_offset(py: int, y0: int) -> int {
    if py >= y0 {
        py - y0
    } else {
        py + SCREEN_HEIGHT - y0
    }
}

/// How many columns right of column `x0` column `px` lies, wrapping around
/// the screen.
pub open spec fn col_offset(px: int, x0: int) -> int {
    if px >= x0 {
        px - x0
    } else {
        px + SCREEN_WIDTH - x0
    }
}

/// Whether the `n`-row sprite read from `addr`, placed with its top-left
/// corner at column `x0` and row `y0`, has a set bit over pixel `p`.
pub open spec fn sprite_pixel(memory: Seq<u8>, addr: int, x0: int, y0: int, n: int, p: int) -> bool {
    let row = row_offset(p / SCREEN_WIDTH as int, y0);
    let col = col_offset(p % SCREEN_WIDTH as int, x0);
    row < n && col < 8 && bit_of(memory[addr + row], col)
}

/// The display with the sprite XORed onto it.
pub open spec fn drawn(gfx: Seq<bool>, memory: Seq<u8>, addr: int, x0: int, y0: int, n: int) -> Seq<
    bool,
> {
    Seq::new(gfx.len(), |p: int| gfx[p] != sprite_pixel(memory, addr, x0, y0, n, p))
}

/// Whether the sprite has a set bit over a lit pixel, so that drawing it
/// turns that pixel off.
pub open spec fn collides(gfx: Seq<bool>, memory: Seq<u8>, addr: int, x0: int, y0: int, n: int) -> bool {
    exists|p: int| 0 <= p < gfx.len() && #[trigger] gfx[p] && sprite_pixel(memory, addr, x0, y0, n, p)
}

/// Dxyn: the `n`-row sprite at `I` is XORed onto the display at column
/// `Vx mod 64` and row `Vy mod 32`, wrapping on both axes; the flag tells
/// whether a lit pixel was turned off. A sprite that reaches past the end
/// of memory is a fault and changes nothing.
pub open spec fn draw_spec(s: MachineState, x: int, y: int, n: int) -> Outcome {
    if s.i + n > MEMORY_SIZE {
        (s, Err(ExecutionFault::AddressOutOfRange))
    } else {
        let x0 = s.v[x] as int % SCREEN_WIDTH as int;
        let y0 = s.v[y] as int % SCREEN_HEIGHT as int;
        let hit = collides(s.gfx, s.memory, s.i as int, x0, y0, n);
        (
            MachineState {
                gfx: drawn(s.gfx, s.memory, s.i as int, x0, y0, n),
                v: s.v.update(FLAG as int, if hit { 1u8 } else { 0u8 }),
                draw_flag: true,
                pc: (s.pc + 2) as u16,
                ..s
            },
            Ok(()),
        )
    }
}

/// Whether the key named by the byte `b` is pressed; a byte past the last
/// key names no key, and so no pressed one.
pub open spec fn key_pressed(s: MachineState, b: u8) -> bool {
    b < s.key.len() && s.key[b as int]
}

/// Whether `k` is the lowest-numbered pressed key.
pub open spec fn lowest_pressed(keys: Seq<bool>, k: int) -> bool {
    &&& 0 <= k < keys.len()
    &&& keys[k]
    &&& forall|j: int| 0 <= j < k ==> !keys[j]
}

/// The lowest-numbered pressed key, where one is pressed.
pub open spec fn first_pressed(keys: Seq<bool>) -> int {
    choose|k: int| lowest_pressed(keys, k)
}

/// The lowest-numbered pressed key is the only key that is pressed with
/// none below it pressed.
pub proof fn lemma_first_pressed(keys: Seq<bool>, k: int)
    requires
        lowest_pressed(keys, k),
    ensures
        first_pressed(keys) == k,
{
    let c = first_pressed(keys);
    if c < k {
        assert(!keys[c]);
    } else if c > k {
        assert(!keys[k]);
    }
}

/// Fx0A: with no key pressed nothing changes, so that the instruction runs
/// again on the next step; otherwise `Vx` takes the lowest-numbered pressed
/// key and the program counter moves on.
pub open spec fn wait_key_spec(s: MachineState, x: int) -> MachineState {
    if exists|k: int| lowest_pressed(s.key, k) {
        register_set(s, x, first_pressed(s.key) as u8)
    } else {
        s
    }
}

/// Fx33: the hundreds, tens and ones of `Vx` at `I`, `I + 1` and `I + 2`;
/// a store past the end of memory is a fault and changes nothing.
pub open spec fn store_decimal_spec(s: MachineState, x: int) -> Outcome {
    if s.i + 3 > MEMORY_SIZE {
        (s, Err(ExecutionFault::AddressOutOfRange))
    } else {
        let b = s.v[x];
        (
            MachineState {
                memory: s.memory.update(s.i as int, b / 100).update(s.i + 1, (b / 10) % 10).update(
                    s.i + 2,
                    b % 10,
                ),
                pc: (s.pc + 2) as u16,
                ..s
            },
            Ok(()),
        )
    }
}

/// Fx55: registers V0 to Vx inclusive stored from `I` on; a store past the
/// end of memory is a fault and changes nothing.
pub open spec fn store_registers_spec(s: MachineState, x: int) -> Outcome {
    if s.i + x + 1 > MEMORY_SIZE {
        (s, Err(ExecutionFault::AddressOutOfRange))
    } else {
        (
            MachineState {
                memory: Seq::new(
                    s.memory.len(),
                    |a: int|
                        if s.i <= a <= s.i + x {
                            s.v[a - s.i]
                        } else {
                            s.memory[a]
                        },
                ),
                pc: (s.pc + 2) as u16,
                ..s
            },
            Ok(()),
        )
    }
}

/// Fx65: registers V0 to Vx inclusive loaded from `I` on; a load past the
/// end of memory is a fault and changes nothing.
pub open spec fn load_registers_spec(s: MachineState, x: int) -> Outcome {
    if s.i + x + 1 > MEMORY_SIZE {
        (s, Err(ExecutionFault::AddressOutOfRange))
    } else {
        (
            MachineState {
                v: Seq::new(
                    s.v.len(),
                    |r: int|
                        if r <= x {
                            s.memory[s.i + r]
                        } else {
                            s.v[r]
                        },
                ),
                pc: (s.pc + 2) as u16,
                ..s
            },
            Ok(()),
        )
    }
}

/// An instruction that never faults.
pub open spec fn done(s: MachineState) -> Outcome {
    (s, Ok(()))
}

/// What executing `ins` does to `s`; `rnd` is the random byte that
/// Cxkk masks.
pub open spec fn execute_spec(s: MachineState, ins: Instruction, rnd: u8) -> Outcome {
    match ins {
        Instruction::Clear => done(clear_spec(s)),
        Instruction::Return => return_spec(s),
        Instruction::Jump { nnn } => done(jump_spec(s, nnn)),
        Instruction::Call { nnn } => call_spec(s, nnn),
        Instruction::SkipIfEqualByte { x, kk } => done(skipped_if(s, s.v[x as int] == kk)),
        Instruction::SkipIfNotEqualByte { x, kk } => done(skipped_if(s, s.v[x as int] != kk)),
        Instruction::SkipIfEqual { x, y } => done(skipped_if(s, s.v[x as int] == s.v[y as int])),
        Instruction::LoadByte { x, kk } => done(register_set(s, x as int, kk)),
        Instruction::AddByte { x, kk } => done(
            register_set(s, x as int, ((s.v[x as int] + kk) % 256) as u8),
        ),
        Instruction::Move { x, y } => done(register_set(s, x as int, s.v[y as int])),
        Instruction::Or { x, y } => done(register_set(s, x as int, s.v[x as int] | s.v[y as int])),
        Instruction::And { x, y } => done(register_set(s, x as int, s.v[x as int] & s.v[y as int])),
        Instruction::Xor { x, y } => done(register_set(s, x as int, s.v[x as int] ^ s.v[y as int])),
        Instruction::Add { x, y } => done(add_spec(s, x as int, y as int)),
        Instruction::Sub { x, y } => done(sub_spec(s, x as int, y as int)),
        Instruction::ShiftRight { x } => done(shift_right_spec(s, x as int)),
        Instruction::SubReversed { x, y } => done(sub_reversed_spec(s, x as int, y as int)),
        Instruction::ShiftLeft { x } => done(shift_left_spec(s, x as int)),
        Instruction::SkipIfNotEqual { x, y } => done(skipped_if(s, s.v[x as int] != s.v[y as int])),
        Instruction::LoadIndex { nnn } => done(MachineState { i: nnn, pc: (s.pc + 2) as u16, ..s }),
        Instruction::JumpOffset { nnn } => done(jump_spec(s, (nnn + s.v[0]) as u16)),
        Instruction::Random { x, kk } => done(register_set(s, x as int, rnd & kk)),
        Instruction::Draw { x, y, n } => draw_spec(s, x as int, y as int, n as int),
        Instruction::SkipIfKey { x } => done(skipped_if(s, key_pressed(s, s.v[x as int]))),
        Instruction::SkipIfNotKey { x } => done(skipped_if(s, !key_pressed(s, s.v[x as int]))),
        Instruction::LoadDelay { x } => done(register_set(s, x as int, s.delay_timer)),
        Instruction::WaitKey { x } => done(wait_key_spec(s, x as int)),
        Instruction::SetDelay { x } => done(
            MachineState { delay_timer: s.v[x as int], pc: (s.pc + 2) as u16, ..s },
        ),
        Instruction::SetSound { x } => done(
            MachineState { sound_timer: s.v[x as int], pc: (s.pc + 2) as u16, ..s },
        ),
        Instruction::AddIndex { x } => done(
            MachineState { i: ((s.i + s.v[x as int]) % 0x10000) as u16, pc: (s.pc + 2) as u16, ..s },
        ),
        Instruction::LoadGlyph { x } => done(
            MachineState { i: (s.v[x as int] * 5) as u16, pc: (s.pc + 2) as u16, ..s },
        ),
        Instruction::StoreDecimal { x } => store_decimal_spec(s, x as int),
        Instruction::StoreRegisters { x } => store_registers_spec(s, x as int),
        Instruction::LoadRegisters { x } => load_registers_spec(s, x as int),
        Instruction::Unknown { word } => (advanced(s), Err(ExecutionFault::UnknownOpcode(word))),
    }
}

/// One fetch-decode-execute cycle: the word at the program counter is
/// fetched, recorded as the current opcode, decoded and executed. A program
/// counter past the last whole instruction is a fault and changes nothing.
pub open spec fn step_spec(s: MachineState, rnd: u8) -> Outcome {
    if s.pc > LAST_FETCH_ADDR {
        (s, Err(ExecutionFault::ProgramCounterOutOfRange))
    } else {
        let w = word_at(s.memory, s.pc as int);
        execute_spec(MachineState { opcode: w, ..s }, decode_spec(w), rnd)
    }
}

} // verus!
