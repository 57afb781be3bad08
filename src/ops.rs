//! One method per instruction, each proved to do what its function in
//! `semantics` says.
use vstd::prelude::*;

use crate::machine::{
    Chip8, ExecutionFault, MachineState, DISPLAY_SIZE, FLAG, GLYPH_HEIGHT, KEY_COUNT,
    LAST_FETCH_ADDR, MEMORY_SIZE, REGISTER_COUNT, STACK_DEPTH,
};
use crate::random::random_byte;
use crate::semantics::{
    add_spec, bit_of, call_spec, clear_spec, col_offset, draw_spec, jump_spec,
    key_pressed, lemma_first_pressed, load_registers_spec, lowest_pressed, register_set, return_spec, row_offset,
    shift_left_spec, shift_right_spec, skipped_if, sprite_pixel, store_decimal_spec,
    store_registers_spec, sub_reversed_spec, sub_spec, wait_key_spec,
};
use vstd::arithmetic::div_mod::{lemma_fundamental_div_mod, lemma_fundamental_div_mod_converse};

verus! {

impl Chip8 {
    /// Whether the key named by `b` is pressed; a byte past the last key
    /// names none.
    fn key_is_pressed(&self, b: u8) -> (r: bool)
        ensures
            r == key_pressed(self@, b),
    {
        (b as usize) < KEY_COUNT && self.key[b as usize]
    }

    /// 00E0 CLS: turns every pixel off and marks the display for redrawing.
    pub fn op_00e0(&mut self)
        requires
            old(self).pc <= LAST_FETCH_ADDR,
        ensures
            final(self)@ == clear_spec(old(self)@),
    {
        self.gfx = [false; DISPLAY_SIZE];
        self.draw_flag = true;
        self.pc = self.pc + 2;
        assert(self.gfx@ =~= clear_spec(old(self)@).gfx);
    }

    /// 00EE RET: pops the return address into the program counter; fails
    /// with `StackUnderflow`, changing nothing, when the stack is empty.
    pub fn op_00ee(&mut self) -> (r: Result<(), ExecutionFault>)
        requires
            old(self).wf(),
        ensures
            (final(self)@, r) == return_spec(old(self)@),
            final(self).wf(),
    {
        if self.sp == 0 {
            return Err(ExecutionFault::StackUnderflow);
        }
        self.sp = self.sp - 1;
        self.pc = self.stack[self.sp];
        Ok(())
    }

    /// 1nnn JP addr: the program counter takes `nnn`.
    pub fn op_1nnn(&mut self, nnn: u16)
        ensures
            final(self)@ == jump_spec(old(self)@, nnn),
    {
        self.pc = nnn;
    }

    /// 2nnn CALL addr: pushes the address of the next instruction and jumps
    /// to `nnn`; fails with `StackOverflow`, changing nothing, when all
    /// sixteen slots are in use.
    pub fn op_2nnn(&mut self, nnn: u16) -> (r: Result<(), ExecutionFault>)
        requires
            old(self).wf(),
            old(self).pc <= LAST_FETCH_ADDR,
        ensures
            (final(self)@, r) == call_spec(old(self)@, nnn),
            final(self).wf(),
    {
        if self.sp >= STACK_DEPTH {
            return Err(ExecutionFault::StackOverflow);
        }
        self.stack[self.sp] = self.pc + 2;
        self.sp = self.sp + 1;
        self.pc = nnn;
        Ok(())
    }

    /// 3xkk SE Vx, byte: skips the next instruction when `Vx == kk`.
    pub fn op_3xkk(&mut self, x: usize, kk: u8)
        requires
            old(self).pc <= LAST_FETCH_ADDR,
            x < REGISTER_COUNT,
        ensures
            final(self)@ == skipped_if(old(self)@, old(self)@.v[x as int] == kk),
    {
        if self.v[x] == kk {
            self.pc = self.pc + 4;
        } else {
            self.pc = self.pc + 2;
        }
    }

    /// 4xkk SNE Vx, byte: skips the next instruction when `Vx != kk`.
    pub fn op_4xkk(&mut self, x: usize, kk: u8)
        requires
            old(self).pc <= LAST_FETCH_ADDR,
            x < REGISTER_COUNT,
        ensures
            final(self)@ == skipped_if(old(self)@, old(self)@.v[x as int] != kk),
    {
        if self.v[x] != kk {
            self.pc = self.pc + 4;
        } else {
            self.pc = self.pc + 2;
        }
    }

    /// 5xy0 SE Vx, Vy: skips the next instruction when `Vx == Vy`.
    pub fn op_5xy0(&mut self, x: usize, y: usize)
        requires
            old(self).pc <= LAST_FETCH_ADDR,
            x < REGISTER_COUNT,
            y < REGISTER_COUNT,
        ensures
            final(self)@ == skipped_if(old(self)@, old(self)@.v[x as int] == old(self)@.v[y as int]),
    {
        if self.v[x] == self.v[y] {
            self.pc = self.pc + 4;
        } else {
            self.pc = self.pc + 2;
        }
    }

    /// 6xkk LD Vx, byte: `Vx` takes `kk`.
    pub fn op_6xkk(&mut self, x: usize, kk: u8)
        requires
            old(self).pc <= LAST_FETCH_ADDR,
            x < REGISTER_COUNT,
        ensures
            final(self)@ == register_set(old(self)@, x as int, kk),
            final(self).v[x as int] == kk,
    {
        self.v[x] = kk;
        self.pc = self.pc + 2;
    }

    /// 7xkk ADD Vx, byte: `Vx` takes `Vx + kk` modulo 256; the flag is left
    /// alone.
    pub fn op_7xkk(&mut self, x: usize, kk: u8)
        requires
            old(self).pc <= LAST_FETCH_ADDR,
            x < REGISTER_COUNT,
        ensures
            final(self)@ == register_set(
                old(self)@,
                x as int,
                ((old(self)@.v[x as int] + kk) % 256) as u8,
            ),
    {
        self.v[x] = self.v[x].wrapping_add(kk);
        self.pc = self.pc + 2;
    }

    /// 8xy0 LD Vx, Vy: `Vx` takes `Vy`.
    pub fn op_8xy0(&mut self, x: usize, y: usize)
        requires
            old(self).pc <= LAST_FETCH_ADDR,
            x < REGISTER_COUNT,
            y < REGISTER_COUNT,
        ensures
            final(self)@ == register_set(old(self)@, x as int, old(self)@.v[y as int]),
    {
        self.v[x] = self.v[y];
        self.pc = self.pc + 2;
    }

    /// 8xy1 OR Vx, Vy: `Vx` takes `Vx | Vy`.
    pub fn op_8xy1(&mut self, x: usize, y: usize)
        requires
            old(self).pc <= LAST_FETCH_ADDR,
            x < REGISTER_COUNT,
            y < REGISTER_COUNT,
        ensures
            final(self)@ == register_set(
                old(self)@,
                x as int,
                old(self)@.v[x as int] | old(self)@.v[y as int],
            ),
    {
        self.v[x] = self.v[x] | self.v[y];
        self.pc = self.pc + 2;
    }

    /// 8xy2 AND Vx, Vy: `Vx` takes `Vx & Vy`.
    pub fn op_8xy2(&mut self, x: usize, y: usize)
        requires
            old(self).pc <= LAST_FETCH_ADDR,
            x < REGISTER_COUNT,
            y < REGISTER_COUNT,
        ensures
            final(self)@ == register_set(
                old(self)@,
                x as int,
                old(self)@.v[x as int] & old(self)@.v[y as int],
            ),
    {
        self.v[x] = self.v[x] & self.v[y];
        self.pc = self.pc + 2;
    }

    /// 8xy3 XOR Vx, Vy: `Vx` takes `Vx ^ Vy`.
    pub fn op_8xy3(&mut self, x: usize, y: usize)
        requires
            old(self).pc <= LAST_FETCH_ADDR,
            x < REGISTER_COUNT,
            y < REGISTER_COUNT,
        ensures
            final(self)@ == register_set(
                old(self)@,
                x as int,
                old(self)@.v[x as int] ^ old(self)@.v[y as int],
            ),
    {
        self.v[x] = self.v[x] ^ self.v[y];
        self.pc = self.pc + 2;
    }

    /// 8xy4 ADD Vx, Vy: `Vx` takes the sum modulo 256, then the flag is set
    /// to 1 when the sum exceeds 255 and to 0 otherwise.
    pub fn op_8xy4(&mut self, x: usize, y: usize)
        requires
            old(self).pc <= LAST_FETCH_ADDR,
            x < REGISTER_COUNT,
            y < REGISTER_COUNT,
        ensures
            final(self)@ == add_spec(old(self)@, x as int, y as int),
    {
        let sum: u16 = self.v[x] as u16 + self.v[y] as u16;
        self.v[x] = (sum % 256) as u8;
        self.v[FLAG] = if sum > 0xFF {
            1
        } else {
            0
        };
        self.pc = self.pc + 2;
    }

    /// 8xy5 SUB Vx, Vy: `Vx` takes `Vx - Vy` modulo 256, then the flag is
    /// set to 1 when `Vx >= Vy` (no borrow) and to 0 otherwise.
    pub fn op_8xy5(&mut self, x: usize, y: usize)
        requires
            old(self).pc <= LAST_FETCH_ADDR,
            x < REGISTER_COUNT,
            y < REGISTER_COUNT,
        ensures
            final(self)@ == sub_spec(old(self)@, x as int, y as int),
    {
        let a = self.v[x];
        let b = self.v[y];
        let no_borrow: u8 = if a >= b {
            1
        } else {
            0
        };
        self.v[x] = a.wrapping_sub(b);
        self.v[FLAG] = no_borrow;
        self.pc = self.pc + 2;
    }

    /// 8xy6 SHR Vx: `Vx` is shifted right by one, then the flag takes the
    /// bit shifted out.
    pub fn op_8x06(&mut self, x: usize)
        requires
            old(self).pc <= LAST_FETCH_ADDR,
            x < REGISTER_COUNT,
        ensures
            final(self)@ == shift_right_spec(old(self)@, x as int),
    {
        let a = self.v[x];
        let low: u8 = a & 1;
        assert(a & 1 == a % 2) by (bit_vector);
        assert(a >> 1 == a / 2) by (bit_vector);
        self.v[x] = a >> 1;
        self.v[FLAG] = low;
        self.pc = self.pc + 2;
    }

    /// 8xy7 SUBN Vx, Vy: `Vx` takes `Vy - Vx` modulo 256, then the flag is
    /// set to 1 when `Vy >= Vx` (no borrow) and to 0 otherwise.
    pub fn op_8xy7(&mut self, x: usize, y: usize)
        requires
            old(self).pc <= LAST_FETCH_ADDR,
            x < REGISTER_COUNT,
            y < REGISTER_COUNT,
        ensures
            final(self)@ == sub_reversed_spec(old(self)@, x as int, y as int),
    {
        let a = self.v[x];
        let b = self.v[y];
        let no_borrow: u8 = if b >= a {
            1
        } else {
            0
        };
        self.v[x] = b.wrapping_sub(a);
        self.v[FLAG] = no_borrow;
        self.pc = self.pc + 2;
    }

    /// 8xyE SHL Vx: `Vx` is shifted left by one, then the flag takes the
    /// bit shifted out.
    pub fn op_8x0e(&mut self, x: usize)
        requires
            old(self).pc <= LAST_FETCH_ADDR,
            x < REGISTER_COUNT,
        ensures
            final(self)@ == shift_left_spec(old(self)@, x as int),
    {
        let a = self.v[x];
        let high: u8 = (a & 0x80) >> 7;
        assert((a & 0x80) >> 7 == a / 128) by (bit_vector);
        assert(a << 1 == (a * 2) % 256) by (bit_vector);
        self.v[x] = a << 1;
        self.v[FLAG] = high;
        self.pc = self.pc + 2;
    }

    /// 9xy0 SNE Vx, Vy: skips the next instruction when `Vx != Vy`.
    pub fn op_9xy0(&mut self, x: usize, y: usize)
        requires
            old(self).pc <= LAST_FETCH_ADDR,
            x < REGISTER_COUNT,
            y < REGISTER_COUNT,
        ensures
            final(self)@ == skipped_if(old(self)@, old(self)@.v[x as int] != old(self)@.v[y as int]),
    {
        if self.v[x] != self.v[y] {
            self.pc = self.pc + 4;
        } else {
            self.pc = self.pc + 2;
        }
    }

    /// Annn LD I, addr: the index register takes `nnn`.
    pub fn op_annn(&mut self, nnn: u16)
        requires
            old(self).pc <= LAST_FETCH_ADDR,
        ensures
            final(self)@ == (MachineState { i: nnn, pc: (old(self).pc + 2) as u16, ..old(self)@ }),
    {
        self.i = nnn;
        self.pc = self.pc + 2;
    }

    /// Bnnn JP V0, addr: the program counter takes `nnn + V0`.
    pub fn op_bnnn(&mut self, nnn: u16)
        requires
            nnn < 4096,
        ensures
            final(self)@ == jump_spec(old(self)@, (nnn + old(self)@.v[0]) as u16),
    {
        self.pc = nnn + self.v[0] as u16;
    }

    /// Cxkk RND Vx, byte: `Vx` takes a random byte masked with `kk`.
    pub fn op_cxkk(&mut self, x: usize, kk: u8)
        requires
            old(self).pc <= LAST_FETCH_ADDR,
            x < REGISTER_COUNT,
        ensures
            exists|b: u8| final(self)@ == register_set(old(self)@, x as int, b & kk),
    {
        let b = random_byte();
        self.v[x] = b & kk;
        self.pc = self.pc + 2;
        assert(self@ == register_set(old(self)@, x as int, b & kk));
    }

    /// Ex9E SKP Vx: skips the next instruction when the key named by `Vx`
    /// is pressed.
    pub fn op_ex9e(&mut self, x: usize)
        requires
            old(self).pc <= LAST_FETCH_ADDR,
            x < REGISTER_COUNT,
        ensures
            final(self)@ == skipped_if(old(self)@, key_pressed(old(self)@, old(self)@.v[x as int])),
    {
        if self.key_is_pressed(self.v[x]) {
            self.pc = self.pc + 4;
        } else {
            self.pc = self.pc + 2;
        }
    }

    /// ExA1 SKNP Vx: skips the next instruction when the key named by `Vx`
    /// is not pressed.
    pub fn op_exa1(&mut self, x: usize)
        requires
            old(self).pc <= LAST_FETCH_ADDR,
            x < REGISTER_COUNT,
        ensures
            final(self)@ == skipped_if(
                old(self)@,
                !key_pressed(old(self)@, old(self)@.v[x as int]),
            ),
    {
        if !self.key_is_pressed(self.v[x]) {
            self.pc = self.pc + 4;
        } else {
            self.pc = self.pc + 2;
        }
    }

    /// Fx07 LD Vx, DT: `Vx` takes the delay timer.
    pub fn op_fx07(&mut self, x: usize)
        requires
            old(self).pc <= LAST_FETCH_ADDR,
            x < REGISTER_COUNT,
        ensures
            final(self)@ == register_set(old(self)@, x as int, old(self).delay_timer),
    {
        self.v[x] = self.delay_timer;
        self.pc = self.pc + 2;
    }

    /// Fx15 LD DT, Vx: the delay timer takes `Vx`.
    pub fn op_fx15(&mut self, x: usize)
        requires
            old(self).pc <= LAST_FETCH_ADDR,
            x < REGISTER_COUNT,
        ensures
            final(self)@ == (MachineState {
                delay_timer: old(self)@.v[x as int],
                pc: (old(self).pc + 2) as u16,
                ..old(self)@
            }),
    {
        self.delay_timer = self.v[x];
        self.pc = self.pc + 2;
    }

    /// Fx18 LD ST, Vx: the sound timer takes `Vx`.
    pub fn op_fx18(&mut self, x: usize)
        requires
            old(self).pc <= LAST_FETCH_ADDR,
            x < REGISTER_COUNT,
        ensures
            final(self)@ == (MachineState {
                sound_timer: old(self)@.v[x as int],
                pc: (old(self).pc + 2) as u16,
                ..old(self)@
            }),
    {
        self.sound_timer = self.v[x];
        self.pc = self.pc + 2;
    }

    /// Fx1E ADD I, Vx: the index register takes `I + Vx` modulo 65536; no
    /// flag is set.
    pub fn op_fx1e(&mut self, x: usize)
        requires
            old(self).pc <= LAST_FETCH_ADDR,
            x < REGISTER_COUNT,
        ensures
            final(self)@ == (MachineState {
                i: ((old(self).i + old(self)@.v[x as int]) % 0x10000) as u16,
                pc: (old(self).pc + 2) as u16,
                ..old(self)@
            }),
    {
        self.i = self.i.wrapping_add(self.v[x] as u16);
        self.pc = self.pc + 2;
    }

    /// Fx29 LD F, Vx: the index register takes `Vx * 5`, the address of the
    /// glyph for digit `Vx` in the glyph table.
    pub fn op_fx29(&mut self, x: usize)
        requires
            old(self).pc <= LAST_FETCH_ADDR,
            x < REGISTER_COUNT,
        ensures
            final(self)@ == (MachineState {
                i: (old(self)@.v[x as int] * 5) as u16,
                pc: (old(self).pc + 2) as u16,
                ..old(self)@
            }),
    {
        self.i = (self.v[x] as u16) * GLYPH_HEIGHT;
        self.pc = self.pc + 2;
    }
}

/// Whether the sprite cell that covers pixel `p` comes before the cell at
/// `row` and `col` in drawing order (row by row, left to right).
spec fn covered_before(p: int, x0: int, y0: int, row: int, col: int) -> bool {
    let r = row_offset(p / 64, y0);
    let c = col_offset(p % 64, x0);
    r < row || (r == row && c < col)
}

/// A pixel index splits into its row and column.
proof fn lemma_pixel_split(p: int)
    requires
        0 <= p < DISPLAY_SIZE,
    ensures
        p == (p / 64) * 64 + p % 64,
        0 <= p % 64 < 64,
        0 <= p / 64 < 32,
{
    lemma_fundamental_div_mod(p, 64);
}

/// The pixel at column `px` and row `py` has index `py * 64 + px`, and it is
/// the only pixel at that row and column offset from `(x0, y0)`.
proof fn lemma_cell_target(px: int, py: int, x0: int, y0: int)
    requires
        0 <= px < 64,
        0 <= py < 32,
        0 <= x0 < 64,
        0 <= y0 < 32,
    ensures
        (py * 64 + px) / 64 == py,
        (py * 64 + px) % 64 == px,
        forall|p: int|
            0 <= p < DISPLAY_SIZE && row_offset(#[trigger] (p / 64), y0) == row_offset(py, y0)
                && col_offset(#[trigger] (p % 64), x0) == col_offset(px, x0) ==> p == py * 64 + px,
{
    lemma_fundamental_div_mod_converse(py * 64 + px, 64, py, px);
    assert forall|p: int|
        0 <= p < DISPLAY_SIZE && row_offset(#[trigger] (p / 64), y0) == row_offset(py, y0)
            && col_offset(#[trigger] (p % 64), x0) == col_offset(px, x0) implies p == py * 64
        + px by {
        lemma_pixel_split(p);
    }
}

impl Chip8 {
    /// Dxyn DRW Vx, Vy, n: XORs the `n`-row sprite at `I` onto the display
    /// at column `Vx mod 64` and row `Vy mod 32`, wrapping on both axes; the
    /// flag is then set to 1 when a lit pixel was turned off and to 0
    /// otherwise, and the display is marked for redrawing. Fails with
    /// `AddressOutOfRange`, changing nothing, when the sprite reaches past
    /// the end of memory.
    pub fn op_dxyn(&mut self, x: usize, y: usize, n: usize) -> (r: Result<(), ExecutionFault>)
        requires
            old(self).pc <= LAST_FETCH_ADDR,
            x < REGISTER_COUNT,
            y < REGISTER_COUNT,
            n < 16,
        ensures
            (final(self)@, r) == draw_spec(old(self)@, x as int, y as int, n as int),
    {
        let addr = self.i as usize;
        if addr + n > MEMORY_SIZE {
            return Err(ExecutionFault::AddressOutOfRange);
        }
        let x0: usize = (self.v[x] % 64) as usize;
        let y0: usize = (self.v[y] % 32) as usize;
        let ghost mem = self.memory@;
        let ghost old_gfx = self.gfx@;
        let mut gfx = self.gfx;
        let mut hit = false;
        let mut row: usize = 0;
        while row < n
            invariant
                addr + n <= MEMORY_SIZE,
                mem == self.memory@,
                old_gfx == self.gfx@,
                x0 < 64,
                y0 < 32,
                n < 16,
                row <= n,
                forall|p: int|
                    0 <= p < DISPLAY_SIZE ==> #[trigger] gfx@[p] == (old_gfx[p] != (covered_before(
                        p,
                        x0 as int,
                        y0 as int,
                        row as int,
                        0,
                    ) && sprite_pixel(mem, addr as int, x0 as int, y0 as int, n as int, p))),
                hit == exists|p: int|
                    0 <= p < DISPLAY_SIZE && #[trigger] old_gfx[p] && covered_before(
                        p,
                        x0 as int,
                        y0 as int,
                        row as int,
                        0,
                    ) && sprite_pixel(mem, addr as int, x0 as int, y0 as int, n as int, p),
            decreases n - row,
        {
            let byte = self.memory[addr + row];
            let py: usize = if y0 + row >= 32 {
                y0 + row - 32
            } else {
                y0 + row
            };
            let mut col: usize = 0;
            while col < 8
                invariant
                    addr + n <= MEMORY_SIZE,
                    mem == self.memory@,
                    old_gfx == self.gfx@,
                    x0 < 64,
                    y0 < 32,
                    n < 16,
                    row < n,
                    col <= 8,
                    byte == mem[addr + row],
                    py < 32,
                    row_offset(py as int, y0 as int) == row,
                    forall|p: int|
                        0 <= p < DISPLAY_SIZE ==> #[trigger] gfx@[p] == (old_gfx[p] != (
                        covered_before(p, x0 as int, y0 as int, row as int, col as int)
                            && sprite_pixel(mem, addr as int, x0 as int, y0 as int, n as int, p))),
                    hit == exists|p: int|
                        0 <= p < DISPLAY_SIZE && #[trigger] old_gfx[p] && covered_before(
                            p,
                            x0 as int,
                            y0 as int,
                            row as int,
                            col as int,
                        ) && sprite_pixel(mem, addr as int, x0 as int, y0 as int, n as int, p),
                decreases 8 - col,
            {
                let px: usize = if x0 + col >= 64 {
                    x0 + col - 64
                } else {
                    x0 + col
                };
                let idx: usize = py * 64 + px;
                let color: bool = (byte >> (7 - col as u8)) & 1 == 1;
                let ghost target = idx as int;
                proof {
                    lemma_cell_target(px as int, py as int, x0 as int, y0 as int);
                    assert(col_offset(px as int, x0 as int) == col);
                    assert(color == bit_of(byte, col as int));
                    assert(sprite_pixel(mem, addr as int, x0 as int, y0 as int, n as int, target)
                        == color);
                    assert(!covered_before(target, x0 as int, y0 as int, row as int, col as int));
                }
                let ghost hit_before = hit;
                let ghost gfx_before = gfx@;
                let lit = gfx[idx];
                hit = hit || (color && lit);
                gfx[idx] = lit != color;
                proof {
                    assert forall|p: int| 0 <= p < DISPLAY_SIZE implies #[trigger] gfx@[p] == (
                    old_gfx[p] != (covered_before(
                        p,
                        x0 as int,
                        y0 as int,
                        row as int,
                        col + 1,
                    ) && sprite_pixel(mem, addr as int, x0 as int, y0 as int, n as int, p))) by {
                        assert(gfx_before[p] == (old_gfx[p] != (covered_before(
                            p,
                            x0 as int,
                            y0 as int,
                            row as int,
                            col as int,
                        ) && sprite_pixel(mem, addr as int, x0 as int, y0 as int, n as int, p))));
                        if p != target {
                            lemma_pixel_split(p);
                        }
                    }
                    let later = exists|p: int|
                        0 <= p < DISPLAY_SIZE && #[trigger] old_gfx[p] && covered_before(
                            p,
                            x0 as int,
                            y0 as int,
                            row as int,
                            col + 1,
                        ) && sprite_pixel(mem, addr as int, x0 as int, y0 as int, n as int, p);
                    if hit {
                        if hit_before {
                            let w = choose|p: int|
                                0 <= p < DISPLAY_SIZE && #[trigger] old_gfx[p] && covered_before(
                                    p,
                                    x0 as int,
                                    y0 as int,
                                    row as int,
                                    col as int,
                                ) && sprite_pixel(
                                    mem,
                                    addr as int,
                                    x0 as int,
                                    y0 as int,
                                    n as int,
                                    p,
                                );
                            lemma_pixel_split(w);
                            assert(covered_before(w, x0 as int, y0 as int, row as int, col + 1));
                        } else {
                            assert(old_gfx[target]);
                            assert(covered_before(target, x0 as int, y0 as int, row as int, col + 1));
                        }
                        assert(later);
                    }
                    if later {
                        let w = choose|p: int|
                            0 <= p < DISPLAY_SIZE && #[trigger] old_gfx[p] && covered_before(
                                p,
                                x0 as int,
                                y0 as int,
                                row as int,
                                col + 1,
                            ) && sprite_pixel(mem, addr as int, x0 as int, y0 as int, n as int, p);
                        lemma_pixel_split(w);
                        if w != target {
                            assert(covered_before(w, x0 as int, y0 as int, row as int, col as int));
                        }
                        assert(hit);
                    }
                }
                col = col + 1;
            }
            proof {
                assert forall|p: int| 0 <= p < DISPLAY_SIZE implies (covered_before(
                    p,
                    x0 as int,
                    y0 as int,
                    row as int,
                    8,
                ) && sprite_pixel(mem, addr as int, x0 as int, y0 as int, n as int, p)) == (
                covered_before(p, x0 as int, y0 as int, row + 1, 0) && sprite_pixel(
                    mem,
                    addr as int,
                    x0 as int,
                    y0 as int,
                    n as int,
                    p,
                )) by {
                    lemma_pixel_split(p);
                }
            }
            row = row + 1;
        }
        proof {
            assert forall|p: int| 0 <= p < DISPLAY_SIZE implies (covered_before(
                p,
                x0 as int,
                y0 as int,
                n as int,
                0,
            ) && sprite_pixel(mem, addr as int, x0 as int, y0 as int, n as int, p))
                == sprite_pixel(mem, addr as int, x0 as int, y0 as int, n as int, p) by {
                lemma_pixel_split(p);
            }
        }
        self.gfx = gfx;
        self.v[FLAG] = if hit {
            1
        } else {
            0
        };
        self.draw_flag = true;
        self.pc = self.pc + 2;
        assert(self.gfx@ =~= draw_spec(old(self)@, x as int, y as int, n as int).0.gfx);
        Ok(())
    }
}

impl Chip8 {
    /// Fx0A LD Vx, K: waits for a key. With no key pressed nothing
    /// changes, so that the instruction runs again on the next step;
    /// otherwise `Vx` takes the lowest-numbered pressed key and the program
    /// counter moves on.
    pub fn op_fx0a(&mut self, x: usize)
        requires
            old(self).pc <= LAST_FETCH_ADDR,
            x < REGISTER_COUNT,
        ensures
            final(self)@ == wait_key_spec(old(self)@, x as int),
    {
        let mut k: usize = 0;
        while k < KEY_COUNT && !self.key[k]
            invariant
                k <= KEY_COUNT,
                *self == *old(self),
                forall|j: int| 0 <= j < k ==> !self.key@[j],
            decreases KEY_COUNT - k,
        {
            k = k + 1;
        }
        if k < KEY_COUNT {
            proof {
                lemma_first_pressed(self.key@, k as int);
            }
            self.v[x] = k as u8;
            self.pc = self.pc + 2;
            assert(self@ == register_set(old(self)@, x as int, k as u8));
        } else {
            assert(!exists|c: int| lowest_pressed(self.key@, c)) by {
                assert forall|c: int| !lowest_pressed(self.key@, c) by {
                    if 0 <= c < KEY_COUNT {
                        assert(!self.key@[c]);
                    }
                }
            }
        }
    }

    /// Fx33 LD B, Vx: stores the hundreds, tens and ones of `Vx` at `I`,
    /// `I + 1` and `I + 2`. Fails with `AddressOutOfRange`, changing
    /// nothing, when `I + 2` is past the end of memory.
    pub fn op_fx33(&mut self, x: usize) -> (r: Result<(), ExecutionFault>)
        requires
            old(self).pc <= LAST_FETCH_ADDR,
            x < REGISTER_COUNT,
        ensures
            (final(self)@, r) == store_decimal_spec(old(self)@, x as int),
    {
        let addr = self.i as usize;
        if addr + 3 > MEMORY_SIZE {
            return Err(ExecutionFault::AddressOutOfRange);
        }
        let b = self.v[x];
        self.memory[addr] = b / 100;
        self.memory[addr + 1] = (b / 10) % 10;
        self.memory[addr + 2] = b % 10;
        self.pc = self.pc + 2;
        Ok(())
    }

    /// Fx55 LD [I], Vx: stores registers V0 to Vx inclusive in memory from
    /// `I` on; `I` itself is left alone. Fails with `AddressOutOfRange`,
    /// changing nothing, when `I + x` is past the end of memory.
    pub fn op_fx55(&mut self, x: usize) -> (r: Result<(), ExecutionFault>)
        requires
            old(self).pc <= LAST_FETCH_ADDR,
            x < REGISTER_COUNT,
        ensures
            (final(self)@, r) == store_registers_spec(old(self)@, x as int),
    {
        let addr = self.i as usize;
        if addr + x + 1 > MEMORY_SIZE {
            return Err(ExecutionFault::AddressOutOfRange);
        }
        let mut memory = self.memory;
        let mut r: usize = 0;
        while r <= x
            invariant
                addr + x + 1 <= MEMORY_SIZE,
                x < REGISTER_COUNT,
                r <= x + 1,
                forall|a: int|
                    0 <= a < MEMORY_SIZE ==> #[trigger] memory@[a] == if addr <= a < addr + r {
                        self.v@[a - addr]
                    } else {
                        self.memory@[a]
                    },
            decreases x + 1 - r,
        {
            memory[addr + r] = self.v[r];
            r = r + 1;
        }
        self.memory = memory;
        self.pc = self.pc + 2;
        assert(self.memory@ =~= store_registers_spec(old(self)@, x as int).0.memory);
        Ok(())
    }

    /// Fx65 LD Vx, [I]: loads registers V0 to Vx inclusive from memory from
    /// `I` on; `I` itself is left alone. Fails with `AddressOutOfRange`,
    /// changing nothing, when `I + x` is past the end of memory.
    pub fn op_fx65(&mut self, x: usize) -> (r: Result<(), ExecutionFault>)
        requires
            old(self).pc <= LAST_FETCH_ADDR,
            x < REGISTER_COUNT,
        ensures
            (final(self)@, r) == load_registers_spec(old(self)@, x as int),
    {
        let addr = self.i as usize;
        if addr + x + 1 > MEMORY_SIZE {
            return Err(ExecutionFault::AddressOutOfRange);
        }
        let mut v = self.v;
        let mut r: usize = 0;
        while r <= x
            invariant
                addr + x + 1 <= MEMORY_SIZE,
                x < REGISTER_COUNT,
                r <= x + 1,
                forall|k: int|
                    0 <= k < REGISTER_COUNT ==> #[trigger] v@[k] == if k < r {
                        self.memory@[addr + k]
                    } else {
                        self.v@[k]
                    },
            decreases x + 1 - r,
        {
            v[r] = self.memory[addr + r];
            r = r + 1;
        }
        self.v = v;
        self.pc = self.pc + 2;
        assert(self.v@ =~= load_registers_spec(old(self)@, x as int).0.v);
        Ok(())
    }
}

} // verus!
