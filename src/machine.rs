use vstd::prelude::*;

verus! {

/// Bytes of addressable memory.
pub const MEMORY_SIZE: usize = 4096;

/// Address at which programs are loaded and execution starts.
pub const PROGRAM_START: u16 = 0x200;

/// Largest program image that fits between `PROGRAM_START` and the end of memory.
pub const MAX_PROGRAM_LEN: usize = 3584;

/// Highest program counter from which a whole two-byte instruction can be fetched.
pub const LAST_FETCH_ADDR: u16 = 4094;

/// Number of general-purpose registers; the last one doubles as the flag register.
pub const REGISTER_COUNT: usize = 16;

/// Index of the flag register VF.
pub const FLAG: usize = 15;

/// Depth of the call stack.
pub const STACK_DEPTH: usize = 16;

/// Number of keys on the keypad.
pub const KEY_COUNT: usize = 16;

/// Display width in pixels.
pub const SCREEN_WIDTH: usize = 64;

/// Display height in pixels.
pub const SCREEN_HEIGHT: usize = 32;

/// Number of pixels on the display.
pub const DISPLAY_SIZE: usize = 2048;

/// Length of the built-in hexadecimal glyph table.
pub const GLYPH_TABLE_LEN: usize = 80;

/// Bytes per glyph in the glyph table.
pub const GLYPH_HEIGHT: u16 = 5;

/// A fault raised while executing an instruction.
#[derive(Clone, Copy, Debug, PartialEq, Eq, Structural)]
pub enum ExecutionFault {
    /// A call was made with all sixteen stack slots in use.
    StackOverflow,
    /// A return was made with an empty stack.
    StackUnderflow,
    /// The fetched word matches no instruction; it is carried in the fault.
    UnknownOpcode(u16),
    /// The program counter is past the last address from which a whole
    /// instruction can be fetched.
    ProgramCounterOutOfRange,
    /// The instruction would read or write memory past its last byte.
    AddressOutOfRange,
}

/// A program image longer than the space reserved for programs.
#[derive(Clone, Copy, Debug, PartialEq, Eq, Structural)]
pub struct ProgramTooLarge {
    /// Length of the rejected image in bytes.
    pub len: usize,
}

/// The whole machine: memory, registers, stack, timers, display and keypad.
///
/// The display is stored row by row: the pixel at column `x` and row `y`
/// is `gfx[y * 64 + x]`, `true` when lit.
pub struct Chip8 {
    /// The instruction word fetched by the last step.
    pub opcode: u16,
    pub memory: [u8; MEMORY_SIZE],
    /// Registers V0 to VF.
    pub v: [u8; REGISTER_COUNT],
    /// The index register I.
    pub i: u16,
    /// The program counter.
    pub pc: u16,
    pub gfx: [bool; DISPLAY_SIZE],
    pub delay_timer: u8,
    pub sound_timer: u8,
    pub stack: [u16; STACK_DEPTH],
    /// Number of return addresses on the stack.
    pub sp: usize,
    /// Key states written by the host, `true` while pressed.
    pub key: [bool; KEY_COUNT],
    /// Set whenever the display changes; cleared by the host once it has
    /// shown the frame.
    pub draw_flag: bool,
}

/// The mathematical model of a `Chip8`: the same fields, with each array
/// seen as a sequence.
pub struct MachineState {
    pub opcode: u16,
    pub memory: Seq<u8>,
    pub v: Seq<u8>,
    pub i: u16,
    pub pc: u16,
    pub gfx: Seq<bool>,
    pub delay_timer: u8,
    pub sound_timer: u8,
    pub stack: Seq<u16>,
    pub sp: usize,
    pub key: Seq<bool>,
    pub draw_flag: bool,
}

impl MachineState {
    /// Every sequence has its fixed length and the stack pointer is in range.
    pub open spec fn wf(self) -> bool {
        &&& self.memory.len() == MEMORY_SIZE
        &&& self.v.len() == REGISTER_COUNT
        &&& self.gfx.len() == DISPLAY_SIZE
        &&& self.stack.len() == STACK_DEPTH
        &&& self.key.len() == KEY_COUNT
        &&& self.sp <= STACK_DEPTH
    }
}

impl View for Chip8 {
    type V = MachineState;

    open spec fn view(&self) -> MachineState {
        MachineState {
            opcode: self.opcode,
            memory: self.memory@,
            v: self.v@,
            i: self.i,
            pc: self.pc,
            gfx: self.gfx@,
            delay_timer: self.delay_timer,
            sound_timer: self.sound_timer,
            stack: self.stack@,
            sp: self.sp,
            key: self.key@,
            draw_flag: self.draw_flag,
        }
    }
}

impl Chip8 {
    /// The stack pointer is within the stack.
    pub open spec fn wf(&self) -> bool {
        self.sp <= STACK_DEPTH
    }
}

/// The built-in glyph table: five rows for each hexadecimal digit 0 to F,
/// the high four bits of each byte being the lit pixels of the row.
pub open spec fn glyph_table() -> Seq<u8> {
    seq![
        0xF0u8, 0x90, 0x90, 0x90, 0xF0,
        0x20, 0x60, 0x20, 0x20, 0x70,
        0xF0, 0x10, 0xF0, 0x80, 0xF0,
        0xF0, 0x10, 0xF0, 0x10, 0xF0,
        0x90, 0x90, 0xF0, 0x10, 0x10,
        0xF0, 0x80, 0xF0, 0x10, 0xF0,
        0xF0, 0x80, 0xF0, 0x90, 0xF0,
        0xF0, 0x10, 0x20, 0x40, 0x40,
        0xF0, 0x90, 0xF0, 0x90, 0xF0,
        0xF0, 0x90, 0xF0, 0x10, 0xF0,
        0xF0, 0x90, 0xF0, 0x90, 0x90,
        0xE0, 0x90, 0xE0, 0x90, 0xE0,
        0xF0, 0x80, 0x80, 0x80, 0xF0,
        0xE0, 0x90, 0x90, 0x90, 0xE0,
        0xF0, 0x80, 0xF0, 0x80, 0xF0,
        0xF0, 0x80, 0xF0, 0x80, 0x80,
    ]
}

/// The state of a freshly powered-on machine: everything zero, the program
/// counter at `PROGRAM_START`.
pub open spec fn power_on_state() -> MachineState {
    MachineState {
        opcode: 0,
        memory: Seq::new(MEMORY_SIZE as nat, |a: int| 0u8),
        v: Seq::new(REGISTER_COUNT as nat, |r: int| 0u8),
        i: 0,
        pc: PROGRAM_START,
        gfx: Seq::new(DISPLAY_SIZE as nat, |p: int| false),
        delay_timer: 0,
        sound_timer: 0,
        stack: Seq::new(STACK_DEPTH as nat, |k: int| 0u16),
        sp: 0,
        key: Seq::new(KEY_COUNT as nat, |k: int| false),
        draw_flag: false,
    }
}

/// Memory with the glyph table written over its first bytes.
pub open spec fn with_glyphs(memory: Seq<u8>) -> Seq<u8> {
    Seq::new(memory.len(), |a: int| if a < GLYPH_TABLE_LEN { glyph_table()[a] } else { memory[a] })
}

/// Memory with `program` written from `PROGRAM_START` on.
pub open spec fn with_program(memory: Seq<u8>, program: Seq<u8>) -> Seq<u8> {
    Seq::new(
        memory.len(),
        |a: int|
            if PROGRAM_START <= a < PROGRAM_START + program.len() {
                program[a - PROGRAM_START]
            } else {
                memory[a]
            },
    )
}

/// The RGBA byte `k` (0 to 3) of a pixel in the frame handed to the host:
/// opaque white when lit, opaque black when not.
pub open spec fn rgba_byte(lit: bool, k: int) -> u8 {
    if k == 3 || lit {
        0xFF
    } else {
        0x00
    }
}

/// Byte `k` of pixel `p` in an RGBA frame.
pub open spec fn frame_byte(frame: Seq<u8>, p: int, k: int) -> u8 {
    frame[4 * p + k]
}

/// Number of pixels that `draw` paints into a frame of `len` bytes.
pub open spec fn painted_pixels(len: int) -> int {
    if len / 4 < DISPLAY_SIZE {
        len / 4
    } else {
        DISPLAY_SIZE as int
    }
}

impl Chip8 {
    /// A machine in its power-on state: memory, registers, timers, stack,
    /// display and keys all zero, the program counter at `PROGRAM_START`.
    pub fn initialize() -> (r: Self)
        ensures
            r@ == power_on_state(),
            r.wf(),
    {
        let r = Chip8 {
            opcode: 0,
            memory: [0u8; MEMORY_SIZE],
            v: [0u8; REGISTER_COUNT],
            i: 0,
            pc: PROGRAM_START,
            gfx: [false; DISPLAY_SIZE],
            delay_timer: 0,
            sound_timer: 0,
            stack: [0u16; STACK_DEPTH],
            sp: 0,
            key: [false; KEY_COUNT],
            draw_flag: false,
        };
        assert(r.memory@ =~= power_on_state().memory);
        assert(r.v@ =~= power_on_state().v);
        assert(r.gfx@ =~= power_on_state().gfx);
        assert(r.stack@ =~= power_on_state().stack);
        assert(r.key@ =~= power_on_state().key);
        r
    }

    /// Puts the machine back in its power-on state in place.
    pub fn reset(&mut self)
        ensures
            final(self)@ == power_on_state(),
            final(self).wf(),
    {
        *self = Chip8::initialize();
    }

    /// Counts each timer down by one, unless it is already zero. The host
    /// calls this at its own fixed rate; nothing else changes.
    pub fn tick_timers(&mut self)
        ensures
            final(self)@ == (MachineState {
                delay_timer: if old(self).delay_timer > 0 {
                    (old(self).delay_timer - 1) as u8
                } else {
                    0
                },
                sound_timer: if old(self).sound_timer > 0 {
                    (old(self).sound_timer - 1) as u8
                } else {
                    0
                },
                ..old(self)@
            }),
    {
        if self.delay_timer > 0 {
            self.delay_timer = self.delay_timer - 1;
        }
        if self.sound_timer > 0 {
            self.sound_timer = self.sound_timer - 1;
        }
    }

    /// Copies the glyph table to the start of memory; nothing else changes.
    pub fn load_fontset(&mut self)
        ensures
            final(self)@ == (MachineState { memory: with_glyphs(old(self)@.memory), ..old(self)@ }),
    {
        let fontset: [u8; GLYPH_TABLE_LEN] = [
            0xF0, 0x90, 0x90, 0x90, 0xF0,
            0x20, 0x60, 0x20, 0x20, 0x70,
            0xF0, 0x10, 0xF0, 0x80, 0xF0,
            0xF0, 0x10, 0xF0, 0x10, 0xF0,
            0x90, 0x90, 0xF0, 0x10, 0x10,
            0xF0, 0x80, 0xF0, 0x10, 0xF0,
            0xF0, 0x80, 0xF0, 0x90, 0xF0,
            0xF0, 0x10, 0x20, 0x40, 0x40,
            0xF0, 0x90, 0xF0, 0x90, 0xF0,
            0xF0, 0x90, 0xF0, 0x10, 0xF0,
            0xF0, 0x90, 0xF0, 0x90, 0x90,
            0xE0, 0x90, 0xE0, 0x90, 0xE0,
            0xF0, 0x80, 0x80, 0x80, 0xF0,
            0xE0, 0x90, 0x90, 0x90, 0xE0,
            0xF0, 0x80, 0xF0, 0x80, 0xF0,
            0xF0, 0x80, 0xF0, 0x80, 0x80,
        ];
        assert(fontset@ =~= glyph_table());
        let mut memory = self.memory;
        for a in 0..GLYPH_TABLE_LEN
            invariant
                fontset@ == glyph_table(),
                forall|b: int|
                    0 <= b < MEMORY_SIZE ==> #[trigger] memory@[b] == if b < a {
                        glyph_table()[b]
                    } else {
                        self.memory@[b]
                    },
        {
            memory[a] = fontset[a];
        }
        let ghost before = self.memory@;
        self.memory = memory;
        assert(self.memory@ =~= with_glyphs(before));
    }

    /// Copies a program image to memory from `PROGRAM_START` on. An image
    /// longer than `MAX_PROGRAM_LEN` is refused and nothing changes;
    /// otherwise only the bytes it covers change.
    pub fn load_program(&mut self, data: &[u8]) -> (r: Result<(), ProgramTooLarge>)
        ensures
            data@.len() > MAX_PROGRAM_LEN ==> r == Err::<(), ProgramTooLarge>(
                ProgramTooLarge { len: data@.len() as usize },
            ) && final(self)@ == old(self)@,
            data@.len() <= MAX_PROGRAM_LEN ==> r is Ok && final(self)@ == (MachineState {
                memory: with_program(old(self)@.memory, data@),
                ..old(self)@
            }),
    {
        let len = data.len();
        if len > MAX_PROGRAM_LEN {
            return Err(ProgramTooLarge { len });
        }
        let mut memory = self.memory;
        let mut k: usize = 0;
        while k < len
            invariant
                len == data@.len(),
                len <= MAX_PROGRAM_LEN,
                k <= len,
                forall|a: int|
                    0 <= a < MEMORY_SIZE ==> #[trigger] memory@[a] == if PROGRAM_START <= a
                        < PROGRAM_START + k {
                        data@[a - PROGRAM_START]
                    } else {
                        self.memory@[a]
                    },
            decreases len - k,
        {
            memory[PROGRAM_START as usize + k] = data[k];
            k = k + 1;
        }
        let ghost before = self.memory@;
        self.memory = memory;
        assert(self.memory@ =~= with_program(before, data@));
        Ok(())
    }

    /// Paints the display into an RGBA frame, one four-byte quad per pixel
    /// in row order: opaque white for a lit pixel, opaque black otherwise.
    /// Whole quads are painted as far as the frame and the display both
    /// reach; the bytes after them are left as they were.
    pub fn draw(&self, frame: &mut [u8])
        ensures
            final(frame)@.len() == old(frame)@.len(),
            forall|p: int, k: int|
                0 <= p < painted_pixels(old(frame)@.len() as int) && 0 <= k < 4 ==> #[trigger] frame_byte(
                    final(frame)@,
                    p,
                    k,
                ) == rgba_byte(self.gfx@[p], k),
            forall|j: int|
                4 * painted_pixels(old(frame)@.len() as int) <= j < old(frame)@.len()
                    ==> final(frame)@[j] == old(frame)@[j],
    {
        let len = frame.len();
        let count: usize = if len / 4 < DISPLAY_SIZE {
            len / 4
        } else {
            DISPLAY_SIZE
        };
        let mut p: usize = 0;
        while p < count
            invariant
                len == frame@.len(),
                len == old(frame)@.len(),
                count == painted_pixels(len as int),
                4 * count <= len,
                count <= DISPLAY_SIZE,
                p <= count,
                forall|q: int, k: int|
                    0 <= q < p && 0 <= k < 4 ==> #[trigger] frame_byte(frame@, q, k) == rgba_byte(
                        self.gfx@[q],
                        k,
                    ),
                forall|j: int| 4 * p <= j < len ==> frame@[j] == old(frame)@[j],
            decreases count - p,
        {
            let level: u8 = if self.gfx[p] {
                0xFF
            } else {
                0x00
            };
            let ghost earlier = frame@;
            frame[4 * p] = level;
            frame[4 * p + 1] = level;
            frame[4 * p + 2] = level;
            frame[4 * p + 3] = 0xFF;
            assert forall|q: int, k: int|
                0 <= q <= p && 0 <= k < 4 implies #[trigger] frame_byte(frame@, q, k) == rgba_byte(
                self.gfx@[q],
                k,
            ) by {
                if q < p {
                    assert(frame_byte(earlier, q, k) == rgba_byte(self.gfx@[q], k));
                }
            }
            p = p + 1;
        }
    }
}

} // verus!
