use vstd::prelude::*;

use crate::font::{FONT_LEN, FONT_SET, GLYPH_LEN};
use crate::instruction::{decode_spec, Instruction};

verus! {

/// Size of the machine's memory in bytes.
pub const MEMORY_SIZE: usize = 4096;

/// Address at which programs are loaded and execution starts.
pub const PROGRAM_START: u16 = 0x200;

/// Number of frame buffer cells: 64 columns by 32 rows.
pub const SCREEN_CELLS: usize = 2048;

/// Depth of the call stack.
pub const STACK_DEPTH: usize = 16;

/// The machine's state as mathematical values.
#[verifier::ext_equal]
pub ghost struct MachineState {
    pub memory: Seq<u8>,
    pub v: Seq<u8>,
    pub stack: Seq<u16>,
    pub sp: u16,
    pub pc: u16,
    pub i: u16,
    pub delay_timer: u8,
    pub sound_timer: u8,
    pub gfx: Seq<u8>,
    pub key: Seq<u8>,
    pub draw_flag: bool,
}

/// A cell of the frame buffer or of the keypad holds 0 or 1.
pub open spec fn is_bit(b: u8) -> bool {
    b == 0 || b == 1
}

impl MachineState {
    /// The invariant every reachable state keeps: the sizes of memory,
    /// registers, stack, frame buffer and keypad; a stack pointer within the
    /// stack; return addresses that can be fetched from; the font intact in
    /// the reserved area; frame buffer and keypad cells that are 0 or 1.
    pub open spec fn wf(self) -> bool {
        &&& self.memory.len() == MEMORY_SIZE
        &&& self.v.len() == 16
        &&& self.stack.len() == STACK_DEPTH
        &&& self.gfx.len() == SCREEN_CELLS
        &&& self.key.len() == 16
        &&& self.sp <= STACK_DEPTH
        &&& forall|k: int| 0 <= k < STACK_DEPTH ==> #[trigger] self.stack[k] < MEMORY_SIZE - 1
        &&& self.memory.subrange(0, FONT_LEN as int) == FONT_SET@
        &&& forall|k: int| 0 <= k < SCREEN_CELLS ==> is_bit(#[trigger] self.gfx[k])
        &&& forall|k: int| 0 <= k < 16 ==> is_bit(#[trigger] self.key[k])
    }

    /// The state of a machine that has just been built.
    pub open spec fn initial() -> MachineState {
        MachineState {
            memory: FONT_SET@ + Seq::new((MEMORY_SIZE - FONT_LEN) as nat, |k: int| 0u8),
            v: Seq::new(16, |k: int| 0u8),
            stack: Seq::new(STACK_DEPTH as nat, |k: int| 0u16),
            sp: 0,
            pc: PROGRAM_START,
            i: 0,
            delay_timer: 0,
            sound_timer: 0,
            gfx: Seq::new(SCREEN_CELLS as nat, |k: int| 0u8),
            key: Seq::new(16, |k: int| 0u8),
            draw_flag: false,
        }
    }
}

/// Largest program the memory above the reserved area holds.
pub const PROGRAM_CAPACITY: usize = 3584;

/// Why a cycle could not be executed. A cycle that fails leaves the machine
/// as it was, so a machine that failed fails again in the same way.
#[derive(Clone, Copy, Debug, PartialEq, Eq, Structural)]
pub enum Fault {
    /// A call with all sixteen stack slots in use.
    StackOverflow,
    /// A return with an empty stack.
    StackUnderflow,
    /// The program counter does not address a whole two-byte instruction.
    PcOutOfRange,
    /// A memory access through the index register leaves memory.
    MemoryOutOfRange,
    /// A store that would overwrite the built-in font.
    FontWrite,
    /// A key instruction names a key beyond `F`.
    KeyOutOfRange,
}

/// What a cycle that did not fail did.
#[derive(Clone, Copy, Debug, PartialEq, Eq, Structural)]
pub enum Step {
    /// An instruction was executed.
    Executed,
    /// The word at the program counter encodes no instruction: nothing but
    /// the timers changed.
    Unknown { opcode: u16 },
}

/// `1` for true, `0` for false.
pub open spec fn flag(b: bool) -> u8 {
    if b {
        1
    } else {
        0
    }
}

/// An integer reduced to a byte, wrapping.
pub open spec fn wrap8(n: int) -> u8 {
    (n % 256) as u8
}

/// An integer reduced to sixteen bits, wrapping.
pub open spec fn wrap16(n: int) -> u16 {
    (n % 65536) as u16
}

/// `wrap8` on the sums and differences of two bytes, case by case.
pub proof fn lemma_wrap8(n: int)
    requires
        -256 <= n < 512,
    ensures
        wrap8(n) == if n < 0 {
            n + 256
        } else if n >= 256 {
            n - 256
        } else {
            n
        },
{
}

/// `wrap16` on the sum of a 16-bit value and a byte, case by case.
pub proof fn lemma_wrap16(n: int)
    requires
        0 <= n < 65536 + 256,
    ensures
        wrap16(n) == if n >= 65536 {
            n - 65536
        } else {
            n
        },
{
}

/// Whether pixel `col` (0 is the leftmost) of a sprite row is lit.
pub open spec fn sprite_bit(row: u8, col: int) -> bool {
    row & (0x80u8 >> (col as u8)) != 0
}

/// The frame buffer cell of pixel `(col, row)` of a sprite whose corner is
/// at `(x, y)`: the row-major index, wrapped modulo the size of the buffer.
pub open spec fn pixel_index(x: u8, y: u8, col: int, row: int) -> int {
    (x + col + (y + row) * 64) % (SCREEN_CELLS as int)
}

/// The first `cols` pixels of sprite row `row` XORed onto `gfx`, in order;
/// the flag also records whether any of them turned a lit cell off.
pub open spec fn draw_row(
    gfx: Seq<u8>,
    hit: bool,
    bits: u8,
    x: u8,
    y: u8,
    row: int,
    cols: nat,
) -> (Seq<u8>, bool)
    decreases cols,
{
    if cols == 0 {
        (gfx, hit)
    } else {
        let (g, h) = draw_row(gfx, hit, bits, x, y, row, (cols - 1) as nat);
        let col = cols - 1;
        if sprite_bit(bits, col) {
            let k = pixel_index(x, y, col, row);
            (g.update(k, g[k] ^ 1u8), h || g[k] == 1)
        } else {
            (g, h)
        }
    }
}

/// The first `rows` rows of `sprite` drawn onto `gfx` at `(x, y)`.
pub open spec fn draw_rows(gfx: Seq<u8>, hit: bool, sprite: Seq<u8>, x: u8, y: u8, rows: nat) -> (
    Seq<u8>,
    bool,
)
    decreases rows,
{
    if rows == 0 {
        (gfx, hit)
    } else {
        let (g, h) = draw_rows(gfx, hit, sprite, x, y, (rows - 1) as nat);
        draw_row(g, h, sprite[rows - 1], x, y, rows - 1, 8)
    }
}

/// The index of the last pressed key among keys `0..n`.
pub open spec fn last_pressed(key: Seq<u8>, n: nat) -> Option<u8>
    decreases n,
{
    if n == 0 {
        None
    } else if key[n - 1] != 0 {
        Some((n - 1) as u8)
    } else {
        last_pressed(key, (n - 1) as nat)
    }
}

impl MachineState {
    /// The state with register `x` set to `val`.
    pub open spec fn set_reg(self, x: int, val: u8) -> MachineState {
        MachineState { v: self.v.update(x, val), ..self }
    }

    /// The state with the program counter moved on by `by` bytes.
    pub open spec fn advance(self, by: int) -> MachineState {
        MachineState { pc: (self.pc + by) as u16, ..self }
    }

    /// The state with the program counter on the next instruction.
    pub open spec fn next(self) -> MachineState {
        self.advance(2)
    }

    /// The state with the next instruction skipped when `cond` holds.
    pub open spec fn skip_if(self, cond: bool) -> MachineState {
        self.advance(if cond { 4 } else { 2 })
    }

    /// The big-endian word at the program counter.
    pub open spec fn fetch(self) -> u16 {
        (self.memory[self.pc as int] * 256 + self.memory[self.pc + 1]) as u16
    }

    /// Whether the program counter addresses a whole instruction.
    pub open spec fn pc_in_range(self) -> bool {
        self.pc as int + 1 < MEMORY_SIZE
    }

    /// Both timers moved one step towards zero.
    pub open spec fn tick_timers(self) -> MachineState {
        MachineState {
            delay_timer: if self.delay_timer > 0 {
                (self.delay_timer - 1) as u8
            } else {
                0
            },
            sound_timer: if self.sound_timer > 0 {
                (self.sound_timer - 1) as u8
            } else {
                0
            },
            ..self
        }
    }

    /// The state after copying `rom` into memory at the program start.
    pub open spec fn with_program(self, rom: Seq<u8>) -> MachineState {
        MachineState {
            memory: self.memory.subrange(0, PROGRAM_START as int) + rom + self.memory.subrange(
                PROGRAM_START + rom.len(),
                MEMORY_SIZE as int,
            ),
            ..self
        }
    }
}

/// Flow of control: clear, return, jumps, calls and skips.
pub open spec fn execute_flow(s: MachineState, ins: Instruction) -> Result<MachineState, Fault> {
    match ins {
        Instruction::ClearScreen => Ok(
            MachineState {
                gfx: Seq::new(SCREEN_CELLS as nat, |k: int| 0u8),
                draw_flag: true,
                ..s
            }.next(),
        ),
        Instruction::Return => if s.sp == 0 {
            Err(Fault::StackUnderflow)
        } else {
            let sp = (s.sp - 1) as u16;
            Ok(MachineState { sp, pc: s.stack[sp as int], ..s }.next())
        },
        Instruction::Jump { addr } => Ok(MachineState { pc: addr, ..s }),
        Instruction::Call { addr } => if s.sp >= STACK_DEPTH {
            Err(Fault::StackOverflow)
        } else {
            Ok(
                MachineState {
                    stack: s.stack.update(s.sp as int, s.pc),
                    sp: (s.sp + 1) as u16,
                    pc: addr,
                    ..s
                },
            )
        },
        Instruction::SkipIfEqual { x, nn } => Ok(s.skip_if(s.v[x as int] == nn)),
        Instruction::SkipIfNotEqual { x, nn } => Ok(s.skip_if(s.v[x as int] != nn)),
        Instruction::SkipIfRegsEqual { x, y } => Ok(s.skip_if(s.v[x as int] == s.v[y as int])),
        Instruction::SkipIfRegsNotEqual { x, y } => Ok(
            s.skip_if(s.v[x as int] != s.v[y as int]),
        ),
        Instruction::JumpOffset { addr } => Ok(MachineState { pc: (addr + s.v[0]) as u16, ..s }),
        Instruction::SkipIfKey { x } => if s.v[x as int] >= 16 {
            Err(Fault::KeyOutOfRange)
        } else {
            Ok(s.skip_if(s.key[s.v[x as int] as int] != 0))
        },
        Instruction::SkipIfNotKey { x } => if s.v[x as int] >= 16 {
            Err(Fault::KeyOutOfRange)
        } else {
            Ok(s.skip_if(s.key[s.v[x as int] as int] == 0))
        },
        _ => Ok(s),
    }
}

/// Register arithmetic. Every operand is read before the instruction writes
/// anything, and the flag `VF` is written after `Vx`: with `x` = `F` the
/// flag is what remains.
pub open spec fn execute_alu(s: MachineState, ins: Instruction, rnd: u8) -> MachineState {
    match ins {
        Instruction::SetImmediate { x, nn } => s.set_reg(x as int, nn).next(),
        Instruction::AddImmediate { x, nn } => s.set_reg(x as int, wrap8(s.v[x as int] + nn)).next(),
        Instruction::Copy { x, y } => s.set_reg(x as int, s.v[y as int]).next(),
        Instruction::Or { x, y } => s.set_reg(x as int, s.v[x as int] | s.v[y as int]).next(),
        Instruction::And { x, y } => s.set_reg(x as int, s.v[x as int] & s.v[y as int]).next(),
        Instruction::Xor { x, y } => s.set_reg(x as int, s.v[x as int] ^ s.v[y as int]).next(),
        Instruction::AddRegs { x, y } => {
            let sum = s.v[x as int] + s.v[y as int];
            s.set_reg(x as int, wrap8(sum)).set_reg(0xF, flag(sum > 255)).next()
        },
        Instruction::Sub { x, y } => {
            let (a, b) = (s.v[x as int], s.v[y as int]);
            s.set_reg(x as int, wrap8(a - b)).set_reg(0xF, flag(a >= b)).next()
        },
        Instruction::ShiftRight { x } => {
            let a = s.v[x as int];
            s.set_reg(x as int, a >> 1u8).set_reg(0xF, a & 1u8).next()
        },
        Instruction::SubReversed { x, y } => {
            let (a, b) = (s.v[x as int], s.v[y as int]);
            s.set_reg(x as int, wrap8(b - a)).set_reg(0xF, flag(b >= a)).next()
        },
        Instruction::ShiftLeft { x } => {
            let a = s.v[x as int];
            s.set_reg(x as int, a << 1u8).set_reg(0xF, a >> 7u8).next()
        },
        Instruction::Random { x, nn } => s.set_reg(x as int, rnd & nn).next(),
        _ => s,
    }
}

/// Index register, timers, keypad wait and memory transfers.
pub open spec fn execute_misc(s: MachineState, ins: Instruction) -> Result<MachineState, Fault> {
    match ins {
        Instruction::SetIndex { addr } => Ok(MachineState { i: addr, ..s }.next()),
        Instruction::Draw { x, y, n } => if n > 0 && s.i + n > MEMORY_SIZE {
            Err(Fault::MemoryOutOfRange)
        } else {
            let sprite = s.memory.subrange(s.i as int, s.i + n);
            let (gfx, hit) = draw_rows(s.gfx, false, sprite, s.v[x as int], s.v[y as int], n as nat);
            Ok(MachineState { gfx, draw_flag: true, ..s.set_reg(0xF, flag(hit)) }.next())
        },
        Instruction::ReadDelay { x } => Ok(s.set_reg(x as int, s.delay_timer).next()),
        Instruction::WaitKey { x } => match last_pressed(s.key, 16) {
            Some(k) => Ok(s.set_reg(x as int, k).next()),
            None => Ok(s),
        },
        Instruction::SetDelay { x } => Ok(MachineState { delay_timer: s.v[x as int], ..s }.next()),
        Instruction::SetSound { x } => Ok(MachineState { sound_timer: s.v[x as int], ..s }.next()),
        Instruction::AddIndex { x } => {
            let sum = wrap16(s.i + s.v[x as int]);
            Ok(MachineState { i: sum, ..s.set_reg(0xF, flag(sum > 0xFFF)) }.next())
        },
        Instruction::FontChar { x } => Ok(
            MachineState { i: (s.v[x as int] * GLYPH_LEN) as u16, ..s }.next(),
        ),
        Instruction::StoreBcd { x } => if s.i + 3 > MEMORY_SIZE {
            Err(Fault::MemoryOutOfRange)
        } else if s.i < FONT_LEN {
            Err(Fault::FontWrite)
        } else {
            let val = s.v[x as int];
            let memory = s.memory.update(s.i as int, val / 100).update(
                s.i + 1,
                (val / 10) % 10,
            ).update(s.i + 2, val % 10);
            Ok(MachineState { memory, ..s }.next())
        },
        Instruction::StoreRegs { x } => if x > 0 && s.i + x > MEMORY_SIZE {
            Err(Fault::MemoryOutOfRange)
        } else if x > 0 && s.i < FONT_LEN {
            Err(Fault::FontWrite)
        } else {
            let memory = Seq::new(
                MEMORY_SIZE as nat,
                |k: int|
                    if s.i <= k < s.i + x {
                        s.v[k - s.i]
                    } else {
                        s.memory[k]
                    },
            );
            Ok(MachineState { memory, i: wrap16(s.i + x + 1), ..s }.next())
        },
        Instruction::LoadRegs { x } => if s.i + x + 1 > MEMORY_SIZE {
            Err(Fault::MemoryOutOfRange)
        } else {
            let v = Seq::new(
                16,
                |r: int|
                    if r <= x {
                        s.memory[s.i + r]
                    } else {
                        s.v[r]
                    },
            );
            Ok(MachineState { v, i: wrap16(s.i + x + 1), ..s }.next())
        },
        _ => Ok(s),
    }
}

/// Which part of the semantics an instruction belongs to.
pub open spec fn is_flow(ins: Instruction) -> bool {
    match ins {
        Instruction::ClearScreen
        | Instruction::Return
        | Instruction::Jump { .. }
        | Instruction::Call { .. }
        | Instruction::SkipIfEqual { .. }
        | Instruction::SkipIfNotEqual { .. }
        | Instruction::SkipIfRegsEqual { .. }
        | Instruction::SkipIfRegsNotEqual { .. }
        | Instruction::JumpOffset { .. }
        | Instruction::SkipIfKey { .. }
        | Instruction::SkipIfNotKey { .. } => true,
        _ => false,
    }
}

/// Whether an instruction only computes on registers.
pub open spec fn is_alu(ins: Instruction) -> bool {
    match ins {
        Instruction::SetImmediate { .. }
        | Instruction::AddImmediate { .. }
        | Instruction::Copy { .. }
        | Instruction::Or { .. }
        | Instruction::And { .. }
        | Instruction::Xor { .. }
        | Instruction::AddRegs { .. }
        | Instruction::Sub { .. }
        | Instruction::ShiftRight { .. }
        | Instruction::SubReversed { .. }
        | Instruction::ShiftLeft { .. }
        | Instruction::Random { .. } => true,
        _ => false,
    }
}

/// The effect of one instruction, before the timers tick. `rnd` is the
/// random byte that `Cxnn` masks. An unknown instruction changes nothing.
pub open spec fn execute_spec(s: MachineState, ins: Instruction, rnd: u8) -> Result<
    MachineState,
    Fault,
> {
    if is_flow(ins) {
        execute_flow(s, ins)
    } else if is_alu(ins) {
        Ok(execute_alu(s, ins, rnd))
    } else {
        execute_misc(s, ins)
    }
}

/// One whole cycle: fetch, decode, execute, then tick the timers. A fault
/// leaves the state as it was.
pub open spec fn cycle_spec(s: MachineState, rnd: u8) -> Result<(MachineState, Step), Fault> {
    if !s.pc_in_range() {
        Err(Fault::PcOutOfRange)
    } else {
        let op = s.fetch();
        let ins = decode_spec(op);
        match execute_spec(s, ins, rnd) {
            Err(e) => Err(e),
            Ok(t) => Ok(
                (
                    t.tick_timers(),
                    if ins == Instruction::Unknown {
                        Step::Unknown { opcode: op }
                    } else {
                        Step::Executed
                    },
                ),
            ),
        }
    }
}

/// Whether `r` and `t` are the result and the state after one cycle from
/// `s` with random byte `rnd`.
pub open spec fn cycle_outcome(s: MachineState, rnd: u8, r: Result<Step, Fault>, t: MachineState) -> bool {
    match cycle_spec(s, rnd) {
        Ok((u, step)) => r == Ok::<Step, Fault>(step) && t == u,
        Err(e) => r == Err::<Step, Fault>(e) && t == s,
    }
}

} // verus!
