use vstd::prelude::*;

use crate::font::{FONT_LEN, FONT_SET, GLYPH_LEN};
use crate::instruction::{decode, Instruction};
use crate::state::{
    cycle_outcome, execute_spec, Step, PROGRAM_CAPACITY,
    draw_row, draw_rows, execute_misc, flag, is_bit, last_pressed, lemma_wrap16, lemma_wrap8,
    execute_alu, execute_flow, is_alu, is_flow, Fault, MachineState, MEMORY_SIZE, PROGRAM_START, SCREEN_CELLS,
    STACK_DEPTH,
};

verus! {

/// A CHIP-8 machine.
pub struct Chip8 {
    stack: [u16; 16],
    sp: u16,
    memory: [u8; 4096],
    v: [u8; 16],
    pc: u16,
    i: u16,
    delay_timer: u8,
    sound_timer: u8,
    gfx: [u8; 2048],
    key: [u8; 16],
    draw_flag: bool,
}

impl View for Chip8 {
    type V = MachineState;

    closed spec fn view(&self) -> MachineState {
        MachineState {
            memory: self.memory@,
            v: self.v@,
            stack: self.stack@,
            sp: self.sp,
            pc: self.pc,
            i: self.i,
            delay_timer: self.delay_timer,
            sound_timer: self.sound_timer,
            gfx: self.gfx@,
            key: self.key@,
            draw_flag: self.draw_flag,
        }
    }
}

impl Chip8 {
    /// A machine with the font at address 0, every other byte, register,
    /// timer, cell and key zero, and the program counter at the start of
    /// the program area.
    pub fn new() -> (r: Chip8)
        ensures
            r@ == MachineState::initial(),
            r@.wf(),
    {
        let mut chip = Chip8 {
            stack: [0; 16],
            sp: 0,
            memory: [0; 4096],
            v: [0; 16],
            pc: PROGRAM_START,
            i: 0,
            delay_timer: 0,
            sound_timer: 0,
            gfx: [0; 2048],
            key: [0; 16],
            draw_flag: false,
        };
        let mut k: usize = 0;
        while k < FONT_LEN
            invariant
                k <= FONT_LEN,
                chip.memory@.len() == MEMORY_SIZE,
                forall|j: int| 0 <= j < k ==> chip.memory@[j] == FONT_SET@[j],
                forall|j: int| k <= j < MEMORY_SIZE ==> chip.memory@[j] == 0,
                chip.stack@ == Seq::new(STACK_DEPTH as nat, |j: int| 0u16),
                chip.v@ == Seq::new(16, |j: int| 0u8),
                chip.gfx@ == Seq::new(SCREEN_CELLS as nat, |j: int| 0u8),
                chip.key@ == Seq::new(16, |j: int| 0u8),
                chip.sp == 0,
                chip.pc == PROGRAM_START,
                chip.i == 0,
                chip.delay_timer == 0,
                chip.sound_timer == 0,
                !chip.draw_flag,
            decreases FONT_LEN - k,
        {
            chip.memory[k] = FONT_SET[k];
            k = k + 1;
        }
        assert(chip@ =~= MachineState::initial());
        assert(chip@.memory.subrange(0, FONT_LEN as int) =~= FONT_SET@);
        chip
    }
    /// Executes a control-flow instruction.
    fn exec_flow(&mut self, ins: Instruction) -> (r: Result<(), Fault>)
        requires
            old(self)@.wf(),
            old(self)@.pc_in_range(),
            ins.wf(),
            is_flow(ins),
        ensures
            final(self)@.wf(),
            match execute_flow(old(self)@, ins) {
                Ok(t) => r is Ok && final(self)@ == t,
                Err(e) => r == Err::<(), Fault>(e) && final(self)@ == old(self)@,
            },
    {
        let ghost s = self@;
        match ins {
            Instruction::ClearScreen => {
                self.gfx = [0; 2048];
                self.draw_flag = true;
                self.pc = self.pc + 2;
                assert(self@.gfx =~= Seq::new(SCREEN_CELLS as nat, |k: int| 0u8));
            },
            Instruction::Return => {
                if self.sp == 0 {
                    return Err(Fault::StackUnderflow);
                }
                self.sp = self.sp - 1;
                self.pc = self.stack[self.sp as usize] + 2;
            },
            Instruction::Jump { addr } => {
                self.pc = addr;
            },
            Instruction::Call { addr } => {
                if self.sp as usize >= STACK_DEPTH {
                    return Err(Fault::StackOverflow);
                }
                self.stack[self.sp as usize] = self.pc;
                self.sp = self.sp + 1;
                self.pc = addr;
            },
            Instruction::SkipIfEqual { x, nn } => {
                self.pc = if self.v[x as usize] == nn { self.pc + 4 } else { self.pc + 2 };
            },
            Instruction::SkipIfNotEqual { x, nn } => {
                self.pc = if self.v[x as usize] != nn { self.pc + 4 } else { self.pc + 2 };
            },
            Instruction::SkipIfRegsEqual { x, y } => {
                self.pc = if self.v[x as usize] == self.v[y as usize] {
                    self.pc + 4
                } else {
                    self.pc + 2
                };
            },
            Instruction::SkipIfRegsNotEqual { x, y } => {
                self.pc = if self.v[x as usize] != self.v[y as usize] {
                    self.pc + 4
                } else {
                    self.pc + 2
                };
            },
            Instruction::JumpOffset { addr } => {
                self.pc = addr + self.v[0] as u16;
            },
            Instruction::SkipIfKey { x } => {
                let k = self.v[x as usize];
                if k >= 16 {
                    return Err(Fault::KeyOutOfRange);
                }
                self.pc = if self.key[k as usize] != 0 { self.pc + 4 } else { self.pc + 2 };
            },
            Instruction::SkipIfNotKey { x } => {
                let k = self.v[x as usize];
                if k >= 16 {
                    return Err(Fault::KeyOutOfRange);
                }
                self.pc = if self.key[k as usize] == 0 { self.pc + 4 } else { self.pc + 2 };
            },
            _ => {},
        }
        assert(self@ =~= execute_flow(s, ins).unwrap());
        Ok(())
    }
    /// Executes an instruction that only computes on registers.
    fn exec_alu(&mut self, ins: Instruction, rnd: u8)
        requires
            old(self)@.wf(),
            old(self)@.pc_in_range(),
            ins.wf(),
            is_alu(ins),
        ensures
            final(self)@.wf(),
            final(self)@ == execute_alu(old(self)@, ins, rnd),
    {
        let ghost s = self@;
        self.pc = self.pc + 2;
        match ins {
            Instruction::SetImmediate { x, nn } => {
                self.v[x as usize] = nn;
                assert(self@ =~= execute_alu(s, ins, rnd));
            },
            Instruction::AddImmediate { x, nn } => {
                proof {
                    lemma_wrap8(self.v[x as int] + nn);
                }
                self.v[x as usize] = self.v[x as usize].wrapping_add(nn);
                assert(self@ =~= execute_alu(s, ins, rnd));
            },
            Instruction::Copy { x, y } => {
                self.v[x as usize] = self.v[y as usize];
                assert(self@ =~= execute_alu(s, ins, rnd));
            },
            Instruction::Or { x, y } => {
                self.v[x as usize] = self.v[x as usize] | self.v[y as usize];
                assert(self@ =~= execute_alu(s, ins, rnd));
            },
            Instruction::And { x, y } => {
                self.v[x as usize] = self.v[x as usize] & self.v[y as usize];
                assert(self@ =~= execute_alu(s, ins, rnd));
            },
            Instruction::Xor { x, y } => {
                self.v[x as usize] = self.v[x as usize] ^ self.v[y as usize];
                assert(self@ =~= execute_alu(s, ins, rnd));
            },
            Instruction::Random { x, nn } => {
                self.v[x as usize] = rnd & nn;
                assert(self@ =~= execute_alu(s, ins, rnd));
            },
            Instruction::AddRegs { x, y } => {
                let sum = self.v[x as usize] as u16 + self.v[y as usize] as u16;
                proof {
                    lemma_wrap8(sum as int);
                }
                self.v[x as usize] = (sum % 256) as u8;
                self.v[0xF] = if sum > 255 { 1 } else { 0 };
                assert(self@ =~= execute_alu(s, ins, rnd));
            },
            Instruction::Sub { x, y } => {
                let (a, b) = (self.v[x as usize], self.v[y as usize]);
                proof {
                    lemma_wrap8(a - b);
                }
                self.v[x as usize] = a.wrapping_sub(b);
                self.v[0xF] = if a >= b { 1 } else { 0 };
                assert(self@ =~= execute_alu(s, ins, rnd));
            },
            Instruction::SubReversed { x, y } => {
                let (a, b) = (self.v[x as usize], self.v[y as usize]);
                proof {
                    lemma_wrap8(b - a);
                }
                self.v[x as usize] = b.wrapping_sub(a);
                self.v[0xF] = if b >= a { 1 } else { 0 };
                assert(self@ =~= execute_alu(s, ins, rnd));
            },
            Instruction::ShiftRight { x } => {
                let a = self.v[x as usize];
                self.v[x as usize] = a >> 1u8;
                self.v[0xF] = a & 1;
                assert(self@ =~= execute_alu(s, ins, rnd));
            },
            Instruction::ShiftLeft { x } => {
                let a = self.v[x as usize];
                self.v[x as usize] = a << 1u8;
                self.v[0xF] = a >> 7u8;
                assert(self@ =~= execute_alu(s, ins, rnd));
            },
            _ => {},
        }
    }

    /// Executes an instruction on the index register, the timers, the
    /// keypad, the frame buffer or memory.
    fn exec_misc(&mut self, ins: Instruction) -> (r: Result<(), Fault>)
        requires
            old(self)@.wf(),
            old(self)@.pc_in_range(),
            ins.wf(),
            !is_flow(ins),
            !is_alu(ins),
        ensures
            final(self)@.wf(),
            match execute_misc(old(self)@, ins) {
                Ok(t) => r is Ok && final(self)@ == t,
                Err(e) => r == Err::<(), Fault>(e) && final(self)@ == old(self)@,
            },
    {
        let ghost s = self@;
        match ins {
            Instruction::Draw { x, y, n } => {
                return self.exec_draw(x, y, n);
            },
            Instruction::WaitKey { x } => {
                self.exec_wait_key(x);
                return Ok(());
            },
            Instruction::StoreBcd { x } => {
                return self.exec_store_bcd(x);
            },
            Instruction::StoreRegs { x } => {
                return self.exec_store_regs(x);
            },
            Instruction::LoadRegs { x } => {
                return self.exec_load_regs(x);
            },
            Instruction::SetIndex { addr } => {
                self.i = addr;
                self.pc = self.pc + 2;
            },
            Instruction::ReadDelay { x } => {
                self.v[x as usize] = self.delay_timer;
                self.pc = self.pc + 2;
            },
            Instruction::SetDelay { x } => {
                self.delay_timer = self.v[x as usize];
                self.pc = self.pc + 2;
            },
            Instruction::SetSound { x } => {
                self.sound_timer = self.v[x as usize];
                self.pc = self.pc + 2;
            },
            Instruction::AddIndex { x } => {
                proof {
                    lemma_wrap16(self.i + self.v[x as int]);
                }
                let sum = self.i.wrapping_add(self.v[x as usize] as u16);
                self.v[0xF] = if sum > 0xFFF { 1 } else { 0 };
                self.i = sum;
                self.pc = self.pc + 2;
            },
            Instruction::FontChar { x } => {
                self.i = self.v[x as usize] as u16 * GLYPH_LEN;
                self.pc = self.pc + 2;
            },
            _ => {},
        }
        assert(self@ =~= execute_misc(s, ins).unwrap());
        Ok(())
    }

    /// `Dxyn`: XORs the `n`-row sprite at the index register onto the frame
    /// buffer at `(Vx, Vy)`.
    fn exec_draw(&mut self, x: u8, y: u8, n: u8) -> (r: Result<(), Fault>)
        requires
            old(self)@.wf(),
            old(self)@.pc_in_range(),
            x < 16,
            y < 16,
            n < 16,
        ensures
            final(self)@.wf(),
            match execute_misc(old(self)@, Instruction::Draw { x, y, n }) {
                Ok(t) => r is Ok && final(self)@ == t,
                Err(e) => r == Err::<(), Fault>(e) && final(self)@ == old(self)@,
            },
    {
        if n > 0 && self.i as usize + n as usize > MEMORY_SIZE {
            return Err(Fault::MemoryOutOfRange);
        }
        let ghost s = self@;
        let ghost sprite = s.memory.subrange(s.i as int, s.i + n);
        let cx = self.v[x as usize];
        let cy = self.v[y as usize];
        let mut gfx = self.gfx;
        let mut hit = false;
        let mut row: u8 = 0;
        while row < n
            invariant
                row <= n,
                n < 16,
                n > 0 ==> s.i + n <= MEMORY_SIZE,
                self@ == s,
                sprite == s.memory.subrange(s.i as int, s.i + n),
                cx == s.v[x as int],
                cy == s.v[y as int],
                (gfx@, hit) == draw_rows(s.gfx, false, sprite, cx, cy, row as nat),
                forall|k: int| 0 <= k < SCREEN_CELLS ==> is_bit(#[trigger] gfx@[k]),
            decreases n - row,
        {
            let bits = self.memory[self.i as usize + row as usize];
            let ghost g0 = gfx@;
            let ghost h0 = hit;
            let mut col: u8 = 0;
            while col < 8
                invariant
                    col <= 8,
                    row < n,
                    (gfx@, hit) == draw_row(g0, h0, bits, cx, cy, row as int, col as nat),
                    forall|k: int| 0 <= k < SCREEN_CELLS ==> is_bit(#[trigger] gfx@[k]),
                decreases 8 - col,
            {
                if bits & (0x80u8 >> col) != 0 {
                    let k = (cx as usize + col as usize + (cy as usize + row as usize) * 64)
                        % SCREEN_CELLS;
                    if gfx[k] == 1 {
                        hit = true;
                    }
                    proof {
                        lemma_toggle_bit(gfx@[k as int]);
                    }
                    gfx[k] = gfx[k] ^ 1;
                }
                col = col + 1;
            }
            row = row + 1;
        }
        self.v[0xF] = if hit { 1 } else { 0 };
        self.gfx = gfx;
        self.draw_flag = true;
        self.pc = self.pc + 2;
        assert(self@ =~= execute_misc(s, Instruction::Draw { x, y, n }).unwrap());
        Ok(())
    }

    /// `Fx0A`: puts the last pressed key in `Vx` and moves on, or stays on
    /// this instruction while no key is pressed.
    fn exec_wait_key(&mut self, x: u8)
        requires
            old(self)@.wf(),
            old(self)@.pc_in_range(),
            x < 16,
        ensures
            final(self)@.wf(),
            final(self)@ == execute_misc(old(self)@, Instruction::WaitKey { x }).unwrap(),
    {
        let ghost s = self@;
        let mut found: Option<u8> = None;
        let mut k: usize = 0;
        while k < 16
            invariant
                k <= 16,
                self@ == s,
                found == last_pressed(s.key, k as nat),
            decreases 16 - k,
        {
            if self.key[k] != 0 {
                found = Some(k as u8);
            }
            k = k + 1;
        }
        if let Some(pressed) = found {
            self.v[x as usize] = pressed;
            self.pc = self.pc + 2;
        }
        assert(self@ =~= execute_misc(s, Instruction::WaitKey { x }).unwrap());
    }

    /// `Fx33`: the hundreds, tens and ones of `Vx` at the index register.
    fn exec_store_bcd(&mut self, x: u8) -> (r: Result<(), Fault>)
        requires
            old(self)@.wf(),
            old(self)@.pc_in_range(),
            x < 16,
        ensures
            final(self)@.wf(),
            match execute_misc(old(self)@, Instruction::StoreBcd { x }) {
                Ok(t) => r is Ok && final(self)@ == t,
                Err(e) => r == Err::<(), Fault>(e) && final(self)@ == old(self)@,
            },
    {
        let ghost s = self@;
        let at = self.i as usize;
        if at + 3 > MEMORY_SIZE {
            return Err(Fault::MemoryOutOfRange);
        }
        if at < FONT_LEN {
            return Err(Fault::FontWrite);
        }
        let val = self.v[x as usize];
        self.memory[at] = val / 100;
        self.memory[at + 1] = (val / 10) % 10;
        self.memory[at + 2] = val % 10;
        self.pc = self.pc + 2;
        assert(self@.memory.subrange(0, FONT_LEN as int) =~= s.memory.subrange(0, FONT_LEN as int));
        assert(self@ =~= execute_misc(s, Instruction::StoreBcd { x }).unwrap());
        Ok(())
    }

    /// `Fx55`: `V0`..`V(x-1)` to memory at the index register, then the
    /// index moves on by `x + 1`.
    fn exec_store_regs(&mut self, x: u8) -> (r: Result<(), Fault>)
        requires
            old(self)@.wf(),
            old(self)@.pc_in_range(),
            x < 16,
        ensures
            final(self)@.wf(),
            match execute_misc(old(self)@, Instruction::StoreRegs { x }) {
                Ok(t) => r is Ok && final(self)@ == t,
                Err(e) => r == Err::<(), Fault>(e) && final(self)@ == old(self)@,
            },
    {
        let ghost s = self@;
        let at = self.i as usize;
        if x > 0 && at + x as usize > MEMORY_SIZE {
            return Err(Fault::MemoryOutOfRange);
        }
        if x > 0 && at < FONT_LEN {
            return Err(Fault::FontWrite);
        }
        let mut memory = self.memory;
        let mut k: u8 = 0;
        while k < x
            invariant
                k <= x,
                x < 16,
                x > 0 ==> at + x <= MEMORY_SIZE && at >= FONT_LEN,
                at == s.i,
                self@ == s,
                forall|j: int|
                    0 <= j < MEMORY_SIZE ==> #[trigger] memory@[j] == if at <= j < at + k {
                        s.v[j - at]
                    } else {
                        s.memory[j]
                    },
            decreases x - k,
        {
            memory[at + k as usize] = self.v[k as usize];
            k = k + 1;
        }
        self.memory = memory;
        proof {
            lemma_wrap16(self.i + x + 1);
        }
        self.i = self.i.wrapping_add(x as u16 + 1);
        self.pc = self.pc + 2;
        let ghost t = execute_misc(s, Instruction::StoreRegs { x }).unwrap();
        assert(self@.memory =~= t.memory);
        assert(self@.memory.subrange(0, FONT_LEN as int) =~= s.memory.subrange(0, FONT_LEN as int));
        assert(self@ =~= t);
        Ok(())
    }

    /// `Fx65`: `V0`..`Vx` from memory at the index register, then the index
    /// moves on by `x + 1`.
    fn exec_load_regs(&mut self, x: u8) -> (r: Result<(), Fault>)
        requires
            old(self)@.wf(),
            old(self)@.pc_in_range(),
            x < 16,
        ensures
            final(self)@.wf(),
            match execute_misc(old(self)@, Instruction::LoadRegs { x }) {
                Ok(t) => r is Ok && final(self)@ == t,
                Err(e) => r == Err::<(), Fault>(e) && final(self)@ == old(self)@,
            },
    {
        let ghost s = self@;
        let at = self.i as usize;
        if at + x as usize + 1 > MEMORY_SIZE {
            return Err(Fault::MemoryOutOfRange);
        }
        let mut v = self.v;
        let mut k: u8 = 0;
        while k <= x
            invariant
                k <= x + 1,
                x < 16,
                at + x + 1 <= MEMORY_SIZE,
                at == s.i,
                self@ == s,
                forall|r: int|
                    0 <= r < 16 ==> #[trigger] v@[r] == if r < k {
                        s.memory[at + r]
                    } else {
                        s.v[r]
                    },
            decreases x + 1 - k,
        {
            v[k as usize] = self.memory[at + k as usize];
            k = k + 1;
        }
        self.v = v;
        proof {
            lemma_wrap16(self.i + x + 1);
        }
        self.i = self.i.wrapping_add(x as u16 + 1);
        self.pc = self.pc + 2;
        let ghost t = execute_misc(s, Instruction::LoadRegs { x }).unwrap();
        assert(self@.v =~= t.v);
        assert(self@ =~= t);
        Ok(())
    }
    /// Copies a program into memory at the program start. A program longer
    /// than the memory above the reserved area is refused, and the machine
    /// is left as it was.
    pub fn load(&mut self, rom: &[u8]) -> (r: Result<(), LoadError>)
        requires
            old(self)@.wf(),
        ensures
            final(self)@.wf(),
            rom@.len() <= PROGRAM_CAPACITY ==> r is Ok && final(self)@ == old(self)@.with_program(
                rom@,
            ),
            rom@.len() > PROGRAM_CAPACITY ==> r == Err::<(), LoadError>(
                LoadError::RomTooLarge { len: rom@.len() as usize, capacity: PROGRAM_CAPACITY },
            ) && final(self)@ == old(self)@,
    {
        let len = rom.len();
        if len > PROGRAM_CAPACITY {
            return Err(LoadError::RomTooLarge { len, capacity: PROGRAM_CAPACITY });
        }
        let ghost s = self@;
        let start = PROGRAM_START as usize;
        let mut memory = self.memory;
        let mut k: usize = 0;
        while k < len
            invariant
                k <= len,
                len == rom@.len(),
                len <= PROGRAM_CAPACITY,
                start == PROGRAM_START,
                self@ == s,
                forall|j: int|
                    0 <= j < MEMORY_SIZE ==> #[trigger] memory@[j] == if start <= j < start + k {
                        rom@[j - start]
                    } else {
                        s.memory[j]
                    },
            decreases len - k,
        {
            memory[start + k] = rom[k];
            k = k + 1;
        }
        self.memory = memory;
        let ghost t = s.with_program(rom@);
        assert(self@.memory =~= t.memory);
        assert(self@.memory.subrange(0, FONT_LEN as int) =~= s.memory.subrange(0, FONT_LEN as int));
        assert(self@ =~= t);
        Ok(())
    }

    /// Presses (`true`) or releases (`false`) key `index` of the keypad.
    pub fn set_key(&mut self, index: usize, pressed: bool)
        requires
            old(self)@.wf(),
            index < 16,
        ensures
            final(self)@.wf(),
            final(self)@ == (MachineState { key: old(self)@.key.update(index as int, flag(pressed)), ..old(self)@ }),
    {
        self.key[index] = if pressed { 1 } else { 0 };
        assert(self@ =~= (MachineState { key: old(self)@.key.update(index as int, flag(pressed)), ..old(self)@ }));
    }

    /// The 64 by 32 frame buffer, row by row, one cell per pixel.
    pub fn framebuffer(&self) -> (r: &[u8; 2048])
        ensures
            r@ == self@.gfx,
    {
        &self.gfx
    }

    /// Whether the frame buffer changed since the redraw flag was last
    /// consumed.
    pub fn draw_flag(&self) -> (r: bool)
        ensures
            r == self@.draw_flag,
    {
        self.draw_flag
    }

    /// Returns the redraw flag and clears it.
    pub fn consume_redraw(&mut self) -> (r: bool)
        requires
            old(self)@.wf(),
        ensures
            final(self)@.wf(),
            r == old(self)@.draw_flag,
            final(self)@ == (MachineState { draw_flag: false, ..old(self)@ }),
    {
        let r = self.draw_flag;
        self.draw_flag = false;
        assert(self@ =~= (MachineState { draw_flag: false, ..old(self)@ }));
        r
    }

    /// Register `Vx`.
    pub fn register(&self, x: usize) -> (r: u8)
        requires
            x < 16,
        ensures
            r == self@.v[x as int],
    {
        self.v[x]
    }

    /// The program counter.
    pub fn program_counter(&self) -> (r: u16)
        ensures
            r == self@.pc,
    {
        self.pc
    }

    /// The index register.
    pub fn index_register(&self) -> (r: u16)
        ensures
            r == self@.i,
    {
        self.i
    }

    /// The number of return addresses on the stack.
    pub fn stack_pointer(&self) -> (r: u16)
        ensures
            r == self@.sp,
    {
        self.sp
    }

    /// The delay timer.
    pub fn delay_timer(&self) -> (r: u8)
        ensures
            r == self@.delay_timer,
    {
        self.delay_timer
    }

    /// The sound timer.
    pub fn sound_timer(&self) -> (r: u8)
        ensures
            r == self@.sound_timer,
    {
        self.sound_timer
    }

    /// The byte at `addr`.
    pub fn memory_byte(&self, addr: usize) -> (r: u8)
        requires
            addr < MEMORY_SIZE,
        ensures
            r == self@.memory[addr as int],
    {
        self.memory[addr]
    }

    /// Whether key `index` is pressed.
    pub fn key_pressed(&self, index: usize) -> (r: bool)
        requires
            index < 16,
        ensures
            r == (self@.key[index as int] != 0),
    {
        self.key[index] != 0
    }

    /// Executes one instruction, before the timers tick.
    fn execute(&mut self, ins: Instruction, rnd: u8) -> (r: Result<(), Fault>)
        requires
            old(self)@.wf(),
            old(self)@.pc_in_range(),
            ins.wf(),
        ensures
            final(self)@.wf(),
            match execute_spec(old(self)@, ins, rnd) {
                Ok(t) => r is Ok && final(self)@ == t,
                Err(e) => r == Err::<(), Fault>(e) && final(self)@ == old(self)@,
            },
    {
        if is_flow_ins(&ins) {
            self.exec_flow(ins)
        } else if is_alu_ins(&ins) {
            self.exec_alu(ins, rnd);
            Ok(())
        } else {
            self.exec_misc(ins)
        }
    }

    /// Runs one cycle with `rnd` as the random byte that `Cxnn` masks:
    /// fetches the word at the program counter, executes the instruction it
    /// encodes, then moves each timer one step towards zero. On a fault
    /// nothing changes.
    pub fn emulate_cycle_with(&mut self, rnd: u8) -> (r: Result<Step, Fault>)
        requires
            old(self)@.wf(),
        ensures
            final(self)@.wf(),
            cycle_outcome(old(self)@, rnd, r, final(self)@),
    {
        let pc = self.pc as usize;
        if pc + 1 >= MEMORY_SIZE {
            return Err(Fault::PcOutOfRange);
        }
        let op = self.memory[pc] as u16 * 256 + self.memory[pc + 1] as u16;
        let ins = decode(op);
        if let Err(e) = self.execute(ins, rnd) {
            return Err(e);
        }
        if self.delay_timer > 0 {
            self.delay_timer = self.delay_timer - 1;
        }
        if self.sound_timer > 0 {
            self.sound_timer = self.sound_timer - 1;
        }
        if let Instruction::Unknown = ins {
            Ok(Step::Unknown { opcode: op })
        } else {
            Ok(Step::Executed)
        }
    }

    /// Runs one cycle, drawing the random byte that `Cxnn` masks from the
    /// thread's random number generator.
    pub fn emulate_cycle(&mut self) -> (r: Result<Step, Fault>)
        requires
            old(self)@.wf(),
        ensures
            final(self)@.wf(),
            exists|rnd: u8| cycle_outcome(old(self)@, rnd, r, final(self)@),
    {
        let rnd = random_byte();
        self.emulate_cycle_with(rnd)
    }
}

/// Whether an instruction is one of control flow.
fn is_flow_ins(ins: &Instruction) -> (r: bool)
    ensures
        r == is_flow(*ins),
{
    match ins {
        Instruction::ClearScreen
        | Instruction::Return
        | Instruction::Jump { .. }
        | Instruction::Call { .. }
        | Instruction::SkipIfEqual { .. }
        | Instruction::SkipIfNotEqual { .. }
        | Instruction::SkipIfRegsEqual { .. }
        | Instruction::SkipIfRegsNotEqual { .. }
        | Instruction::JumpOffset { .. }
        | Instruction::SkipIfKey { .. }
        | Instruction::SkipIfNotKey { .. } => true,
        _ => false,
    }
}

/// Whether an instruction only computes on registers.
fn is_alu_ins(ins: &Instruction) -> (r: bool)
    ensures
        r == is_alu(*ins),
{
    match ins {
        Instruction::SetImmediate { .. }
        | Instruction::AddImmediate { .. }
        | Instruction::Copy { .. }
        | Instruction::Or { .. }
        | Instruction::And { .. }
        | Instruction::Xor { .. }
        | Instruction::AddRegs { .. }
        | Instruction::Sub { .. }
        | Instruction::ShiftRight { .. }
        | Instruction::SubReversed { .. }
        | Instruction::ShiftLeft { .. }
        | Instruction::Random { .. } => true,
        _ => false,
    }
}

/// Relies on rand::random::<u8>: a byte drawn from the thread-local
/// generator. Any byte may come back, so nothing is stated of it.
#[verifier::external_body]
fn random_byte() -> u8 {
    rand::random::<u8>()
}

/// Why a program could not be loaded.
#[derive(Clone, Copy, Debug, PartialEq, Eq, Structural)]
pub enum LoadError {
    /// The program has `len` bytes and only `capacity` fit above the
    /// reserved area.
    RomTooLarge { len: usize, capacity: usize },
}

/// Toggling a cell that holds 0 or 1 gives the other of the two.
proof fn lemma_toggle_bit(b: u8)
    requires
        is_bit(b),
    ensures
        is_bit(b ^ 1u8),
        (b ^ 1u8 == 0) == (b == 1),
{
    assert((b == 0u8 || b == 1u8) ==> ((b ^ 1u8 == 0u8 || b ^ 1u8 == 1u8) && ((b ^ 1u8 == 0u8) == (b == 1u8)))) by (bit_vector);
}

} // verus!
