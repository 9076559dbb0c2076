use vstd::prelude::*;

use crate::instruction::{decode_spec, family, field_n, field_nn, field_nnn, field_x, field_y, Instruction};
use crate::state::{cycle_spec, flag, Fault, MachineState, Step, SCREEN_CELLS, STACK_DEPTH};

verus! {

/// The fields of a word assembled from four nibbles are those nibbles.
pub proof fn lemma_opcode_fields(op: u16, f: u16, x: u16, y: u16, n: u16)
    requires
        f < 16,
        x < 16,
        y < 16,
        n < 16,
        op == f * 4096 + x * 256 + y * 16 + n,
    ensures
        family(op) == f,
        field_x(op) == x,
        field_y(op) == y,
        field_n(op) == n,
        field_nn(op) == y * 16 + n,
        field_nnn(op) == x * 256 + y * 16 + n,
{
    assert(op >> 12u16 == f) by (bit_vector)
        requires
            f < 16 && x < 16 && y < 16 && n < 16 && op == f * 4096 + x * 256 + y * 16 + n,
    ;
    assert((op >> 8u16) & 0xFu16 == x) by (bit_vector)
        requires
            f < 16 && x < 16 && y < 16 && n < 16 && op == f * 4096 + x * 256 + y * 16 + n,
    ;
    assert((op >> 4u16) & 0xFu16 == y) by (bit_vector)
        requires
            f < 16 && x < 16 && y < 16 && n < 16 && op == f * 4096 + x * 256 + y * 16 + n,
    ;
    assert(op & 0xFu16 == n) by (bit_vector)
        requires
            f < 16 && x < 16 && y < 16 && n < 16 && op == f * 4096 + x * 256 + y * 16 + n,
    ;
    assert(op & 0xFFu16 == y * 16 + n) by (bit_vector)
        requires
            f < 16 && x < 16 && y < 16 && n < 16 && op == f * 4096 + x * 256 + y * 16 + n,
    ;
    assert(op & 0xFFFu16 == x * 256 + y * 16 + n) by (bit_vector)
        requires
            f < 16 && x < 16 && y < 16 && n < 16 && op == f * 4096 + x * 256 + y * 16 + n,
    ;
}

/// The family and the address field of a word assembled from a family
/// nibble and a 12-bit address.
pub proof fn lemma_opcode_address(op: u16, f: u16, addr: u16)
    requires
        f < 16,
        addr < 0x1000,
        op == f * 4096 + addr,
    ensures
        family(op) == f,
        field_nnn(op) == addr,
{
    assert(op >> 12u16 == f && op & 0xFFFu16 == addr) by (bit_vector)
        requires
            f < 16 && addr < 0x1000 && op == f * 4096 + addr,
    ;
}

/// `6xnn` puts `nn` in `Vx` and moves the program counter on by one
/// instruction.
pub proof fn lemma_set_immediate(s: MachineState, x: u8, nn: u8, rnd: u8)
    requires
        s.wf(),
        s.pc_in_range(),
        x < 16,
        s.fetch() == 0x6000 + 256 * x + nn,
    ensures
        cycle_spec(s, rnd) is Ok,
        cycle_spec(s, rnd).unwrap().1 == Step::Executed,
        cycle_spec(s, rnd).unwrap().0.v[x as int] == nn,
        cycle_spec(s, rnd).unwrap().0.pc == s.pc + 2,
{
    lemma_opcode_fields(s.fetch(), 6, x as u16, (nn / 16) as u16, (nn % 16) as u16);
    assert(decode_spec(s.fetch()) == Instruction::SetImmediate { x, nn });
}

/// `8xy4` with `Vx = a` and `Vy = b` leaves `(a + b) mod 256` in `Vx` and
/// the carry in `VF`, for every `x` but `F`, whose result the carry
/// replaces.
pub proof fn lemma_add_carry(s: MachineState, x: u8, y: u8, a: u8, b: u8, rnd: u8)
    requires
        s.wf(),
        s.pc_in_range(),
        x < 15,
        y < 16,
        s.fetch() == 0x8004 + 256 * x + 16 * y,
        s.v[x as int] == a,
        s.v[y as int] == b,
    ensures
        cycle_spec(s, rnd) is Ok,
        cycle_spec(s, rnd).unwrap().0.v[x as int] == (a + b) % 256,
        cycle_spec(s, rnd).unwrap().0.v[0xF] == flag(a + b > 255),
        cycle_spec(s, rnd).unwrap().0.pc == s.pc + 2,
{
    lemma_opcode_fields(s.fetch(), 8, x as u16, y as u16, 4);
    assert(decode_spec(s.fetch()) == Instruction::AddRegs { x, y });
}

/// `8xy5` with `Vx = a` and `Vy = b` sets `VF` exactly when `a >= b` and
/// leaves `(a - b) mod 256` in `Vx`, for every `x` but `F`, whose result
/// the flag replaces.
pub proof fn lemma_sub_borrow(s: MachineState, x: u8, y: u8, a: u8, b: u8, rnd: u8)
    requires
        s.wf(),
        s.pc_in_range(),
        x < 15,
        y < 16,
        s.fetch() == 0x8005 + 256 * x + 16 * y,
        s.v[x as int] == a,
        s.v[y as int] == b,
    ensures
        cycle_spec(s, rnd) is Ok,
        cycle_spec(s, rnd).unwrap().0.v[0xF] == flag(a >= b),
        cycle_spec(s, rnd).unwrap().0.v[x as int] == (a - b) % 256,
        cycle_spec(s, rnd).unwrap().0.pc == s.pc + 2,
{
    lemma_opcode_fields(s.fetch(), 8, x as u16, y as u16, 5);
    assert(decode_spec(s.fetch()) == Instruction::Sub { x, y });
}

/// One cycle on `2nnn`: the program counter is pushed and `nnn` jumped to.
proof fn lemma_call_step(s: MachineState, addr: u16, rnd: u8)
    requires
        s.wf(),
        s.pc_in_range(),
        s.sp < STACK_DEPTH,
        addr < 0x1000,
        s.fetch() == 0x2000 + addr,
    ensures
        cycle_spec(s, rnd) == Ok::<(MachineState, Step), Fault>(
            (
                MachineState {
                    stack: s.stack.update(s.sp as int, s.pc),
                    sp: (s.sp + 1) as u16,
                    pc: addr,
                    ..s
                }.tick_timers(),
                Step::Executed,
            ),
        ),
{
    lemma_opcode_address(s.fetch(), 2, addr);
    assert(decode_spec(s.fetch()) == Instruction::Call { addr });
}

/// One cycle on `00EE` with a non-empty stack: the top address is popped
/// and the instruction after it is next.
proof fn lemma_return_step(s: MachineState, rnd: u8)
    requires
        s.wf(),
        s.pc_in_range(),
        s.sp > 0,
        s.fetch() == 0x00EE,
    ensures
        cycle_spec(s, rnd) == Ok::<(MachineState, Step), Fault>(
            (
                MachineState {
                    sp: (s.sp - 1) as u16,
                    pc: (s.stack[s.sp - 1] + 2) as u16,
                    ..s
                }.tick_timers(),
                Step::Executed,
            ),
        ),
{
    lemma_opcode_fields(s.fetch(), 0, 0, 14, 14);
    assert(decode_spec(s.fetch()) == Instruction::Return);
}

/// A call followed by a return at the called address comes back to the
/// instruction after the call, with the stack as deep as before.
pub proof fn lemma_call_return(s: MachineState, addr: u16, rnd1: u8, rnd2: u8)
    requires
        s.wf(),
        s.pc_in_range(),
        s.sp < STACK_DEPTH,
        addr < 0xFFF,
        s.fetch() == 0x2000 + addr,
        s.memory[addr as int] == 0x00,
        s.memory[addr + 1] == 0xEE,
    ensures
        cycle_spec(s, rnd1) is Ok,
        cycle_spec(cycle_spec(s, rnd1).unwrap().0, rnd2) is Ok,
        cycle_spec(cycle_spec(s, rnd1).unwrap().0, rnd2).unwrap().0.pc == s.pc + 2,
        cycle_spec(cycle_spec(s, rnd1).unwrap().0, rnd2).unwrap().0.sp == s.sp,
{
    lemma_call_step(s, addr, rnd1);
    let t = cycle_spec(s, rnd1).unwrap().0;
    assert(t.wf());
    assert(t.fetch() == 0x00EE);
    lemma_return_step(t, rnd2);
}

/// `00E0` turns every cell of the frame buffer off and raises the redraw
/// flag.
pub proof fn lemma_clear_screen(s: MachineState, rnd: u8)
    requires
        s.wf(),
        s.pc_in_range(),
        s.fetch() == 0x00E0,
    ensures
        cycle_spec(s, rnd) is Ok,
        cycle_spec(s, rnd).unwrap().0.gfx.len() == SCREEN_CELLS,
        forall|k: int|
            0 <= k < SCREEN_CELLS ==> #[trigger] cycle_spec(s, rnd).unwrap().0.gfx[k] == 0,
        cycle_spec(s, rnd).unwrap().0.draw_flag,
        cycle_spec(s, rnd).unwrap().0.pc == s.pc + 2,
{
    lemma_opcode_fields(s.fetch(), 0, 0, 14, 0);
}

/// A word that encodes no instruction is reported, and leaves registers,
/// index, memory, program counter, stack, frame buffer and keypad as they
/// were.
pub proof fn lemma_unknown_opcode(s: MachineState, rnd: u8)
    requires
        s.wf(),
        s.pc_in_range(),
        decode_spec(s.fetch()) == Instruction::Unknown,
    ensures
        cycle_spec(s, rnd) == Ok::<(MachineState, Step), Fault>(
            (s.tick_timers(), Step::Unknown { opcode: s.fetch() }),
        ),
        cycle_spec(s, rnd).unwrap().0.v == s.v,
        cycle_spec(s, rnd).unwrap().0.i == s.i,
        cycle_spec(s, rnd).unwrap().0.memory == s.memory,
        cycle_spec(s, rnd).unwrap().0.pc == s.pc,
        cycle_spec(s, rnd).unwrap().0.stack == s.stack,
        cycle_spec(s, rnd).unwrap().0.sp == s.sp,
        cycle_spec(s, rnd).unwrap().0.gfx == s.gfx,
        cycle_spec(s, rnd).unwrap().0.key == s.key,
{
}

} // verus!
