//! Laws of the instruction semantics, proved over `execute_spec`.

use vstd::prelude::*;

use crate::cpu::{
    collides, covers, draw_display, execute_spec, wrap16, CpuError, CpuModel, DISPLAY_HEIGHT,
    DISPLAY_SIZE, DISPLAY_WIDTH, FLAG, INSTRUCTION_WIDTH, STACK_DEPTH,
};
use crate::instruction::Instruction;
use crate::ram::RAM_SIZE;

verus! {

/// Runs a program of instructions one after another, stopping at the first
/// fault.
pub open spec fn run(m: CpuModel, program: Seq<Instruction>) -> Result<CpuModel, CpuError>
    decreases program.len(),
{
    if program.len() == 0 {
        Ok(m)
    } else {
        match execute_spec(m, program[0]) {
            Ok(next) => run(next, program.drop_first()),
            Err(e) => Err(e),
        }
    }
}

/// A `Call` to each address in turn.
pub open spec fn calls(addrs: Seq<u16>) -> Seq<Instruction> {
    Seq::new(addrs.len(), |k: int| Instruction::Call(addrs[k]))
}

/// `count` consecutive `Return`s.
pub open spec fn repeated_returns(count: nat) -> Seq<Instruction> {
    Seq::new(count, |k: int| Instruction::Return)
}

/// `Add` leaves `(a + b) mod 256` in its first register, sets the flag
/// register to 1 exactly when `a + b` does not fit in eight bits, and moves
/// on to the next instruction. (With the
/// flag register as first operand the flag overwrites the sum.)
pub proof fn lemma_add(m: CpuModel, x: u8, y: u8)
    requires
        m.wf(),
        x < FLAG,
        y <= FLAG,
    ensures
        execute_spec(m, Instruction::Add(x, y)) matches Ok(n)
            && n.pc == wrap16(m.pc + INSTRUCTION_WIDTH)
            && n.reg(x) == (m.reg(x) + m.reg(y)) % 256
            && n.reg(FLAG as u8) == (if m.reg(x) + m.reg(y) >= 256 { 1u8 } else { 0u8 }),
{
}

/// `Subtract` leaves `(a - b) mod 256` in its first register, sets the flag
/// register to 1 exactly when `a >= b`, that is when nothing is borrowed,
/// and moves on to the next instruction.
pub proof fn lemma_subtract(m: CpuModel, x: u8, y: u8)
    requires
        m.wf(),
        x < FLAG,
        y <= FLAG,
    ensures
        execute_spec(m, Instruction::Subtract(x, y)) matches Ok(n)
            && n.pc == wrap16(m.pc + INSTRUCTION_WIDTH)
            && n.reg(x) == (m.reg(x) - m.reg(y)) % 256
            && n.reg(FLAG as u8) == (if m.reg(x) >= m.reg(y) { 1u8 } else { 0u8 }),
{
}

/// `ShiftRight` leaves `v >> 1` in its register and `v & 1` in the flag
/// register, and moves on to the next instruction.
pub proof fn lemma_shift_right(m: CpuModel, x: u8, y: u8)
    requires
        m.wf(),
        x < FLAG,
        y <= FLAG,
    ensures
        execute_spec(m, Instruction::ShiftRight(x, y)) matches Ok(n)
            && n.pc == wrap16(m.pc + INSTRUCTION_WIDTH)
            && n.reg(x) == m.reg(x) >> 1
            && n.reg(FLAG as u8) == m.reg(x) & 1,
{
    let v = m.reg(x);
    assert(v & 1 == 1 || v & 1 == 0) by (bit_vector);
}

/// A program of one instruction is that instruction.
proof fn lemma_run_one(m: CpuModel, ins: Instruction)
    ensures
        run(m, seq![ins]) == execute_spec(m, ins),
{
    assert(seq![ins].drop_first() =~= Seq::<Instruction>::empty());
    if let Ok(next) = execute_spec(m, ins) {
        assert(run(next, Seq::<Instruction>::empty()) == Ok::<CpuModel, CpuError>(next));
    }
}

/// Running `p1` and then `p2` is running their concatenation.
pub proof fn lemma_run_append(m: CpuModel, p1: Seq<Instruction>, p2: Seq<Instruction>)
    ensures
        run(m, p1 + p2) == match run(m, p1) {
            Ok(n) => run(n, p2),
            Err(e) => Err(e),
        },
    decreases p1.len(),
{
    if p1.len() == 0 {
        assert(p1 + p2 =~= p2);
    } else {
        assert((p1 + p2).drop_first() =~= p1.drop_first() + p2);
        assert((p1 + p2)[0] == p1[0]);
        if let Ok(next) = execute_spec(m, p1[0]) {
            lemma_run_append(next, p1.drop_first(), p2);
        }
    }
}

/// Calls that fit on the stack, each followed in reverse order by its
/// `Return`, leave the machine as it was but for stack slots at and above
/// the stack pointer, with the program counter on the instruction after the
/// first `Call` (on itself when there are no calls).
pub proof fn lemma_calls_then_returns(m: CpuModel, addrs: Seq<u16>)
    requires
        m.wf(),
        m.sp + addrs.len() <= STACK_DEPTH,
    ensures
        run(m, calls(addrs) + repeated_returns(addrs.len())) matches Ok(n)
            && n == (CpuModel { stack: n.stack, pc: n.pc, ..m })
            && n.pc == (if addrs.len() == 0 { m.pc } else { wrap16(m.pc + INSTRUCTION_WIDTH) })
            && n.stack.len() == STACK_DEPTH
            && forall|k: int| 0 <= k < m.sp ==> n.stack[k] == m.stack[k],
    decreases addrs.len(),
{
    let k = addrs.len();
    if k == 0 {
        assert(calls(addrs) + repeated_returns(0) =~= Seq::<Instruction>::empty());
        assert(m == (CpuModel { stack: m.stack, pc: m.pc, ..m }));
    } else {
        let rest = addrs.drop_first();
        let inner = calls(rest) + repeated_returns(rest.len());
        let first = seq![Instruction::Call(addrs[0])];
        let last = seq![Instruction::Return];
        assert(calls(addrs) + repeated_returns(k) =~= first + inner + last);
        let m1 = CpuModel {
            stack: m.stack.update(m.sp as int, wrap16(m.pc + INSTRUCTION_WIDTH)),
            sp: (m.sp + 1) as u8,
            pc: addrs[0],
            ..m
        };
        lemma_run_one(m, Instruction::Call(addrs[0]));
        assert(run(m, first) == Ok::<CpuModel, CpuError>(m1));
        lemma_calls_then_returns(m1, rest);
        lemma_run_append(m, first, inner);
        lemma_run_append(m, first + inner, last);
        let m2 = run(m1, inner)->Ok_0;
        lemma_run_one(m2, Instruction::Return);
        assert(run(m2, last) == Ok::<CpuModel, CpuError>(
            CpuModel { sp: m.sp, pc: wrap16(m.pc + INSTRUCTION_WIDTH), ..m2 },
        ));
    }
}

/// Sixteen calls from an empty stack, then sixteen returns, bring the
/// program counter back to the instruction after the first call; a seventeenth call in a row is a stack overflow;
/// a return on an empty stack is a stack underflow.
pub proof fn lemma_stack_discipline(m: CpuModel, addrs: Seq<u16>, extra: u16)
    requires
        m.wf(),
        m.sp == 0,
        addrs.len() == STACK_DEPTH,
    ensures
        run(m, calls(addrs) + repeated_returns(STACK_DEPTH as nat)) matches Ok(n)
            && n.pc == wrap16(m.pc + INSTRUCTION_WIDTH)
            && n.sp == 0,
        run(m, calls(addrs).push(Instruction::Call(extra))) == Err::<CpuModel, CpuError>(
            CpuError::StackOverflow,
        ),
        execute_spec(m, Instruction::Return) == Err::<CpuModel, CpuError>(
            CpuError::StackUnderflow,
        ),
{
    lemma_calls_then_returns(m, addrs);
    lemma_run_calls(m, addrs);
    let full = run(m, calls(addrs))->Ok_0;
    lemma_run_append(m, calls(addrs), seq![Instruction::Call(extra)]);
    assert(calls(addrs).push(Instruction::Call(extra)) =~= calls(addrs) + seq![
        Instruction::Call(extra),
    ]);
    assert(full.sp == STACK_DEPTH);
}

/// Calls that fit on the stack raise the stack pointer by their number.
proof fn lemma_run_calls(m: CpuModel, addrs: Seq<u16>)
    requires
        m.wf(),
        m.sp + addrs.len() <= STACK_DEPTH,
    ensures
        run(m, calls(addrs)) matches Ok(n) && n.wf() && n.sp == m.sp + addrs.len(),
    decreases addrs.len(),
{
    if addrs.len() > 0 {
        let m1 = CpuModel {
            stack: m.stack.update(m.sp as int, wrap16(m.pc + INSTRUCTION_WIDTH)),
            sp: (m.sp + 1) as u8,
            pc: addrs[0],
            ..m
        };
        assert(calls(addrs).drop_first() =~= calls(addrs.drop_first()));
        lemma_run_calls(m1, addrs.drop_first());
    }
}

/// XOR-ing a sprite onto the display twice restores it, and the second pass
/// collides exactly when the first lit a pixel.
pub proof fn lemma_draw_display_twice(display: Seq<bool>, sprite: Seq<u8>, x0: int, y0: int)
    ensures
        draw_display(draw_display(display, sprite, x0, y0), sprite, x0, y0) == display,
        collides(draw_display(display, sprite, x0, y0), sprite, x0, y0) == exists|p: int|
            0 <= p < display.len() && !display[p] && #[trigger] covers(sprite, x0, y0, p),
{
    assert(draw_display(draw_display(display, sprite, x0, y0), sprite, x0, y0) =~= display);
    let once = draw_display(display, sprite, x0, y0);
    if collides(once, sprite, x0, y0) {
        let p = choose|p: int| 0 <= p < once.len() && once[p] && #[trigger] covers(sprite, x0, y0, p);
        assert(!display[p]);
    }
    if exists|p: int| 0 <= p < display.len() && !display[p] && #[trigger] covers(sprite, x0, y0, p) {
        let p = choose|p: int| 0 <= p < display.len() && !display[p] && #[trigger] covers(sprite, x0, y0, p);
        assert(once[p]);
    }
}

/// Executing the same `Draw` twice, with neither coordinate in the flag
/// register, restores the display; the second draw sets the flag register
/// to 1 exactly when the first lit a pixel, which it does on a blank display
/// whenever the sprite has a set bit.
pub proof fn lemma_draw_twice(m: CpuModel, x: u8, y: u8, n: u8)
    requires
        m.wf(),
        x < FLAG,
        y < FLAG,
        n < 16,
        m.i + n <= RAM_SIZE,
    ensures
        ({
            let sprite = m.memory.subrange(m.i as int, m.i + n);
            let (x0, y0) = (m.reg(x) as int % DISPLAY_WIDTH as int, m.reg(y) as int
                % DISPLAY_HEIGHT as int);
            execute_spec(m, Instruction::Draw(x, y, n)) matches Ok(m1)
                && execute_spec(m1, Instruction::Draw(x, y, n)) matches Ok(m2)
                && m2.display == m.display
                && (m2.reg(FLAG as u8) == 1) == (exists|p: int|
                    0 <= p < DISPLAY_SIZE && !m.display[p] && #[trigger] covers(sprite, x0, y0, p))
        }),
{
    let ins = Instruction::Draw(x, y, n);
    let sprite = m.memory.subrange(m.i as int, m.i + n);
    let (x0, y0) = (m.reg(x) as int % DISPLAY_WIDTH as int, m.reg(y) as int
        % DISPLAY_HEIGHT as int);
    lemma_draw_display_twice(m.display, sprite, x0, y0);
    let m1 = execute_spec(m, ins)->Ok_0;
    assert(m1.memory.subrange(m1.i as int, m1.i + n) == sprite);
    assert(m1.reg(x) == m.reg(x) && m1.reg(y) == m.reg(y));
}

} // verus!
