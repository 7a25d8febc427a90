//! What each instruction, key event and timer tick does, stated as
//! relations between the machine before and after.
use vstd::prelude::*;

use crate::machine::execute::{op_fault, step};
use crate::machine::{
    fetch, initial_state, loaded, spec_cycle, spec_key_pressed, spec_set_key, spec_sync_timers,
    Fault, MachineView, DISPLAY_PIXELS, FONT, MEMORY_SIZE, SYNC_PERIOD_NANOS, USABLE_ADDR_START,
};
use crate::parser::{nibble, spec_char_to_chip8, spec_decode, spec_key_to_chip8, Operation};

verus! {

/// `s1` and `s` agree everywhere but in the registers.
pub open spec fn only_registers_differ(s1: MachineView, s: MachineView) -> bool {
    (MachineView { registers: s.registers, ..s1 }) == s
}

/// `s1` and `s` agree everywhere but in the program counter.
pub open spec fn only_pc_differs(s1: MachineView, s: MachineView) -> bool {
    (MachineView { pc: s.pc, ..s1 }) == s
}

/// Registers other than `Vx` and `VF` keep their values.
pub open spec fn other_registers_kept(s1: MachineView, s: MachineView, x: int) -> bool {
    s1.registers.len() == s.registers.len() && forall|r: int|
        0 <= r < s.registers.len() && r != x && r != 15 ==> #[trigger] s1.registers[r] == s.registers[r]
}

// ---------------------------------------------------------------------------
// The 8xyN family
// ---------------------------------------------------------------------------

/// `8xy0`, `8xy1`, `8xy2`, `8xy3`: `Vx` becomes `Vy`, `Vx | Vy`, `Vx & Vy`,
/// `Vx ^ Vy`; every other register, `VF` included, keeps its value.
pub proof fn law_arithmetic_logic(s: MachineView, x: usize, y: usize)
    requires
        s.wf(),
        x < 16,
        y < 16,
    ensures
        ({
            let (vx, vy) = (s.registers[x as int], s.registers[y as int]);
            &&& step(s, Operation::Arithmetic(0, x, y)).registers == s.registers.update(x as int, vy)
            &&& step(s, Operation::Arithmetic(1, x, y)).registers == s.registers.update(x as int, vx | vy)
            &&& step(s, Operation::Arithmetic(2, x, y)).registers == s.registers.update(x as int, vx & vy)
            &&& step(s, Operation::Arithmetic(3, x, y)).registers == s.registers.update(x as int, vx ^ vy)
            &&& only_registers_differ(step(s, Operation::Arithmetic(0, x, y)), s)
            &&& only_registers_differ(step(s, Operation::Arithmetic(1, x, y)), s)
            &&& only_registers_differ(step(s, Operation::Arithmetic(2, x, y)), s)
            &&& only_registers_differ(step(s, Operation::Arithmetic(3, x, y)), s)
        }),
{
}

/// The parts of the machine that `8xyN` with a flag leaves alone: every
/// register but `Vx` and `VF`, and everything outside the registers.
pub open spec fn flag_op_frame(t: MachineView, s: MachineView, x: int) -> bool {
    other_registers_kept(t, s, x) && only_registers_differ(t, s)
}

/// `8xy4` keeps the carry in `VF` (when `x` is not `F`):
/// `Vx' + 256 * VF' == Vx + Vy` with `VF'` either `0` or `1`.
pub proof fn law_add_carry(s: MachineView, x: usize, y: usize)
    requires
        s.wf(),
        x < 15,
        y < 16,
    ensures
        ({
            let t = step(s, Operation::Arithmetic(4, x, y));
            &&& t.registers[15] <= 1
            &&& t.registers[x as int] + 256 * t.registers[15] == s.registers[x as int] + s.registers[y as int]
            &&& flag_op_frame(t, s, x as int)
        }),
{
}

/// `8xy5` keeps "no borrow" in `VF` (when `x` is not `F`):
/// `Vx' == Vx - Vy + 256 * (1 - VF')` with `VF'` either `0` or `1`.
pub proof fn law_sub_borrow(s: MachineView, x: usize, y: usize)
    requires
        s.wf(),
        x < 15,
        y < 16,
    ensures
        ({
            let t = step(s, Operation::Arithmetic(5, x, y));
            &&& t.registers[15] <= 1
            &&& t.registers[x as int] == s.registers[x as int] - s.registers[y as int] + 256 * (1
                - t.registers[15])
            &&& flag_op_frame(t, s, x as int)
        }),
{
}

/// `8xy6` keeps the bit shifted out in `VF` (when `x` is not `F`):
/// `2 * Vx' + VF' == Vx` with `VF'` either `0` or `1`.
pub proof fn law_shift_right(s: MachineView, x: usize, y: usize)
    requires
        s.wf(),
        x < 15,
        y < 16,
    ensures
        ({
            let t = step(s, Operation::Arithmetic(6, x, y));
            &&& t.registers[15] <= 1
            &&& 2 * t.registers[x as int] + t.registers[15] == s.registers[x as int]
            &&& flag_op_frame(t, s, x as int)
        }),
{
    let vx = s.registers[x as int];
    assert(vx / 2 * 2 + vx % 2 == vx);
}

/// `8xy7` keeps "no borrow" in `VF` (when `x` is not `F`):
/// `Vx' == Vy - Vx + 256 * (1 - VF')` with `VF'` either `0` or `1`.
pub proof fn law_sub_reversed_borrow(s: MachineView, x: usize, y: usize)
    requires
        s.wf(),
        x < 15,
        y < 16,
    ensures
        ({
            let t = step(s, Operation::Arithmetic(7, x, y));
            &&& t.registers[15] <= 1
            &&& t.registers[x as int] == s.registers[y as int] - s.registers[x as int] + 256 * (1
                - t.registers[15])
            &&& flag_op_frame(t, s, x as int)
        }),
{
}

/// `8xyE` keeps the bit shifted out in `VF` (when `x` is not `F`):
/// `Vx' + 256 * VF' == 2 * Vx` with `VF'` either `0` or `1`.
pub proof fn law_shift_left(s: MachineView, x: usize, y: usize)
    requires
        s.wf(),
        x < 15,
        y < 16,
    ensures
        ({
            let t = step(s, Operation::Arithmetic(8, x, y));
            &&& t.registers[15] <= 1
            &&& t.registers[x as int] + 256 * t.registers[15] == 2 * s.registers[x as int]
            &&& flag_op_frame(t, s, x as int)
        }),
{
    let vx = s.registers[x as int];
    assert(vx / 128 <= 1);
    assert((vx * 2) % 256 + 256 * (vx / 128) == 2 * vx);
}

/// When `x` is `F`, the result of `8xy4`..`8xyE` is what stays in `VF`.
pub proof fn law_arithmetic_into_vf(s: MachineView, y: usize)
    requires
        s.wf(),
        y < 16,
    ensures
        ({
            let (vf, vy) = (s.registers[15], s.registers[y as int]);
            &&& step(s, Operation::Arithmetic(4, 15, y)).registers[15] == (vf + vy) % 256
            &&& step(s, Operation::Arithmetic(5, 15, y)).registers[15] == (vf - vy) % 256
            &&& step(s, Operation::Arithmetic(6, 15, y)).registers[15] == vf / 2
            &&& step(s, Operation::Arithmetic(7, 15, y)).registers[15] == (vy - vf) % 256
            &&& step(s, Operation::Arithmetic(8, 15, y)).registers[15] == (2 * vf) % 256
        }),
{
}

/// `8xyN` with any other `N` changes nothing.
pub proof fn law_arithmetic_other_codes(s: MachineView, code: u8, x: usize, y: usize)
    requires
        s.wf(),
        x < 16,
        y < 16,
        code > 8,
    ensures
        step(s, Operation::Arithmetic(code, x, y)) == s,
{
}

// ---------------------------------------------------------------------------
// Skips
// ---------------------------------------------------------------------------

/// The conditional skips move the program counter on by exactly one
/// instruction when their condition holds and leave it alone otherwise;
/// nothing else changes:
/// `3xkk` on `Vx == kk`, `4xkk` on `Vx != kk`, `5xy0` on `Vx == Vy`,
/// `9xy0` on `Vx != Vy`, `Ex9E` when key `Vx` is held, `ExA1` when it is not.
pub proof fn law_skips(s: MachineView, x: usize, y: usize, kk: u8)
    requires
        s.wf(),
        x < 16,
        y < 16,
        s.pc + 2 <= u16::MAX,
    ensures
        ({
            let (vx, vy) = (s.registers[x as int], s.registers[y as int]);
            let moved = |t: MachineView, c: bool| if c { t.pc == s.pc + 2 } else { t.pc == s.pc };
            &&& moved(step(s, Operation::SkipK(true, x, kk)), vx == kk)
            &&& moved(step(s, Operation::SkipK(false, x, kk)), vx != kk)
            &&& moved(step(s, Operation::SkipR(true, x, y)), vx == vy)
            &&& moved(step(s, Operation::SkipR(false, x, y)), vx != vy)
            &&& vx < 16 ==> moved(step(s, Operation::SkipI(true, x)), s.keys[vx as int])
            &&& vx < 16 ==> moved(step(s, Operation::SkipI(false, x)), !s.keys[vx as int])
            &&& only_pc_differs(step(s, Operation::SkipK(true, x, kk)), s)
            &&& only_pc_differs(step(s, Operation::SkipK(false, x, kk)), s)
            &&& only_pc_differs(step(s, Operation::SkipR(true, x, y)), s)
            &&& only_pc_differs(step(s, Operation::SkipR(false, x, y)), s)
            &&& only_pc_differs(step(s, Operation::SkipI(true, x)), s)
            &&& only_pc_differs(step(s, Operation::SkipI(false, x)), s)
        }),
{
}

/// A skip can only be stopped by a key number above `F` (for `Ex9E`/`ExA1`)
/// or by a taken skip carrying the program counter past `FFFF`; in
/// particular nothing stops a skip whose program counter is at most `FFFD`.
pub proof fn law_skip_faults(s: MachineView, x: usize, y: usize, kk: u8, c: u16)
    requires
        s.wf(),
        x < 16,
        y < 16,
    ensures
        s.pc + 2 <= u16::MAX ==> op_fault(s, Operation::SkipK(true, x, kk), c) is None,
        s.pc + 2 <= u16::MAX ==> op_fault(s, Operation::SkipK(false, x, kk), c) is None,
        s.pc + 2 <= u16::MAX ==> op_fault(s, Operation::SkipR(true, x, y), c) is None,
        s.pc + 2 <= u16::MAX ==> op_fault(s, Operation::SkipR(false, x, y), c) is None,
        (s.pc + 2 <= u16::MAX && s.registers[x as int] < 16) ==> op_fault(s, Operation::SkipI(true, x), c) is None,
        (s.pc + 2 <= u16::MAX && s.registers[x as int] < 16) ==> op_fault(s, Operation::SkipI(false, x), c) is None,
        s.registers[x as int] >= 16 ==> op_fault(s, Operation::SkipI(true, x), c) == Some(Fault::KeyOutOfRange),
        s.registers[x as int] >= 16 ==> op_fault(s, Operation::SkipI(false, x), c) == Some(Fault::KeyOutOfRange),
{
}

// ---------------------------------------------------------------------------
// Subroutines
// ---------------------------------------------------------------------------

/// `2nnn` pushes the address of the next instruction and jumps; `00EE`
/// pops the innermost address and jumps back to it.
pub proof fn law_call_and_return(s: MachineView, a: u16)
    ensures
        step(s, Operation::Call(a)).pc == a,
        step(s, Operation::Call(a)).stack.len() == s.stack.len() + 1,
        step(s, Operation::Call(a)).stack.last() == s.pc,
        step(s, Operation::Call(a)).stack.drop_last() == s.stack,
        s.stack.len() >= 1 ==> step(s, Operation::Return).stack.push(step(s, Operation::Return).pc)
            == s.stack,
        (MachineView { pc: s.pc, stack: s.stack, ..step(s, Operation::Return) }) == s,
        (MachineView { pc: s.pc, stack: s.stack, ..step(s, Operation::Call(a)) }) == s,
{
    assert(s.stack.push(s.pc).drop_last() =~= s.stack);
    if s.stack.len() >= 1 {
        assert(s.stack.drop_last().push(s.stack.last()) =~= s.stack);
    }
}

/// `00EE` is stopped exactly when the stack is empty.
pub proof fn law_return_fault(s: MachineView, c: u16)
    ensures
        s.stack.len() >= 1 ==> op_fault(s, Operation::Return, c) is None,
        s.stack.len() == 0 ==> op_fault(s, Operation::Return, c) == Some(Fault::ReturnWithEmptyStack),
{
}

/// `2nnn` is never stopped.
pub proof fn law_call_never_faults(s: MachineView, a: u16, c: u16)
    ensures
        op_fault(s, Operation::Call(a), c) is None,
{
}

/// A cycle that fetches `00EE` with a return address on the stack is not
/// stopped, and lands on that address with the address popped.
pub proof fn law_cycle_return(s: MachineView)
    requires
        s.wf(),
        s.waiting_for_key is None,
        s.pc + 1 < USABLE_ADDR_START + s.program_size,
        s.memory[s.pc as int] == 0x00,
        s.memory[s.pc + 1] == 0xEE,
        s.stack.len() >= 1,
    ensures
        crate::machine::cycle_fault(s) is None,
        spec_cycle(s).pc == s.stack.last(),
        spec_cycle(s).stack == s.stack.drop_last(),
{
    assert(fetch(s).1 == Some(0x00EEu16));
}

// ---------------------------------------------------------------------------
// Memory-touching instructions
// ---------------------------------------------------------------------------

/// `Fx55` is stopped exactly when `I + x` runs past the end of memory; it
/// stores `V0`..=`Vx` at `I`..=`I+x` and touches nothing else.
pub proof fn law_write(s: MachineView, x: usize, c: u16)
    requires
        s.wf(),
        x < 16,
    ensures
        (op_fault(s, Operation::Write(x), c) is None) <==> s.i + x < MEMORY_SIZE,
        s.i + x < MEMORY_SIZE ==> ({
            let w = step(s, Operation::Write(x));
            &&& w.memory.len() == s.memory.len()
            &&& forall|j: int| 0 <= j <= x ==> #[trigger] w.memory[s.i + j] == s.registers[j]
            &&& forall|k: int|
                0 <= k < MEMORY_SIZE && !(s.i <= k <= s.i + x) ==> #[trigger] w.memory[k] == s.memory[k]
            &&& (MachineView { memory: s.memory, ..w }) == s
        }),
{
    if s.i + x < MEMORY_SIZE {
        let w = step(s, Operation::Write(x));
        assert forall|j: int| 0 <= j <= x implies #[trigger] w.memory[s.i + j] == s.registers[j] by {
            assert(s.i + j - s.i == j);
        }
        assert((MachineView { memory: s.memory, ..w }) =~= s);
    }
}

/// `Fx65` is stopped exactly when `I + x` runs past the end of memory; it
/// loads `V0`..=`Vx` from `I`..=`I+x` and touches nothing else.
pub proof fn law_read(s: MachineView, x: usize, c: u16)
    requires
        s.wf(),
        x < 16,
    ensures
        (op_fault(s, Operation::Read(x), c) is None) <==> s.i + x < MEMORY_SIZE,
        s.i + x < MEMORY_SIZE ==> ({
            let r = step(s, Operation::Read(x));
            &&& r.registers.len() == 16
            &&& forall|j: int| 0 <= j <= x ==> #[trigger] r.registers[j] == s.memory[s.i + j]
            &&& forall|j: int| x < j < 16 ==> #[trigger] r.registers[j] == s.registers[j]
            &&& only_registers_differ(r, s)
        }),
{
    if s.i + x < MEMORY_SIZE {
        let r = step(s, Operation::Read(x));
        assert((MachineView { registers: s.registers, ..r }) =~= s);
    }
}

/// `Fx33` is stopped exactly when `I + 2` runs past the end of memory; it
/// writes the hundreds, tens and units of `Vx` at `I`, `I+1`, `I+2` and
/// nothing else.
pub proof fn law_split_reg(s: MachineView, x: usize, c: u16)
    requires
        s.wf(),
        x < 16,
    ensures
        (op_fault(s, Operation::SplitReg(x), c) is None) <==> s.i + 2 < MEMORY_SIZE,
        s.i + 2 < MEMORY_SIZE ==> ({
            let m = step(s, Operation::SplitReg(x)).memory;
            let v = s.registers[x as int];
            &&& m.len() == s.memory.len()
            &&& m[s.i as int] < 10 && m[s.i + 1] < 10 && m[s.i + 2] < 10
            &&& 100 * m[s.i as int] + 10 * m[s.i + 1] + m[s.i + 2] == v
            &&& forall|k: int|
                0 <= k < MEMORY_SIZE && !(s.i <= k <= s.i + 2) ==> #[trigger] m[k] == s.memory[k]
            &&& (MachineView { memory: s.memory, ..step(s, Operation::SplitReg(x)) }) == s
        }),
{
    let v = s.registers[x as int];
    assert(100 * (v / 100) + 10 * ((v / 10) % 10) + v % 10 == v) by (nonlinear_arith)
        requires
            0 <= v < 256,
    ;
}

// ---------------------------------------------------------------------------
// Register and timer instructions
// ---------------------------------------------------------------------------

/// `6xkk` sets `Vx = kk`; `7xkk` adds `kk` to `Vx` modulo 256 and leaves
/// `VF` alone; `Fx07` copies the delay timer to `Vx`. Nothing else changes.
pub proof fn law_register_writes(s: MachineView, x: usize, kk: u8)
    requires
        s.wf(),
        x < 16,
    ensures
        step(s, Operation::SetRg(x, kk)).registers == s.registers.update(x as int, kk),
        only_registers_differ(step(s, Operation::SetRg(x, kk)), s),
        (step(s, Operation::AddReg(x, kk)).registers[x as int] - s.registers[x as int] - kk) % 256
            == 0,
        step(s, Operation::AddReg(x, kk)).registers == s.registers.update(
            x as int,
            step(s, Operation::AddReg(x, kk)).registers[x as int],
        ),
        only_registers_differ(step(s, Operation::AddReg(x, kk)), s),
        step(s, Operation::CopyDelay(x)).registers == s.registers.update(x as int, s.dt),
        only_registers_differ(step(s, Operation::CopyDelay(x)), s),
{
    let v = s.registers[x as int];
    assert(((v + kk) % 256 - v - kk) % 256 == 0) by (nonlinear_arith)
        requires
            0 <= v < 256,
            0 <= kk < 256,
    ;
}

/// `Fx15` and `Fx18` set the delay and sound timers from `Vx`; `Fx1E` adds
/// `Vx` to `I` modulo 65536; `Fx29` points `I` at `0x50 + 5 * Vx`; `Annn`
/// sets `I`; `1nnn` jumps; `Fx0A` starts waiting for a key for `Vx`; a
/// no-op changes nothing. Nothing else changes.
pub proof fn law_state_writes(s: MachineView, x: usize, a: u16)
    requires
        s.wf(),
        x < 16,
    ensures
        step(s, Operation::SetDelay(x)) == (MachineView { dt: s.registers[x as int], ..s }),
        step(s, Operation::SetSound(x)) == (MachineView { st: s.registers[x as int], ..s }),
        (step(s, Operation::AddI(x)).i - s.i - s.registers[x as int]) % 0x10000 == 0,
        step(s, Operation::AddI(x)) == (MachineView { i: step(s, Operation::AddI(x)).i, ..s }),
        step(s, Operation::GetFont(x)) == (MachineView { i: (0x50 + 5 * s.registers[x as int]) as u16, ..s }),
        step(s, Operation::SetI(a)) == (MachineView { i: a, ..s }),
        step(s, Operation::SetPc(a)) == (MachineView { pc: a, ..s }),
        step(s, Operation::WaitKey(x)) == (MachineView { waiting_for_key: Some(x), ..s }),
        step(s, Operation::Nop) == s,
{
    let v = s.registers[x as int];
    let i = s.i;
    assert(((i + v) % 0x10000 - i - v) % 0x10000 == 0) by (nonlinear_arith)
        requires
            0 <= v < 256,
            0 <= i < 0x10000,
    ;
}

/// `Cxkk` advances the generator state `g` to `(g * A + C) mod 2^64` and
/// puts bits 24..31 of the new state, masked with `kk`, into `Vx`.
pub proof fn law_random(s: MachineView, x: usize, kk: u8)
    requires
        s.wf(),
        x < 16,
    ensures
        ({
            let t = step(s, Operation::Random(x, kk));
            let g = t.rng_state;
            &&& (g - (s.rng_state * crate::machine::LCG_A + crate::machine::LCG_C)) % 0x1_0000_0000_0000_0000int == 0
            &&& t.registers[x as int] == ((g / 0x100_0000) % 0x100) as u8 & kk
            &&& t.registers == s.registers.update(x as int, t.registers[x as int])
            &&& (MachineView { registers: s.registers, rng_state: s.rng_state, ..t }) == s
        }),
{
    let m = 0x1_0000_0000_0000_0000int;
    let v = s.rng_state * crate::machine::LCG_A + crate::machine::LCG_C;
    vstd::arithmetic::div_mod::lemma_fundamental_div_mod(v, m);
    assert(v % m - v == -(m * (v / m)));
    vstd::arithmetic::div_mod::lemma_mod_multiples_basic(-(v / m), m);
    assert(m * (-(v / m)) == -(m * (v / m))) by (nonlinear_arith);
}

/// `00E0` turns every pixel off and changes nothing else.
pub proof fn law_clear(s: MachineView)
    requires
        s.wf(),
    ensures
        step(s, Operation::Clear).display.len() == s.display.len(),
        forall|p: int| 0 <= p < s.display.len() ==> !#[trigger] step(s, Operation::Clear).display[p],
        (MachineView { display: s.display, ..step(s, Operation::Clear) }) == s,
{
}

// ---------------------------------------------------------------------------
// Fetching
// ---------------------------------------------------------------------------

/// Fetching reads the big-endian opcode at the program counter and moves
/// the counter on by two while the counter is inside the loaded program,
/// and gives nothing (changing nothing) once it is not.
pub proof fn law_fetch(s: MachineView)
    requires
        s.wf(),
    ensures
        s.pc + 1 < USABLE_ADDR_START + s.program_size ==> ({
            &&& fetch(s).1 == Some((256 * s.memory[s.pc as int] + s.memory[s.pc + 1]) as u16)
            &&& fetch(s).0 == (MachineView { pc: (s.pc + 2) as u16, ..s })
        }),
        s.pc + 1 >= USABLE_ADDR_START + s.program_size ==> fetch(s).1 is None && fetch(s).0 == s,
        s.waiting_for_key is Some ==> spec_cycle(s) == s,
{
}

// ---------------------------------------------------------------------------
// Keys
// ---------------------------------------------------------------------------

/// A key press event for a mapped key `k`: with no pending `Fx0A`, key `k`
/// is held afterwards whatever it was before, and nothing else changes;
/// with `Fx0A` pending for `Vr`, `Vr` receives `k`, the wait ends and the
/// held keys stay as they were. An unmapped name changes nothing.
pub proof fn law_key_pressed(s: MachineView, key: Seq<char>)
    requires
        s.wf(),
    ensures
        spec_key_to_chip8(key) is None ==> spec_key_pressed(s, key) == s,
        spec_key_to_chip8(key) matches Some(k) ==> ({
            let t = spec_key_pressed(s, key);
            match s.waiting_for_key {
                None => {
                    &&& t.keys.len() == 16
                    &&& t.keys[k as int]
                    &&& forall|j: int| 0 <= j < 16 && j != k ==> #[trigger] t.keys[j] == s.keys[j]
                    &&& (MachineView { keys: s.keys, ..t }) == s
                },
                Some(r) => {
                    &&& t.registers == s.registers.update(r as int, k as u8)
                    &&& t.keys == s.keys
                    &&& t.waiting_for_key is None
                    &&& (MachineView { registers: s.registers, waiting_for_key: s.waiting_for_key, ..t }) == s
                },
            }
        }),
{
    if let Some(k) = spec_key_to_chip8(key) {
        crate::parser::lemma_key_map_in_range(key[0]);
    }
}

/// Pressing a mapped key twice with no release between (no `Fx0A`
/// pending) leaves it held.
pub proof fn law_key_press_repeats(s: MachineView, key: Seq<char>)
    requires
        s.wf(),
        s.waiting_for_key is None,
        spec_key_to_chip8(key) is Some,
    ensures
        spec_key_pressed(spec_key_pressed(s, key), key).keys[spec_key_to_chip8(key)->0 as int],
        spec_key_pressed(spec_key_pressed(s, key), key) == spec_key_pressed(s, key),
{
    crate::parser::lemma_key_map_in_range(key[0]);
    let k = spec_key_to_chip8(key)->0 as int;
    assert(s.keys.update(k, true).update(k, true) =~= s.keys.update(k, true));
}

/// Setting a mapped key `k` to `pressed` leaves exactly `k` changed, to
/// `pressed`; an unmapped name changes nothing.
pub proof fn law_set_key(s: MachineView, key: Seq<char>, pressed: bool)
    requires
        s.wf(),
    ensures
        spec_key_to_chip8(key) is None ==> spec_set_key(s, key, pressed) == s,
        spec_key_to_chip8(key) matches Some(k) ==> ({
            let t = spec_set_key(s, key, pressed);
            &&& t.keys.len() == 16
            &&& t.keys[k as int] == pressed
            &&& forall|j: int| 0 <= j < 16 && j != k ==> #[trigger] t.keys[j] == s.keys[j]
            &&& (MachineView { keys: s.keys, ..t }) == s
        }),
{
    if let Some(k) = spec_key_to_chip8(key) {
        crate::parser::lemma_key_map_in_range(key[0]);
    }
}

/// The lowest held key is held, and no lower key is.
pub proof fn law_active_key(keys: Seq<bool>, k: Option<u8>)
    requires
        crate::machine::active_key(keys, k),
    ensures
        k matches Some(k) ==> k < keys.len() && keys[k as int] && forall|j: int|
            0 <= j < k ==> !#[trigger] keys[j],
        k is None ==> forall|j: int| 0 <= j < keys.len() ==> !#[trigger] keys[j],
{
}

// ---------------------------------------------------------------------------
// Timers
// ---------------------------------------------------------------------------

/// Once a full period has passed since the last tick, each timer falls by
/// one if it is running, independently of the other, and the tick time
/// moves to `now`; before that (or if `now` is earlier than the last tick)
/// nothing changes.
pub proof fn law_sync_timers(s: MachineView, now: u64)
    ensures
        now >= s.last_sync + SYNC_PERIOD_NANOS ==> ({
            let t = spec_sync_timers(s, now);
            &&& s.dt > 0 ==> t.dt == s.dt - 1
            &&& s.dt == 0 ==> t.dt == 0
            &&& s.st > 0 ==> t.st == s.st - 1
            &&& s.st == 0 ==> t.st == 0
            &&& t.last_sync == now
            &&& (MachineView { dt: s.dt, st: s.st, last_sync: s.last_sync, ..t }) == s
        }),
        now < s.last_sync + SYNC_PERIOD_NANOS ==> spec_sync_timers(s, now) == s,
{
}

/// Syncing twice at the same time ticks at most once.
pub proof fn law_sync_timers_once_per_period(s: MachineView, now: u64)
    ensures
        spec_sync_timers(spec_sync_timers(s, now), now) == spec_sync_timers(s, now),
{
}

// ---------------------------------------------------------------------------
// Decoding
// ---------------------------------------------------------------------------

/// The digits of an opcode written from its four hexadecimal digits.
proof fn lemma_nibbles(a: u16, b: u16, c: u16, d: u16)
    requires
        a < 16,
        b < 16,
        c < 16,
        d < 16,
    ensures
        ({
            let op = (0x1000 * a + 0x100 * b + 0x10 * c + d) as u16;
            &&& nibble(op, 0) == a
            &&& nibble(op, 1) == b
            &&& nibble(op, 2) == c
            &&& nibble(op, 3) == d
            &&& op % 0x1000 == 0x100 * b + 0x10 * c + d
            &&& op % 0x100 == 0x10 * c + d
        }),
{
    let op = (0x1000 * a + 0x100 * b + 0x10 * c + d) as u16;
    assert(op == 0x1000 * a + 0x100 * b + 0x10 * c + d);
    assert(op / 0x1000 == a && (op / 0x100) % 0x10 == b && (op / 0x10) % 0x10 == c && op % 0x10 == d
        && op % 0x1000 == 0x100 * b + 0x10 * c + d && op % 0x100 == 0x10 * c + d) by (bit_vector)
        requires
            a < 16,
            b < 16,
            c < 16,
            d < 16,
            op == 0x1000 * a + 0x100 * b + 0x10 * c + d,
    ;
}

/// The two fixed opcodes: `00E0` clears, `00EE` returns.
pub proof fn law_decode_fixed()
    ensures
        spec_decode(0x00E0) == Operation::Clear,
        spec_decode(0x00EE) == Operation::Return,
{
    lemma_nibbles(0, 0, 0xE, 0);
    lemma_nibbles(0, 0, 0xE, 0xE);
}

/// The digits of an opcode made of a leading digit and a twelve-bit address.
proof fn lemma_address_nibbles(top: u16, nnn: u16)
    requires
        top < 16,
        nnn < 0x1000,
    ensures
        nibble((0x1000 * top + nnn) as u16, 0) == top,
        ((0x1000 * top + nnn) as u16) % 0x1000 == nnn,
{
    let op = (0x1000 * top + nnn) as u16;
    assert(op == 0x1000 * top + nnn);
    assert(op / 0x1000 == top && op % 0x1000 == nnn) by (bit_vector)
        requires
            top < 16,
            nnn < 0x1000,
            op == 0x1000 * top + nnn,
    ;
}

/// Opcodes with an address: `1nnn` jumps and `2nnn` calls.
pub proof fn law_decode_jumps(nnn: u16)
    requires
        nnn < 0x1000,
    ensures
        spec_decode((0x1000 + nnn) as u16) == Operation::SetPc(nnn),
        spec_decode((0x2000 + nnn) as u16) == Operation::Call(nnn),
{
    lemma_address_nibbles(1, nnn);
    lemma_address_nibbles(2, nnn);
}

/// Opcodes with an address: `Annn` sets `I`; `Bnnn` is not implemented.
pub proof fn law_decode_index_addresses(nnn: u16)
    requires
        nnn < 0x1000,
    ensures
        spec_decode((0xA000 + nnn) as u16) == Operation::SetI(nnn),
        spec_decode((0xB000 + nnn) as u16) == Operation::Unsupported,
{
    lemma_address_nibbles(0xA, nnn);
    lemma_address_nibbles(0xB, nnn);
}

/// Opcodes with a register and a byte: `3xkk`, `4xkk`, `6xkk`, `7xkk`, `Cxkk`.
#[verifier::rlimit(30)]
pub proof fn law_decode_register_and_byte(x: u16, kk: u16)
    requires
        x < 16,
        kk < 256,
    ensures
        spec_decode((0x3000 + 0x100 * x + kk) as u16) == Operation::SkipK(true, x as usize, kk as u8),
        spec_decode((0x4000 + 0x100 * x + kk) as u16) == Operation::SkipK(false, x as usize, kk as u8),
        spec_decode((0x6000 + 0x100 * x + kk) as u16) == Operation::SetRg(x as usize, kk as u8),
        spec_decode((0x7000 + 0x100 * x + kk) as u16) == Operation::AddReg(x as usize, kk as u8),
        spec_decode((0xC000 + 0x100 * x + kk) as u16) == Operation::Random(x as usize, kk as u8),
{
    let (kc, kd) = (kk / 0x10, kk % 0x10);
    assert(kk == 0x10 * kc + kd);
    lemma_nibbles(3, x, kc, kd);
    lemma_nibbles(4, x, kc, kd);
    lemma_nibbles(6, x, kc, kd);
    lemma_nibbles(7, x, kc, kd);
    lemma_nibbles(0xC, x, kc, kd);
}

/// Opcodes with two registers and a nibble: `5xy0`, `8xyN`, `9xy0`, `Dxyn`.
#[verifier::rlimit(30)]
pub proof fn law_decode_register_pairs(x: u16, y: u16, n: u16)
    requires
        x < 16,
        y < 16,
        n < 16,
    ensures
        spec_decode((0x5000 + 0x100 * x + 0x10 * y) as u16) == Operation::SkipR(true, x as usize, y as usize),
        n < 8 ==> spec_decode((0x8000 + 0x100 * x + 0x10 * y + n) as u16) == Operation::Arithmetic(
            n as u8,
            x as usize,
            y as usize,
        ),
        spec_decode((0x800E + 0x100 * x + 0x10 * y) as u16) == Operation::Arithmetic(8, x as usize, y as usize),
        spec_decode((0x9000 + 0x100 * x + 0x10 * y) as u16) == Operation::SkipR(false, x as usize, y as usize),
        spec_decode((0xD000 + 0x100 * x + 0x10 * y + n) as u16) == Operation::Display(
            x as u8,
            y as u8,
            n as usize,
        ),
{
    lemma_nibbles(5, x, y, 0);
    lemma_nibbles(8, x, y, n);
    lemma_nibbles(8, x, y, 0xE);
    lemma_nibbles(9, x, y, 0);
    lemma_nibbles(0xD, x, y, n);
}

/// Opcodes with one register and a fixed byte: `Ex9E`, `ExA1`, `Fx07`,
/// `Fx0A`, `Fx15`, `Fx18`, `Fx1E`, `Fx29`, `Fx33`, `Fx55`, `Fx65`.
#[verifier::rlimit(30)]
pub proof fn law_decode_register_byte_codes(x: u16)
    requires
        x < 16,
    ensures
        spec_decode((0xE09E + 0x100 * x) as u16) == Operation::SkipI(true, x as usize),
        spec_decode((0xE0A1 + 0x100 * x) as u16) == Operation::SkipI(false, x as usize),
        spec_decode((0xF007 + 0x100 * x) as u16) == Operation::CopyDelay(x as usize),
        spec_decode((0xF00A + 0x100 * x) as u16) == Operation::WaitKey(x as usize),
        spec_decode((0xF015 + 0x100 * x) as u16) == Operation::SetDelay(x as usize),
        spec_decode((0xF018 + 0x100 * x) as u16) == Operation::SetSound(x as usize),
        spec_decode((0xF01E + 0x100 * x) as u16) == Operation::AddI(x as usize),
        spec_decode((0xF029 + 0x100 * x) as u16) == Operation::GetFont(x as usize),
        spec_decode((0xF033 + 0x100 * x) as u16) == Operation::SplitReg(x as usize),
        spec_decode((0xF055 + 0x100 * x) as u16) == Operation::Write(x as usize),
        spec_decode((0xF065 + 0x100 * x) as u16) == Operation::Read(x as usize),
{
    lemma_nibbles(0xE, x, 9, 0xE);
    lemma_nibbles(0xE, x, 0xA, 1);
    lemma_nibbles(0xF, x, 0, 7);
    lemma_nibbles(0xF, x, 0, 0xA);
    lemma_nibbles(0xF, x, 1, 5);
    lemma_nibbles(0xF, x, 1, 8);
    lemma_nibbles(0xF, x, 1, 0xE);
    lemma_nibbles(0xF, x, 2, 9);
    lemma_nibbles(0xF, x, 3, 3);
    lemma_nibbles(0xF, x, 5, 5);
    lemma_nibbles(0xF, x, 6, 5);
}

// ---------------------------------------------------------------------------
// Keypad
// ---------------------------------------------------------------------------

/// The keypad layout: `1 2 3 4 / q w e r / a s d f / z x c v` (letters in
/// either case) stand for `1 2 3 C / 4 5 6 D / 7 8 9 E / A 0 B F`, and
/// nothing else stands for a key.
pub proof fn law_keypad_layout(c: char)
    ensures
        spec_char_to_chip8('1') == Some(0x1usize),
        spec_char_to_chip8('2') == Some(0x2usize),
        spec_char_to_chip8('3') == Some(0x3usize),
        spec_char_to_chip8('4') == Some(0xCusize),
        spec_char_to_chip8('q') == Some(0x4usize) && spec_char_to_chip8('Q') == Some(0x4usize),
        spec_char_to_chip8('w') == Some(0x5usize) && spec_char_to_chip8('W') == Some(0x5usize),
        spec_char_to_chip8('e') == Some(0x6usize) && spec_char_to_chip8('E') == Some(0x6usize),
        spec_char_to_chip8('r') == Some(0xDusize) && spec_char_to_chip8('R') == Some(0xDusize),
        spec_char_to_chip8('a') == Some(0x7usize) && spec_char_to_chip8('A') == Some(0x7usize),
        spec_char_to_chip8('s') == Some(0x8usize) && spec_char_to_chip8('S') == Some(0x8usize),
        spec_char_to_chip8('d') == Some(0x9usize) && spec_char_to_chip8('D') == Some(0x9usize),
        spec_char_to_chip8('f') == Some(0xEusize) && spec_char_to_chip8('F') == Some(0xEusize),
        spec_char_to_chip8('z') == Some(0xAusize) && spec_char_to_chip8('Z') == Some(0xAusize),
        spec_char_to_chip8('x') == Some(0x0usize) && spec_char_to_chip8('X') == Some(0x0usize),
        spec_char_to_chip8('c') == Some(0xBusize) && spec_char_to_chip8('C') == Some(0xBusize),
        spec_char_to_chip8('v') == Some(0xFusize) && spec_char_to_chip8('V') == Some(0xFusize),
        !(c == '1' || c == '2' || c == '3' || c == '4' || c == 'q' || c == 'Q' || c == 'w' || c == 'W'
            || c == 'e' || c == 'E' || c == 'r' || c == 'R' || c == 'a' || c == 'A' || c == 's'
            || c == 'S' || c == 'd' || c == 'D' || c == 'f' || c == 'F' || c == 'z' || c == 'Z'
            || c == 'x' || c == 'X' || c == 'c' || c == 'C' || c == 'v' || c == 'V')
            ==> spec_char_to_chip8(c) is None,
{
}

/// A key name stands for a key exactly when it is one mapped character.
pub proof fn law_key_names(key: Seq<char>)
    ensures
        key.len() != 1 ==> spec_key_to_chip8(key) is None,
        key.len() == 1 ==> spec_key_to_chip8(key) == spec_char_to_chip8(key[0]),
{
}

// ---------------------------------------------------------------------------
// Starting, loading and cycling
// ---------------------------------------------------------------------------

/// A fresh machine: all registers, the index register, both timers, the
/// stack, every key and pixel are clear; the program counter is `0x200`,
/// no program is loaded, no key is awaited, and the generator holds `seed`.
/// Memory holds the font at `0x50` and zeros elsewhere.
pub proof fn law_fresh_machine(seed: u64)
    ensures
        ({
            let s = initial_state(seed);
            &&& s.wf()
            &&& forall|r: int| 0 <= r < 16 ==> #[trigger] s.registers[r] == 0
            &&& forall|k: int| 0 <= k < 16 ==> !#[trigger] s.keys[k]
            &&& forall|p: int| 0 <= p < DISPLAY_PIXELS ==> !#[trigger] s.display[p]
            &&& forall|a: int| 0 <= a < 0x50 ==> #[trigger] s.memory[a] == 0
            &&& forall|a: int| 0x50 <= a < 0xA0 ==> #[trigger] s.memory[a] == FONT@[a - 0x50]
            &&& forall|a: int| 0xA0 <= a < MEMORY_SIZE ==> #[trigger] s.memory[a] == 0
            &&& s.stack.len() == 0
            &&& s.i == 0 && s.pc == 0x200 && s.dt == 0 && s.st == 0
            &&& s.program_size == 0 && s.rng_state == seed && s.last_sync == 0
            &&& s.waiting_for_key is None && !s.trace
        }),
{
}

/// Loading puts byte `j` of the image at `0x200 + j`, records its size and
/// leaves every other byte and all other state alone.
pub proof fn law_load(s: MachineView, rom: Seq<u8>)
    requires
        s.wf(),
        rom.len() <= 3584,
    ensures
        ({
            let t = loaded(s, rom);
            &&& t.memory.len() == MEMORY_SIZE
            &&& forall|j: int| 0 <= j < rom.len() ==> #[trigger] t.memory[0x200 + j] == rom[j]
            &&& forall|a: int|
                0 <= a < MEMORY_SIZE && !(0x200 <= a < 0x200 + rom.len()) ==> #[trigger] t.memory[a]
                    == s.memory[a]
            &&& t.program_size == rom.len()
            &&& (MachineView { memory: s.memory, program_size: s.program_size, ..t }) == s
        }),
{
    let t = loaded(s, rom);
    assert forall|j: int| 0 <= j < rom.len() implies #[trigger] t.memory[0x200 + j] == rom[j] by {
        assert(0x200 + j - 0x200 == j);
    }
    assert((MachineView { memory: s.memory, program_size: s.program_size, ..t }) =~= s);
}

/// A cycle that is not waiting and is inside the program executes the
/// instruction decoded from the two bytes at the program counter, with the
/// program counter already moved past them.
pub proof fn law_cycle(s: MachineView)
    requires
        s.wf(),
        s.waiting_for_key is None,
        s.pc + 1 < USABLE_ADDR_START + s.program_size,
    ensures
        ({
            let opcode = (256 * s.memory[s.pc as int] + s.memory[s.pc + 1]) as u16;
            let after_fetch = MachineView { pc: (s.pc + 2) as u16, ..s };
            &&& spec_cycle(s) == step(after_fetch, spec_decode(opcode))
            &&& crate::machine::cycle_fault(s) == op_fault(after_fetch, spec_decode(opcode), opcode)
        }),
{
}

/// A cycle with nothing to do changes nothing and is never stopped: while
/// a key is awaited, or once the program counter has left the program.
pub proof fn law_idle_cycle(s: MachineView)
    requires
        s.wf(),
        s.waiting_for_key is Some || (s.pc + 1 >= USABLE_ADDR_START + s.program_size && s.pc
            != u16::MAX),
    ensures
        spec_cycle(s) == s,
        crate::machine::cycle_fault(s) is None,
{
}

/// `Dxyn` is stopped exactly when the sprite runs past the end of memory;
/// it changes only the display and `VF`, and `VF` ends up `0` or `1`.
pub proof fn law_display_frame(s: MachineView, x: u8, y: u8, n: usize, c: u16)
    requires
        s.wf(),
        x < 16,
        y < 16,
    ensures
        (op_fault(s, Operation::Display(x, y, n), c) is None) <==> s.i + n <= MEMORY_SIZE,
        ({
            let t = step(s, Operation::Display(x, y, n));
            &&& t.registers == s.registers.update(15, t.registers[15])
            &&& t.registers[15] <= 1
            &&& (MachineView { registers: s.registers, display: s.display, ..t }) == s
        }),
{
}

} // verus!
