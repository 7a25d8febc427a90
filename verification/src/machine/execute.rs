//! What each instruction does to the machine.
use vstd::prelude::*;

use crate::machine::{
    lcg_next, random_byte, Fault, Machine, MachineView, CHAR_SIZE, DISPLAY_PIXELS, FONT_ADDR_START,
    INSTRUCTION_SIZE, MEMORY_SIZE, REG_VF,
};
use crate::parser::Operation;

verus! {

/// `1` for a set flag, `0` otherwise.
pub open spec fn flag(b: bool) -> u8 {
    if b {
        1
    } else {
        0
    }
}

/// The machine with `Vx` set to `v`.
pub open spec fn with_reg(s: MachineView, x: int, v: u8) -> MachineView {
    MachineView { registers: s.registers.update(x, v), ..s }
}

/// The machine with the next instruction skipped when `c` holds.
pub open spec fn skip_when(s: MachineView, c: bool) -> MachineView {
    if c {
        MachineView { pc: (s.pc + INSTRUCTION_SIZE) as u16, ..s }
    } else {
        s
    }
}

/// The `8xyN` family. The flag `VF` is written before `Vx`, so when `x` is
/// `F` the result of the operation is what stays in `VF`.
pub open spec fn arithmetic(s: MachineView, code: u8, x: int, y: int) -> MachineView {
    let vx = s.registers[x];
    let vy = s.registers[y];
    if code == 0 {
        with_reg(s, x, vy)
    } else if code == 1 {
        with_reg(s, x, vx | vy)
    } else if code == 2 {
        with_reg(s, x, vx & vy)
    } else if code == 3 {
        with_reg(s, x, vx ^ vy)
    } else if code == 4 {
        with_reg(with_reg(s, REG_VF as int, flag(vx + vy > 255)), x, ((vx + vy) % 256) as u8)
    } else if code == 5 {
        with_reg(with_reg(s, REG_VF as int, flag(vx >= vy)), x, ((vx - vy) % 256) as u8)
    } else if code == 6 {
        with_reg(with_reg(s, REG_VF as int, vx % 2), x, vx / 2)
    } else if code == 7 {
        with_reg(with_reg(s, REG_VF as int, flag(vy >= vx)), x, ((vy - vx) % 256) as u8)
    } else if code == 8 {
        with_reg(with_reg(s, REG_VF as int, vx / 128), x, ((vx * 2) % 256) as u8)
    } else {
        s
    }
}

/// The display index of the `k`-th sprite pixel (row `k / 8`, column `k % 8`)
/// drawn at (`vx`, `vy`), wrapping around both edges.
pub open spec fn pixel_of(vx: u8, vy: u8, k: int) -> int {
    ((vy + k / 8) % 32) * 64 + (vx + k % 8) % 64
}

/// Whether the `k`-th sprite pixel is set: bit `7 - k % 8` of sprite byte `k / 8`.
pub open spec fn sprite_bit(sprite: Seq<u8>, k: int) -> bool {
    (sprite[k / 8] >> ((7 - k % 8) as u8)) & 1 == 1
}

/// The display after XOR-ing the first `k` sprite pixels onto `d`, one after another.
pub open spec fn drawn(d: Seq<bool>, sprite: Seq<u8>, vx: u8, vy: u8, k: nat) -> Seq<bool>
    decreases k,
{
    if k == 0 {
        d
    } else {
        let prev = drawn(d, sprite, vx, vy, (k - 1) as nat);
        let p = pixel_of(vx, vy, k - 1);
        prev.update(p, prev[p] != sprite_bit(sprite, k - 1))
    }
}

/// Whether one of the first `k` sprite pixels turned a lit pixel off.
pub open spec fn collided(d: Seq<bool>, sprite: Seq<u8>, vx: u8, vy: u8, k: nat) -> bool
    decreases k,
{
    if k == 0 {
        false
    } else {
        let prev = drawn(d, sprite, vx, vy, (k - 1) as nat);
        collided(d, sprite, vx, vy, (k - 1) as nat) || (prev[pixel_of(vx, vy, k - 1)]
            && sprite_bit(sprite, k - 1))
    }
}

/// The `n` sprite bytes at the index register.
pub open spec fn sprite_at(s: MachineView, n: int) -> Seq<u8> {
    s.memory.subrange(s.i as int, s.i + n)
}

/// `Dxyn`: the sprite XOR-ed onto the display at (`Vx`, `Vy`); `VF` tells
/// whether a lit pixel was turned off.
pub open spec fn draw(s: MachineView, x: int, y: int, n: int) -> MachineView {
    let vx = s.registers[x];
    let vy = s.registers[y];
    let sprite = sprite_at(s, n);
    MachineView {
        display: drawn(s.display, sprite, vx, vy, (8 * n) as nat),
        registers: s.registers.update(
            REG_VF as int,
            flag(collided(s.display, sprite, vx, vy, (8 * n) as nat)),
        ),
        ..s
    }
}

/// Whether `3xkk`/`4xkk` skips.
pub open spec fn skip_k_taken(s: MachineView, use_eq: bool, x: int, kk: u8) -> bool {
    if use_eq {
        s.registers[x] == kk
    } else {
        s.registers[x] != kk
    }
}

/// Whether `5xy0`/`9xy0` skips.
pub open spec fn skip_r_taken(s: MachineView, use_eq: bool, x: int, y: int) -> bool {
    if use_eq {
        s.registers[x] == s.registers[y]
    } else {
        s.registers[x] != s.registers[y]
    }
}

/// Whether `Ex9E`/`ExA1` skips.
pub open spec fn skip_i_taken(s: MachineView, key_down: bool, x: int) -> bool {
    let pressed = s.keys[s.registers[x] as int];
    if key_down {
        pressed
    } else {
        !pressed
    }
}

/// What executing `op` does to the machine.
pub open spec fn step(s: MachineView, op: Operation) -> MachineView {
    match op {
        Operation::Clear => MachineView {
            display: Seq::new(DISPLAY_PIXELS as nat, |p: int| false),
            ..s
        },
        Operation::SetPc(a) => MachineView { pc: a, ..s },
        Operation::SetI(a) => MachineView { i: a, ..s },
        Operation::AddI(x) => MachineView { i: ((s.i + s.registers[x as int]) % 0x10000) as u16, ..s },
        Operation::SetRg(x, kk) => with_reg(s, x as int, kk),
        Operation::AddReg(x, kk) => with_reg(s, x as int, ((s.registers[x as int] + kk) % 256) as u8),
        Operation::SplitReg(x) => {
            let v = s.registers[x as int];
            MachineView {
                memory: s.memory.update(s.i as int, v / 100).update(s.i + 1, (v / 10) % 10).update(
                    s.i + 2,
                    v % 10,
                ),
                ..s
            }
        },
        Operation::Arithmetic(code, x, y) => arithmetic(s, code, x as int, y as int),
        Operation::Random(x, kk) => {
            let r = lcg_next(s.rng_state);
            with_reg(MachineView { rng_state: r, ..s }, x as int, random_byte(r) & kk)
        },
        Operation::SkipK(use_eq, x, kk) => skip_when(s, skip_k_taken(s, use_eq, x as int, kk)),
        Operation::SkipR(use_eq, x, y) => skip_when(s, skip_r_taken(s, use_eq, x as int, y as int)),
        Operation::SkipI(key_down, x) => skip_when(s, skip_i_taken(s, key_down, x as int)),
        Operation::Call(a) => MachineView { stack: s.stack.push(s.pc), pc: a, ..s },
        Operation::GetFont(x) => MachineView {
            i: (FONT_ADDR_START + CHAR_SIZE * s.registers[x as int]) as u16,
            ..s
        },
        Operation::Display(x, y, n) => draw(s, x as int, y as int, n as int),
        Operation::Write(x) => MachineView {
            memory: Seq::new(
                s.memory.len(),
                |k: int|
                    if s.i <= k <= s.i + x {
                        s.registers[k - s.i]
                    } else {
                        s.memory[k]
                    },
            ),
            ..s
        },
        Operation::Read(x) => MachineView {
            registers: Seq::new(
                s.registers.len(),
                |r: int|
                    if r <= x {
                        s.memory[s.i + r]
                    } else {
                        s.registers[r]
                    },
            ),
            ..s
        },
        Operation::Return => MachineView { pc: s.stack.last(), stack: s.stack.drop_last(), ..s },
        Operation::CopyDelay(x) => with_reg(s, x as int, s.dt),
        Operation::WaitKey(x) => MachineView { waiting_for_key: Some(x), ..s },
        Operation::SetDelay(x) => MachineView { dt: s.registers[x as int], ..s },
        Operation::SetSound(x) => MachineView { st: s.registers[x as int], ..s },
        Operation::Unsupported => s,
        Operation::Nop => s,
    }
}

/// Whether a skip that is taken would carry the program counter past its largest value.
pub open spec fn skip_overflows(s: MachineView, taken: bool) -> bool {
    taken && s.pc + INSTRUCTION_SIZE > u16::MAX
}

/// What stops `op` (fetched as `opcode`) from executing, if anything does.
pub open spec fn op_fault(s: MachineView, op: Operation, opcode: u16) -> Option<Fault> {
    match op {
        Operation::Unsupported => Some(Fault::InvalidInstruction(opcode)),
        Operation::Return => if s.stack.len() == 0 {
            Some(Fault::ReturnWithEmptyStack)
        } else {
            None
        },
        Operation::SplitReg(_) => if s.i + 2 >= MEMORY_SIZE {
            Some(Fault::MemoryOutOfRange)
        } else {
            None
        },
        Operation::Display(_, _, n) => if s.i + n > MEMORY_SIZE {
            Some(Fault::MemoryOutOfRange)
        } else {
            None
        },
        Operation::Write(x) => if s.i + x >= MEMORY_SIZE {
            Some(Fault::MemoryOutOfRange)
        } else {
            None
        },
        Operation::Read(x) => if s.i + x >= MEMORY_SIZE {
            Some(Fault::MemoryOutOfRange)
        } else {
            None
        },
        Operation::SkipK(use_eq, x, kk) => if skip_overflows(s, skip_k_taken(s, use_eq, x as int, kk)) {
            Some(Fault::ProgramCounterOverflow)
        } else {
            None
        },
        Operation::SkipR(use_eq, x, y) => if skip_overflows(
            s,
            skip_r_taken(s, use_eq, x as int, y as int),
        ) {
            Some(Fault::ProgramCounterOverflow)
        } else {
            None
        },
        Operation::SkipI(key_down, x) => if s.registers[x as int] >= 16 {
            Some(Fault::KeyOutOfRange)
        } else if skip_overflows(s, skip_i_taken(s, key_down, x as int)) {
            Some(Fault::ProgramCounterOverflow)
        } else {
            None
        },
        _ => None,
    }
}

/// Whether `op` can be executed on `s`. (The opcode argument of `op_fault`
/// only labels an invalid instruction, so any value serves here.)
pub open spec fn can_execute(s: MachineView, op: Operation) -> bool {
    op_fault(s, op, 0) is None
}

/// Executing an instruction keeps the machine's sizes and bounds.
pub proof fn lemma_step_wf(s: MachineView, op: Operation)
    requires
        s.wf(),
        op.wf(),
        can_execute(s, op),
    ensures
        step(s, op).wf(),
{
    match op {
        Operation::Display(x, y, n) => {
            lemma_drawn_len(s.display, sprite_at(s, n as int), s.registers[x as int], s.registers[y as int], (8 * n) as nat);
        },
        _ => {},
    }
}

/// Drawing keeps the display's size.
pub proof fn lemma_drawn_len(d: Seq<bool>, sprite: Seq<u8>, vx: u8, vy: u8, k: nat)
    requires
        d.len() == DISPLAY_PIXELS,
    ensures
        drawn(d, sprite, vx, vy, k).len() == DISPLAY_PIXELS,
    decreases k,
{
    if k > 0 {
        lemma_drawn_len(d, sprite, vx, vy, (k - 1) as nat);
    }
}

pub proof fn lemma_pixel_in_range(vx: u8, vy: u8, k: int)
    requires
        k >= 0,
    ensures
        0 <= pixel_of(vx, vy, k) < DISPLAY_PIXELS,
{
}

impl Machine {
    /// What would stop `op`, fetched as `opcode`, from executing once the
    /// program counter stands at `pc`.
    pub(crate) fn check_op(&self, op: Operation, opcode: u16, pc: u16) -> (f: Option<Fault>)
        requires
            self@.wf(),
            op.wf(),
        ensures
            f == op_fault(MachineView { pc: pc, ..self@ }, op, opcode),
    {
        let ghost s = MachineView { pc: pc, ..self@ };
        let overflow = pc > u16::MAX - INSTRUCTION_SIZE;
        match op {
            Operation::Unsupported => Some(Fault::InvalidInstruction(opcode)),
            Operation::Return => if self.stack.len() == 0 {
                Some(Fault::ReturnWithEmptyStack)
            } else {
                None
            },
            Operation::SplitReg(_) => if self.i as usize + 2 >= MEMORY_SIZE {
                Some(Fault::MemoryOutOfRange)
            } else {
                None
            },
            Operation::Display(_, _, n) => if n > MEMORY_SIZE || self.i as usize > MEMORY_SIZE - n {
                Some(Fault::MemoryOutOfRange)
            } else {
                None
            },
            Operation::Write(x) => if self.i as usize + x >= MEMORY_SIZE {
                Some(Fault::MemoryOutOfRange)
            } else {
                None
            },
            Operation::Read(x) => if self.i as usize + x >= MEMORY_SIZE {
                Some(Fault::MemoryOutOfRange)
            } else {
                None
            },
            Operation::SkipK(use_eq, x, kk) => {
                let vx = self.registers[x];
                let taken = if use_eq { vx == kk } else { vx != kk };
                if taken && overflow {
                    Some(Fault::ProgramCounterOverflow)
                } else {
                    None
                }
            },
            Operation::SkipR(use_eq, x, y) => {
                let (vx, vy) = (self.registers[x], self.registers[y]);
                let taken = if use_eq { vx == vy } else { vx != vy };
                if taken && overflow {
                    Some(Fault::ProgramCounterOverflow)
                } else {
                    None
                }
            },
            Operation::SkipI(key_down, x) => {
                let vx = self.registers[x] as usize;
                if vx >= 16 {
                    Some(Fault::KeyOutOfRange)
                } else {
                    let pressed = self.keys[vx];
                    let taken = if key_down { pressed } else { !pressed };
                    if taken && overflow {
                        Some(Fault::ProgramCounterOverflow)
                    } else {
                        None
                    }
                }
            },
            _ => None,
        }
    }

    /// Executes one instruction.
    pub fn execute(&mut self, op: Operation)
        requires
            old(self)@.wf(),
            op.wf(),
            can_execute(old(self)@, op),
        ensures
            final(self)@ == step(old(self)@, op),
            final(self)@.wf(),
    {
        proof {
            lemma_step_wf(old(self)@, op);
        }
        match op {
            Operation::Clear => self.display_buf = [false; DISPLAY_PIXELS],
            Operation::SetPc(x) => self.pc = x,
            Operation::SetI(x) => self.i = x,
            Operation::AddI(x) => {
                let vx = self.registers[x];
                let res = self.i.wrapping_add(vx as u16);
                self.i = res;
            },
            Operation::SetRg(i, x) => self.registers[i] = x,
            Operation::AddReg(x, kk) => {
                let vx = self.registers[x];
                let res = vx.wrapping_add(kk);
                self.registers[x] = res;
            },
            Operation::SplitReg(x) => {
                let vx = self.registers[x];
                let i = self.i as usize;
                self.memory[i] = vx / 100;
                self.memory[i + 1] = (vx / 10) % 10;
                self.memory[i + 2] = vx % 10;
            },
            Operation::Arithmetic(code, x, y) => self.arithmetic(code, x, y),
            Operation::Random(x, kk) => {
                let rnd = self.next_random();
                self.registers[x] = rnd & kk;
            },
            Operation::SkipK(use_eq, x, kk) => {
                let vx = self.registers[x];
                let skip = if use_eq { vx == kk } else { vx != kk };
                if skip {
                    self.pc += INSTRUCTION_SIZE;
                }
            },
            Operation::SkipR(use_eq, x, y) => {
                let (vx, vy) = (self.registers[x], self.registers[y]);
                let skip = if use_eq { vx == vy } else { vx != vy };
                if skip {
                    self.pc += INSTRUCTION_SIZE;
                }
            },
            Operation::SkipI(con_key_down, x) => {
                let vx = self.registers[x] as usize;
                let key_pressed = self.keys[vx];
                let skip = if con_key_down { key_pressed } else { !key_pressed };
                if skip {
                    self.pc += INSTRUCTION_SIZE;
                }
            },
            Operation::Call(nnn) => {
                self.stack.push(self.pc);
                self.pc = nnn;
            },
            Operation::GetFont(x) => {
                let vx = self.registers[x];
                let addr = FONT_ADDR_START + (CHAR_SIZE * vx as u16);
                self.i = addr;
            },
            Operation::Display(x, y, n) => self.draw_sprite(x, y, n),
            Operation::Write(x) => self.write_registers(x),
            Operation::Read(x) => self.read_registers(x),
            Operation::Return => {
                let top = self.stack.pop();
                match top {
                    Some(a) => self.pc = a,
                    None => {},
                }
            },
            Operation::CopyDelay(x) => self.registers[x] = self.dt,
            Operation::WaitKey(x) => self.waiting_for_key = Some(x),
            Operation::SetDelay(x) => self.dt = self.registers[x],
            Operation::SetSound(x) => self.st = self.registers[x],
            Operation::Unsupported => {},
            Operation::Nop => {},
        };
    }

    /// The `8xyN` family.
    fn arithmetic(&mut self, code: u8, x: usize, y: usize)
        requires
            old(self)@.wf(),
            x < 16,
            y < 16,
        ensures
            final(self)@ == arithmetic(old(self)@, code, x as int, y as int),
    {
        let (vx, vy) = (self.registers[x], self.registers[y]);
        match code {
            0 => self.registers[x] = vy,
            1 => self.registers[x] = vx | vy,
            2 => self.registers[x] = vx & vy,
            3 => self.registers[x] = vx ^ vy,
            4 => {
                let res = vx.wrapping_add(vy);
                let overflow = vx as u16 + vy as u16 > 255;
                self.registers[REG_VF] = if overflow { 1 } else { 0 };
                self.registers[x] = res;
            },
            5 => {
                let res = vx.wrapping_sub(vy);
                self.registers[REG_VF] = if vx >= vy { 1 } else { 0 };
                self.registers[x] = res;
            },
            6 => {
                assert(vx & 1 == vx % 2) by (bit_vector);
                assert(vx >> 1 == vx / 2) by (bit_vector);
                self.registers[REG_VF] = if vx & 1 == 1 { 1 } else { 0 };
                self.registers[x] = vx >> 1;
            },
            7 => {
                let res = vy.wrapping_sub(vx);
                self.registers[REG_VF] = if vy >= vx { 1 } else { 0 };
                self.registers[x] = res;
            },
            8 => {
                assert((vx >> 7) & 1 == vx / 128) by (bit_vector);
                assert(vx << (1u32 % 8) == ((vx * 2) % 256) as u8) by (bit_vector);
                let msb = (vx >> 7) & 1;
                self.registers[REG_VF] = if msb == 1 { 1 } else { 0 };
                self.registers[x] = vx.wrapping_shl(1);
            },
            _ => {},
        }
        assert(self@ =~= arithmetic(old(self)@, code, x as int, y as int));
    }

    /// `Fx55`: stores `V0`..=`Vx` at the index register.
    fn write_registers(&mut self, x: usize)
        requires
            old(self)@.wf(),
            x < 16,
            old(self)@.i + x < MEMORY_SIZE,
        ensures
            final(self)@ == step(old(self)@, Operation::Write(x)),
    {
        let ghost s0 = self@;
        let i = self.i as usize;
        let mut reg: usize = 0;
        while reg <= x
            invariant
                s0 == old(self)@,
                s0.wf(),
                x < 16,
                i == s0.i,
                i + x < MEMORY_SIZE,
                reg <= x + 1,
                self@ == (MachineView { memory: self@.memory, ..s0 }),
                self@.memory.len() == MEMORY_SIZE,
                forall|k: int|
                    0 <= k < MEMORY_SIZE ==> #[trigger] self@.memory[k] == if i <= k < i + reg {
                        s0.registers[k - i]
                    } else {
                        s0.memory[k]
                    },
            decreases x + 1 - reg,
        {
            self.memory[i + reg] = self.registers[reg];
            reg += 1;
        }
        assert(self@ =~= step(s0, Operation::Write(x)));
    }

    /// `Fx65`: loads `V0`..=`Vx` from the index register.
    fn read_registers(&mut self, x: usize)
        requires
            old(self)@.wf(),
            x < 16,
            old(self)@.i + x < MEMORY_SIZE,
        ensures
            final(self)@ == step(old(self)@, Operation::Read(x)),
    {
        let ghost s0 = self@;
        let i = self.i as usize;
        let mut reg: usize = 0;
        while reg <= x
            invariant
                s0 == old(self)@,
                s0.wf(),
                x < 16,
                i == s0.i,
                i + x < MEMORY_SIZE,
                reg <= x + 1,
                self@ == (MachineView { registers: self@.registers, ..s0 }),
                self@.registers.len() == 16,
                forall|r: int|
                    0 <= r < 16 ==> #[trigger] self@.registers[r] == if r < reg {
                        s0.memory[i + r]
                    } else {
                        s0.registers[r]
                    },
            decreases x + 1 - reg,
        {
            self.registers[reg] = self.memory[i + reg];
            reg += 1;
        }
        assert(self@ =~= step(s0, Operation::Read(x)));
    }

    /// `Dxyn`: XORs the `n`-byte sprite at the index register onto the display
    /// at (`Vx`, `Vy`) and sets `VF` when a lit pixel is turned off.
    fn draw_sprite(&mut self, x: u8, y: u8, n: usize)
        requires
            old(self)@.wf(),
            x < 16,
            y < 16,
            old(self)@.i + n <= MEMORY_SIZE,
        ensures
            final(self)@ == draw(old(self)@, x as int, y as int, n as int),
    {
        let ghost s0 = self@;
        let vx = self.registers[x as usize];
        let vy = self.registers[y as usize];
        self.registers[REG_VF] = 0;
        let start = self.i as usize;
        let ghost sprite = sprite_at(s0, n as int);
        let mut row: usize = 0;
        while row < n
            invariant
                s0 == old(self)@,
                s0.wf(),
                start == s0.i,
                start + n <= MEMORY_SIZE,
                row <= n,
                vx == s0.registers[x as int],
                vy == s0.registers[y as int],
                sprite == sprite_at(s0, n as int),
                self@ == (MachineView { display: self@.display, registers: self@.registers, ..s0 }),
                self@.registers == s0.registers.update(
                    REG_VF as int,
                    flag(collided(s0.display, sprite, vx, vy, (8 * row) as nat)),
                ),
                self@.display == drawn(s0.display, sprite, vx, vy, (8 * row) as nat),
            decreases n - row,
        {
            let byte = self.memory[start + row];
            assert(byte == sprite[row as int]);
            let mut bit_pos: u8 = 0;
            while bit_pos < 8
                invariant
                    s0 == old(self)@,
                    s0.wf(),
                    start == s0.i,
                    start + n <= MEMORY_SIZE,
                    row < n,
                    bit_pos <= 8,
                    vx == s0.registers[x as int],
                    vy == s0.registers[y as int],
                    sprite == sprite_at(s0, n as int),
                    byte == sprite[row as int],
                    self@ == (MachineView { display: self@.display, registers: self@.registers, ..s0 }),
                    self@.registers == s0.registers.update(
                        REG_VF as int,
                        flag(collided(s0.display, sprite, vx, vy, (8 * row + bit_pos) as nat)),
                    ),
                    self@.display == drawn(s0.display, sprite, vx, vy, (8 * row + bit_pos) as nat),
                decreases 8 - bit_pos,
            {
                let ghost k: int = 8 * row + bit_pos;
                assert(k / 8 == row && k % 8 == bit_pos);
                proof {
                    lemma_drawn_len(s0.display, sprite, vx, vy, k as nat);
                }
                let px = (vx as usize + bit_pos as usize) % 64;
                let py = (vy as usize + row) % 32;
                let pos = py * 64 + px;
                assert(pos == pixel_of(vx, vy, k));
                let sprite_pixel = ((byte >> (7 - bit_pos)) & 1) == 1;
                assert(sprite_pixel == sprite_bit(sprite, k));
                let prev = self.display_buf[pos];
                self.display_buf[pos] = prev ^ sprite_pixel;
                if prev && !self.display_buf[pos] {
                    self.registers[REG_VF] = 1;
                }
                bit_pos += 1;
                assert(self@.display =~= drawn(s0.display, sprite, vx, vy, (k + 1) as nat));
                assert(self@.registers =~= s0.registers.update(
                    REG_VF as int,
                    flag(collided(s0.display, sprite, vx, vy, (k + 1) as nat)),
                ));
            }
            row += 1;
        }
        assert(self@ =~= draw(s0, x as int, y as int, n as int));
    }
}

} // verus!
