//! The CHIP-8 machine: memory, registers, call stack, timers, keypad and display.
use vstd::prelude::*;

use crate::parser;
use crate::parser::{spec_decode, spec_key_to_chip8};

pub mod execute;

use self::execute::{op_fault, step};

verus! {

/// Number of bytes in one instruction.
pub const INSTRUCTION_SIZE: u16 = 2;
/// Index of the flag register `VF`.
pub const REG_VF: usize = 15;
/// Address of the first byte of the built-in font.
pub const FONT_ADDR_START: u16 = 0x50;
/// Address at which programs are loaded and execution starts.
pub const USABLE_ADDR_START: u16 = 0x200;
/// Number of bytes in one font glyph.
pub const CHAR_SIZE: u16 = 5;
/// Number of pixels of the 64x32 display.
pub const DISPLAY_PIXELS: usize = 64 * 32;
/// Number of bytes of memory.
pub const MEMORY_SIZE: usize = 4096;
/// Largest program that fits between the load address and the end of memory.
pub const MAX_PROGRAM_SIZE: usize = 3584;
/// Length of one timer tick in nanoseconds: a sixtieth of a second, rounded up.
pub const SYNC_PERIOD_NANOS: u64 = 16_666_667;
/// The sixteen hexadecimal digit glyphs, five bytes each.
pub const FONT: [u8; 80] = [
    0xF0, 0x90, 0x90, 0x90, 0xF0, 0x20, 0x60, 0x20, 0x20, 0x70, 0xF0, 0x10, 0xF0, 0x80, 0xF0, 0xF0,
    0x10, 0xF0, 0x10, 0xF0, 0x90, 0x90, 0xF0, 0x10, 0x10, 0xF0, 0x80, 0xF0, 0x10, 0xF0, 0xF0, 0x80,
    0xF0, 0x90, 0xF0, 0xF0, 0x10, 0x20, 0x40, 0x40, 0xF0, 0x90, 0xF0, 0x90, 0xF0, 0xF0, 0x90, 0xF0,
    0x10, 0xF0, 0xF0, 0x90, 0xF0, 0x90, 0x90, 0xE0, 0x90, 0xE0, 0x90, 0xE0, 0xF0, 0x80, 0x80, 0x80,
    0xF0, 0xE0, 0x90, 0x90, 0x90, 0xE0, 0xF0, 0x80, 0xF0, 0x80, 0xF0, 0xF0, 0x80, 0xF0, 0x80, 0x80,
];

/// Multiplier of the random number generator.
pub const LCG_A: u64 = 6364136223846793005;
/// Increment of the random number generator.
pub const LCG_C: u64 = 1442695040888963407;

/// Why a machine step cannot be carried out.
#[derive(Debug, Clone, Copy, PartialEq, Eq, Structural)]
pub enum Fault {
    /// The opcode does not stand for an implemented instruction.
    InvalidInstruction(u16),
    /// `00EE` with no return address on the stack.
    ReturnWithEmptyStack,
    /// A memory access at the index register runs past the end of memory.
    MemoryOutOfRange,
    /// A key-skip instruction names a key above `F`.
    KeyOutOfRange,
    /// The program counter would pass the largest address it can hold.
    ProgramCounterOverflow,
}

/// The state of a machine as plain values.
#[verifier::ext_equal]
pub struct MachineView {
    pub memory: Seq<u8>,
    pub registers: Seq<u8>,
    pub stack: Seq<u16>,
    pub i: u16,
    pub pc: u16,
    pub dt: u8,
    pub st: u8,
    /// Time of the last timer tick, in nanoseconds on the caller's clock.
    pub last_sync: u64,
    pub display: Seq<bool>,
    pub program_size: u16,
    pub rng_state: u64,
    pub keys: Seq<bool>,
    /// The register that receives the next key press, while `Fx0A` waits.
    pub waiting_for_key: Option<usize>,
    /// Whether the caller asked for a state dump after each cycle.
    pub trace: bool,
}

impl MachineView {
    /// Sizes of the memories and the bounds that the machine keeps.
    pub open spec fn wf(self) -> bool {
        &&& self.memory.len() == MEMORY_SIZE
        &&& self.registers.len() == 16
        &&& self.display.len() == DISPLAY_PIXELS
        &&& self.keys.len() == 16
        &&& self.program_size <= MAX_PROGRAM_SIZE
        &&& self.waiting_for_key matches Some(r) ==> r < 16
    }
}

/// A CHIP-8 machine.
#[derive(Debug)]
pub struct Machine {
    memory: [u8; 4096],
    registers: [u8; 16],
    stack: Vec<u16>,
    i: u16,
    pc: u16,
    dt: u8,
    st: u8,
    last_sync: u64,
    display_buf: [bool; DISPLAY_PIXELS],
    program_size: u16,
    rng_state: u64,
    keys: [bool; 16],
    waiting_for_key: Option<usize>,
    trace: bool,
}

impl View for Machine {
    type V = MachineView;

    closed spec fn view(&self) -> MachineView {
        MachineView {
            memory: self.memory@,
            registers: self.registers@,
            stack: self.stack@,
            i: self.i,
            pc: self.pc,
            dt: self.dt,
            st: self.st,
            last_sync: self.last_sync,
            display: self.display_buf@,
            program_size: self.program_size,
            rng_state: self.rng_state,
            keys: self.keys@,
            waiting_for_key: self.waiting_for_key,
            trace: self.trace,
        }
    }
}

/// Memory of a fresh machine: the font at its address, zero elsewhere.
pub open spec fn initial_memory() -> Seq<u8> {
    Seq::new(
        MEMORY_SIZE as nat,
        |k: int|
            if FONT_ADDR_START <= k < FONT_ADDR_START + 80 {
                FONT@[k - FONT_ADDR_START]
            } else {
                0u8
            },
    )
}

/// A fresh machine whose random number generator starts from `seed`.
pub open spec fn initial_state(seed: u64) -> MachineView {
    MachineView {
        memory: initial_memory(),
        registers: Seq::new(16, |r: int| 0u8),
        stack: Seq::empty(),
        i: 0,
        pc: USABLE_ADDR_START,
        dt: 0,
        st: 0,
        last_sync: 0,
        display: Seq::new(DISPLAY_PIXELS as nat, |p: int| false),
        program_size: 0,
        rng_state: seed,
        keys: Seq::new(16, |k: int| false),
        waiting_for_key: None,
        trace: false,
    }
}

/// The machine after a program image is placed at the load address.
pub open spec fn loaded(s: MachineView, rom: Seq<u8>) -> MachineView {
    MachineView {
        memory: Seq::new(
            s.memory.len(),
            |k: int|
                if USABLE_ADDR_START <= k < USABLE_ADDR_START + rom.len() {
                    rom[k - USABLE_ADDR_START]
                } else {
                    s.memory[k]
                },
        ),
        program_size: rom.len() as u16,
        ..s
    }
}

/// The big-endian opcode stored at `addr`.
pub open spec fn opcode_at(s: MachineView, addr: int) -> u16 {
    (s.memory[addr] * 256 + s.memory[addr + 1]) as u16
}

/// Fetching the next opcode: none once the program counter has run off the
/// loaded program, else the opcode at the program counter, which moves past it.
pub open spec fn fetch(s: MachineView) -> (MachineView, Option<u16>) {
    if s.pc + 1 >= USABLE_ADDR_START + s.program_size {
        (s, None)
    } else {
        (MachineView { pc: (s.pc + INSTRUCTION_SIZE) as u16, ..s }, Some(opcode_at(s, s.pc as int)))
    }
}

/// What stops the next cycle, if anything does.
pub open spec fn cycle_fault(s: MachineView) -> Option<Fault> {
    if s.waiting_for_key is Some {
        None
    } else if s.pc == u16::MAX {
        Some(Fault::ProgramCounterOverflow)
    } else {
        match fetch(s).1 {
            None => None,
            Some(opcode) => op_fault(fetch(s).0, spec_decode(opcode), opcode),
        }
    }
}

/// One cycle: nothing while a key is awaited or the program has ended,
/// else fetch, decode and execute one instruction.
pub open spec fn spec_cycle(s: MachineView) -> MachineView {
    if s.waiting_for_key is Some {
        s
    } else {
        match fetch(s).1 {
            None => s,
            Some(opcode) => step(fetch(s).0, spec_decode(opcode)),
        }
    }
}

/// A key named `key` going down or up.
pub open spec fn spec_set_key(s: MachineView, key: Seq<char>, pressed: bool) -> MachineView {
    match spec_key_to_chip8(key) {
        Some(k) => MachineView { keys: s.keys.update(k as int, pressed), ..s },
        None => s,
    }
}

/// A key press event: it answers a pending `Fx0A` (storing the key and
/// leaving the held keys alone), or else marks the key held.
pub open spec fn spec_key_pressed(s: MachineView, key: Seq<char>) -> MachineView {
    match spec_key_to_chip8(key) {
        Some(k) => match s.waiting_for_key {
            Some(r) => MachineView {
                registers: s.registers.update(r as int, k as u8),
                waiting_for_key: None,
                ..s
            },
            None => MachineView { keys: s.keys.update(k as int, true), ..s },
        },
        None => s,
    }
}

/// The lowest-numbered key that is held, if any.
pub open spec fn active_key(keys: Seq<bool>, k: Option<u8>) -> bool {
    match k {
        Some(k) => k < keys.len() && keys[k as int] && forall|j: int| 0 <= j < k ==> !keys[j],
        None => forall|j: int| 0 <= j < keys.len() ==> !keys[j],
    }
}

/// One timer decrement, stopping at zero.
pub open spec fn tick_down(t: u8) -> u8 {
    if t > 0 {
        (t - 1) as u8
    } else {
        0
    }
}

/// Whether a tick is due at time `now`: a full period has passed since the last one.
pub open spec fn tick_due(s: MachineView, now: u64) -> bool {
    now >= s.last_sync && now - s.last_sync >= SYNC_PERIOD_NANOS
}

/// The timers at time `now`: when a tick is due both count down once and
/// the tick time moves to `now`; otherwise nothing changes.
pub open spec fn spec_sync_timers(s: MachineView, now: u64) -> MachineView {
    if tick_due(s, now) {
        MachineView { dt: tick_down(s.dt), st: tick_down(s.st), last_sync: now, ..s }
    } else {
        s
    }
}

/// The next state of the random number generator.
pub open spec fn lcg_next(state: u64) -> u64 {
    ((state * LCG_A + LCG_C) % 0x1_0000_0000_0000_0000int) as u64
}

/// The byte that the generator hands out from a state: bits 24 to 31.
pub open spec fn random_byte(state: u64) -> u8 {
    ((state / 0x100_0000) % 0x100) as u8
}

impl Machine {
    /// A fresh machine: the font at its address, everything else cleared,
    /// execution starting at the load address, and the random number
    /// generator seeded with `seed`.
    pub fn new(seed: u64) -> (m: Self)
        ensures
            m@ == initial_state(seed),
            m@.wf(),
    {
        let mut machine = Machine {
            memory: [0u8; 4096],
            registers: [0u8; 16],
            stack: Vec::new(),
            i: 0,
            pc: USABLE_ADDR_START,
            dt: 0,
            st: 0,
            last_sync: 0,
            display_buf: [false; DISPLAY_PIXELS],
            program_size: 0,
            rng_state: seed,
            keys: [false; 16],
            waiting_for_key: None,
            trace: false,
        };
        let mut k: usize = 0;
        while k < 80
            invariant
                k <= 80,
                machine@.memory.len() == MEMORY_SIZE,
                forall|j: int|
                    0 <= j < MEMORY_SIZE ==> #[trigger] machine@.memory[j] == if FONT_ADDR_START
                        <= j < FONT_ADDR_START + k {
                        FONT@[j - FONT_ADDR_START]
                    } else {
                        0u8
                    },
                machine@.registers == Seq::new(16, |r: int| 0u8),
                machine@.stack == Seq::<u16>::empty(),
                machine@.display == Seq::new(DISPLAY_PIXELS as nat, |p: int| false),
                machine@.keys == Seq::new(16, |j: int| false),
                machine.i == 0,
                machine.pc == USABLE_ADDR_START,
                machine.dt == 0,
                machine.st == 0,
                machine.last_sync == 0,
                machine.program_size == 0,
                machine.rng_state == seed,
                machine.waiting_for_key is None,
                machine.trace == false,
            decreases 80 - k,
        {
            machine.memory[0x50 + k] = FONT[k];
            k += 1;
        }
        assert(machine@.memory =~= initial_memory());
        machine
    }

    /// Places a program image at the load address (`0x200`) and records its size.
    pub fn load(&mut self, rom: &[u8])
        requires
            old(self)@.wf(),
            rom@.len() <= MAX_PROGRAM_SIZE,
        ensures
            final(self)@ == loaded(old(self)@, rom@),
            final(self)@.wf(),
    {
        let n = rom.len();
        let mut k: usize = 0;
        while k < n
            invariant
                n == rom@.len(),
                n <= MAX_PROGRAM_SIZE,
                k <= n,
                self@ == (MachineView { memory: self@.memory, ..old(self)@ }),
                self@.memory.len() == MEMORY_SIZE,
                forall|j: int|
                    0 <= j < MEMORY_SIZE ==> #[trigger] self@.memory[j] == if USABLE_ADDR_START
                        <= j < USABLE_ADDR_START + k {
                        rom@[j - USABLE_ADDR_START]
                    } else {
                        old(self)@.memory[j]
                    },
            decreases n - k,
        {
            self.memory[0x200 + k] = rom[k];
            k += 1;
        }
        self.program_size = n as u16;
        assert(self@.memory =~= loaded(old(self)@, rom@).memory);
    }

    /// Fetches the opcode at the program counter and moves past it, or gives
    /// nothing once the program counter has run off the loaded program.
    fn read(&mut self) -> (op: Option<u16>)
        requires
            old(self)@.wf(),
            old(self)@.pc != u16::MAX,
        ensures
            (final(self)@, op) == fetch(old(self)@),
    {
        if self.pc + 1 >= USABLE_ADDR_START + self.program_size {
            return None;
        }
        let (high, low) = (self.memory[self.pc as usize] as u16, self.memory[self.pc as usize + 1] as u16);
        self.pc += INSTRUCTION_SIZE;
        assert((high << 8) | low == high * 256 + low) by (bit_vector)
            requires
                high < 256,
                low < 256,
        ;
        Some((high << 8) | low)
    }

    /// Marks the keypad key named `key` as held or released; other names are ignored.
    pub fn set_key(&mut self, key: &str, pressed: bool)
        requires
            old(self)@.wf(),
        ensures
            final(self)@ == spec_set_key(old(self)@, key@, pressed),
            final(self)@.wf(),
    {
        if let Some(key) = parser::key_to_chip8(key) {
            self.keys[key] = pressed;
        }
    }

    /// A key press event: answers a pending `Fx0A` with the key, or else
    /// marks the key held; other names are ignored.
    pub fn key_pressed(&mut self, key: &str)
        requires
            old(self)@.wf(),
        ensures
            final(self)@ == spec_key_pressed(old(self)@, key@),
            final(self)@.wf(),
    {
        if let Some(chip8_key) = parser::key_to_chip8(key) {
            if let Some(reg) = self.waiting_for_key {
                self.registers[reg] = chip8_key as u8;
                self.waiting_for_key = None;
            } else {
                self.set_key(key, true);
            }
        }
    }

    /// The lowest-numbered key that is held, if any.
    pub fn get_active_key(&self) -> (k: Option<u8>)
        ensures
            active_key(self@.keys, k),
    {
        let mut i: usize = 0;
        while i < 16
            invariant
                i <= 16,
                self@.keys.len() == 16,
                forall|j: int| 0 <= j < i ==> !self@.keys[j],
            decreases 16 - i,
        {
            if self.keys[i] {
                return Some(i as u8);
            }
            i += 1;
        }
        None
    }

    /// Counts both timers down once when a full tick (a sixtieth of a
    /// second) has passed since the last one. `now` is the time in
    /// nanoseconds since the machine was created.
    pub fn sync_timers(&mut self, now: u64)
        requires
            old(self)@.wf(),
        ensures
            final(self)@ == spec_sync_timers(old(self)@, now),
            final(self)@.wf(),
    {
        if now >= self.last_sync && now - self.last_sync >= SYNC_PERIOD_NANOS {
            if self.dt > 0 {
                self.dt -= 1;
            }
            if self.st > 0 {
                self.st -= 1;
            }
            self.last_sync = now;
        }
    }

    /// What would stop the next cycle, if anything would.
    pub fn fault(&self) -> (f: Option<Fault>)
        requires
            self@.wf(),
        ensures
            f == cycle_fault(self@),
    {
        if self.waiting_for_key.is_some() {
            return None;
        }
        if self.pc == u16::MAX {
            return Some(Fault::ProgramCounterOverflow);
        }
        if self.pc + 1 >= USABLE_ADDR_START + self.program_size {
            return None;
        }
        let (high, low) = (self.memory[self.pc as usize] as u16, self.memory[self.pc as usize + 1] as u16);
        assert((high << 8) | low == high * 256 + low) by (bit_vector)
            requires
                high < 256,
                low < 256,
        ;
        let opcode = (high << 8) | low;
        let op = parser::decode(opcode);
        self.check_op(op, opcode, self.pc + INSTRUCTION_SIZE)
    }

    /// One machine cycle: nothing while a key is awaited or after the
    /// program has ended; otherwise fetch, decode and execute one instruction.
    pub fn cycle(&mut self)
        requires
            old(self)@.wf(),
            cycle_fault(old(self)@) is None,
        ensures
            final(self)@ == spec_cycle(old(self)@),
            final(self)@.wf(),
    {
        if self.waiting_for_key.is_some() {
            return;
        }
        if let Some(opcode) = self.read() {
            let op = parser::decode(opcode);
            proof {
                parser::lemma_decode_wf(opcode);
            }
            self.execute(op);
        }
    }

    /// One machine cycle when nothing stops it; otherwise the reason, with
    /// the machine left as it was.
    pub fn try_cycle(&mut self) -> (r: Result<(), Fault>)
        requires
            old(self)@.wf(),
        ensures
            final(self)@.wf(),
            match r {
                Ok(()) => cycle_fault(old(self)@) is None && final(self)@ == spec_cycle(old(self)@),
                Err(f) => cycle_fault(old(self)@) == Some(f) && final(self)@ == old(self)@,
            },
    {
        match self.fault() {
            Some(f) => Err(f),
            None => {
                self.cycle();
                Ok(())
            },
        }
    }

    /// Steps the generator and hands out bits 24 to 31 of its new state.
    fn next_random(&mut self) -> (r: u8)
        ensures
            final(self)@ == (MachineView { rng_state: lcg_next(old(self)@.rng_state), ..old(self)@ }),
            r == random_byte(lcg_next(old(self)@.rng_state)),
    {
        let ghost s = self.rng_state;
        self.rng_state = self.rng_state.wrapping_mul(LCG_A).wrapping_add(LCG_C);
        proof {
            lemma_lcg_wrapping(s);
        }
        let r = (self.rng_state >> 24) as u8;
        let ghost t = self.rng_state;
        assert((t >> 24) as u8 == ((t / 0x100_0000) % 0x100) as u8) by (bit_vector);
        r
    }

    /// The display, one flag per pixel, row by row.
    pub fn display_buf(&self) -> (buf: &[bool; DISPLAY_PIXELS])
        ensures
            buf@ == self@.display,
    {
        &self.display_buf
    }

    /// Whether the tone should sound: the sound timer is running.
    pub fn can_play_sound(&self) -> (b: bool)
        ensures
            b == (self@.st > 0),
    {
        self.st > 0
    }

    /// Asks for a state dump after each cycle.
    pub fn debug(&mut self)
        ensures
            final(self)@ == (MachineView { trace: true, ..old(self)@ }),
    {
        self.trace = true;
    }

    /// Whether a state dump after each cycle was asked for.
    pub fn tracing(&self) -> (b: bool)
        ensures
            b == self@.trace,
    {
        self.trace
    }

    /// The memory.
    pub fn memory(&self) -> (m: &[u8; 4096])
        ensures
            m@ == self@.memory,
    {
        &self.memory
    }

    /// The registers `V0`..=`VF`.
    pub fn registers(&self) -> (r: &[u8; 16])
        ensures
            r@ == self@.registers,
    {
        &self.registers
    }

    /// The return addresses, innermost last.
    pub fn stack(&self) -> (s: &Vec<u16>)
        ensures
            s@ == self@.stack,
    {
        &self.stack
    }

    /// The index register.
    pub fn i(&self) -> (v: u16)
        ensures
            v == self@.i,
    {
        self.i
    }

    /// The program counter.
    pub fn pc(&self) -> (v: u16)
        ensures
            v == self@.pc,
    {
        self.pc
    }

    /// The delay timer.
    pub fn dt(&self) -> (v: u8)
        ensures
            v == self@.dt,
    {
        self.dt
    }

    /// The sound timer.
    pub fn st(&self) -> (v: u8)
        ensures
            v == self@.st,
    {
        self.st
    }

    /// The held keys.
    pub fn keys(&self) -> (k: &[bool; 16])
        ensures
            k@ == self@.keys,
    {
        &self.keys
    }

    /// The register that receives the next key press, while `Fx0A` waits.
    pub fn waiting_for_key(&self) -> (w: Option<usize>)
        ensures
            w == self@.waiting_for_key,
    {
        self.waiting_for_key
    }
}

/// `wrapping_mul` then `wrapping_add` on `u64` is the generator's step.
proof fn lemma_lcg_wrapping(s: u64)
    ensures
        vstd::wrapping::u64_specs::wrapping_add(
            vstd::wrapping::u64_specs::wrapping_mul(s, LCG_A),
            LCG_C,
        ) == lcg_next(s),
{
    let m = 0x1_0000_0000_0000_0000int;
    let p = (s as int * LCG_A as int) % m;
    assert(0 <= p < m) by {
        vstd::arithmetic::div_mod::lemma_mod_bound(s as int * LCG_A as int, m);
    }
    vstd::arithmetic::div_mod::lemma_add_mod_noop(s as int * LCG_A as int, LCG_C as int, m);
    vstd::arithmetic::div_mod::lemma_small_mod(LCG_C as nat, m as nat);
    vstd::arithmetic::div_mod::lemma_small_mod(p as nat, m as nat);
    if p + LCG_C >= m {
        vstd::arithmetic::div_mod::lemma_mod_sub_multiples_vanish(p + LCG_C, m);
        vstd::arithmetic::div_mod::lemma_small_mod((p + LCG_C - m) as nat, m as nat);
    } else {
        vstd::arithmetic::div_mod::lemma_small_mod((p + LCG_C) as nat, m as nat);
    }
}

} // verus!
