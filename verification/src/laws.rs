//! Properties of the machine that span several operations.
use vstd::prelude::*;

use crate::machine::execute::{collided, drawn, pixel_of, sprite_at, sprite_bit, step};
use crate::machine::{
    fetch, initial_memory, initial_state, loaded, spec_cycle, spec_key_pressed, spec_set_key,
    spec_sync_timers,
    MachineView, CHAR_SIZE, DISPLAY_PIXELS, FONT, FONT_ADDR_START, MEMORY_SIZE, REG_VF,
    USABLE_ADDR_START,
};
use crate::parser::{spec_key_to_chip8, Operation};

verus! {

/// The display with every pixel off.
pub open spec fn blank() -> Seq<bool> {
    Seq::new(DISPLAY_PIXELS as nat, |p: int| false)
}

/// Drawing XORs a pattern onto the display that does not depend on what
/// the display held: the pattern is what drawing onto a blank display gives.
pub proof fn lemma_drawn_is_xor(d: Seq<bool>, sprite: Seq<u8>, vx: u8, vy: u8, k: nat)
    requires
        d.len() == DISPLAY_PIXELS,
    ensures
        drawn(d, sprite, vx, vy, k).len() == DISPLAY_PIXELS,
        forall|p: int|
            0 <= p < DISPLAY_PIXELS ==> #[trigger] drawn(d, sprite, vx, vy, k)[p] == (d[p]
                != drawn(blank(), sprite, vx, vy, k)[p]),
    decreases k,
{
    if k > 0 {
        lemma_drawn_is_xor(d, sprite, vx, vy, (k - 1) as nat);
        lemma_drawn_is_xor(blank(), sprite, vx, vy, (k - 1) as nat);
    }
}

/// Drawing the same sprite at the same place twice leaves the display as it was.
pub proof fn lemma_draw_twice_restores(d: Seq<bool>, sprite: Seq<u8>, vx: u8, vy: u8, k: nat)
    requires
        d.len() == DISPLAY_PIXELS,
    ensures
        drawn(drawn(d, sprite, vx, vy, k), sprite, vx, vy, k) == d,
{
    lemma_drawn_is_xor(d, sprite, vx, vy, k);
    lemma_drawn_is_xor(drawn(d, sprite, vx, vy, k), sprite, vx, vy, k);
    assert(drawn(drawn(d, sprite, vx, vy, k), sprite, vx, vy, k) =~= d);
}

/// Executing the same `Dxyn` twice (with neither coordinate in `VF`) restores
/// the display: sprites are drawn by XOR.
pub proof fn lemma_display_twice_restores(s: MachineView, x: u8, y: u8, n: usize)
    requires
        s.wf(),
        x < 15,
        y < 15,
        s.i + n <= MEMORY_SIZE,
    ensures
        step(step(s, Operation::Display(x, y, n)), Operation::Display(x, y, n)).display
            == s.display,
{
    let s1 = step(s, Operation::Display(x, y, n));
    assert(s1.registers[x as int] == s.registers[x as int]);
    assert(s1.registers[y as int] == s.registers[y as int]);
    assert(sprite_at(s1, n as int) == sprite_at(s, n as int));
    lemma_draw_twice_restores(
        s.display,
        sprite_at(s, n as int),
        s.registers[x as int],
        s.registers[y as int],
        (8 * n) as nat,
    );
}

/// Two different pixels of a sprite at most 32 rows tall land on different display pixels.
pub proof fn lemma_pixels_distinct(vx: u8, vy: u8, j: int, k: int)
    requires
        0 <= j < 256,
        0 <= k < 256,
        j != k,
    ensures
        pixel_of(vx, vy, j) != pixel_of(vx, vy, k),
{
    let (rj, cj) = (j / 8, j % 8);
    let (rk, ck) = (k / 8, k % 8);
    assert(j == 8 * rj + cj);
    assert(k == 8 * rk + ck);
    let yj = (vy + rj) % 32;
    let yk = (vy + rk) % 32;
    let xj = (vx + cj) % 64;
    let xk = (vx + ck) % 64;
    if pixel_of(vx, vy, j) == pixel_of(vx, vy, k) {
        assert(yj * 64 + xj == yk * 64 + xk);
        assert(yj == yk && xj == xk) by (nonlinear_arith)
            requires
                yj * 64 + xj == yk * 64 + xk,
                0 <= xj < 64,
                0 <= xk < 64,
        ;
        assert(rj == rk) by (nonlinear_arith)
            requires
                (vy + rj) % 32 == (vy + rk) % 32,
                0 <= rj < 32,
                0 <= rk < 32,
                0 <= vy,
        ;
        assert(cj == ck) by (nonlinear_arith)
            requires
                (vx + cj) % 64 == (vx + ck) % 64,
                0 <= cj < 8,
                0 <= ck < 8,
                0 <= vx,
        ;
    }
}

/// A display pixel that none of the first `k` sprite pixels lands on keeps its value.
proof fn lemma_drawn_untouched(d: Seq<bool>, sprite: Seq<u8>, vx: u8, vy: u8, k: nat, p: int)
    requires
        d.len() == DISPLAY_PIXELS,
        0 <= p < DISPLAY_PIXELS,
        forall|j: int| 0 <= j < k ==> pixel_of(vx, vy, j) != p,
    ensures
        drawn(d, sprite, vx, vy, k)[p] == d[p],
    decreases k,
{
    if k > 0 {
        lemma_drawn_untouched(d, sprite, vx, vy, (k - 1) as nat, p);
        crate::machine::execute::lemma_drawn_len(d, sprite, vx, vy, (k - 1) as nat);
        crate::machine::execute::lemma_pixel_in_range(vx, vy, k - 1);
    }
}

/// In a sprite at most 32 rows tall, each sprite pixel flips its display pixel exactly once.
proof fn lemma_drawn_at(d: Seq<bool>, sprite: Seq<u8>, vx: u8, vy: u8, k: nat, j: int)
    requires
        d.len() == DISPLAY_PIXELS,
        k <= 256,
        0 <= j < k,
    ensures
        drawn(d, sprite, vx, vy, k)[pixel_of(vx, vy, j)] == (d[pixel_of(vx, vy, j)] != sprite_bit(
            sprite,
            j,
        )),
    decreases k,
{
    let p = pixel_of(vx, vy, j);
    crate::machine::execute::lemma_drawn_len(d, sprite, vx, vy, (k - 1) as nat);
    crate::machine::execute::lemma_pixel_in_range(vx, vy, j);
    crate::machine::execute::lemma_pixel_in_range(vx, vy, k - 1);
    if j == k - 1 {
        assert forall|i: int| 0 <= i < k - 1 implies pixel_of(vx, vy, i) != p by {
            lemma_pixels_distinct(vx, vy, i, j);
        }
        lemma_drawn_untouched(d, sprite, vx, vy, (k - 1) as nat, p);
    } else {
        lemma_drawn_at(d, sprite, vx, vy, (k - 1) as nat, j);
        lemma_pixels_distinct(vx, vy, j, k - 1);
    }
}

/// In a sprite at most 32 rows tall, a collision is a set sprite pixel over a lit display pixel.
proof fn lemma_collided_iff(d: Seq<bool>, sprite: Seq<u8>, vx: u8, vy: u8, k: nat)
    requires
        d.len() == DISPLAY_PIXELS,
        k <= 256,
    ensures
        collided(d, sprite, vx, vy, k) <==> exists|j: int|
            0 <= j < k && #[trigger] d[pixel_of(vx, vy, j)] && sprite_bit(sprite, j),
    decreases k,
{
    if k > 0 {
        lemma_collided_iff(d, sprite, vx, vy, (k - 1) as nat);
        let p = pixel_of(vx, vy, k - 1);
        crate::machine::execute::lemma_pixel_in_range(vx, vy, k - 1);
        assert forall|i: int| 0 <= i < k - 1 implies pixel_of(vx, vy, i) != p by {
            lemma_pixels_distinct(vx, vy, i, k - 1);
        }
        lemma_drawn_untouched(d, sprite, vx, vy, (k - 1) as nat, p);
        if collided(d, sprite, vx, vy, k) && !collided(d, sprite, vx, vy, (k - 1) as nat) {
            assert(d[pixel_of(vx, vy, k - 1)] && sprite_bit(sprite, k - 1));
        }
    }
}

/// `Dxyn` with a sprite of at most 32 rows sets `VF` exactly when it turns
/// some lit pixel off.
pub proof fn lemma_display_collision(s: MachineView, x: u8, y: u8, n: usize)
    requires
        s.wf(),
        x < 16,
        y < 16,
        n <= 32,
        s.i + n <= MEMORY_SIZE,
    ensures
        ({
            let s1 = step(s, Operation::Display(x, y, n));
            (s1.registers[REG_VF as int] == 1) <==> exists|p: int|
                0 <= p < DISPLAY_PIXELS && #[trigger] s.display[p] && !s1.display[p]
        }),
        step(s, Operation::Display(x, y, n)).registers[REG_VF as int] <= 1,
{
    let s1 = step(s, Operation::Display(x, y, n));
    let sprite = sprite_at(s, n as int);
    let vx = s.registers[x as int];
    let vy = s.registers[y as int];
    let k = (8 * n) as nat;
    lemma_collided_iff(s.display, sprite, vx, vy, k);
    if s1.registers[REG_VF as int] == 1 {
        let j = choose|j: int| 0 <= j < k && #[trigger] s.display[pixel_of(vx, vy, j)] && sprite_bit(sprite, j);
        lemma_drawn_at(s.display, sprite, vx, vy, k, j);
        let p = pixel_of(vx, vy, j);
        crate::machine::execute::lemma_pixel_in_range(vx, vy, j);
        assert(s.display[p] && !s1.display[p]);
    }
    if exists|p: int| 0 <= p < DISPLAY_PIXELS && #[trigger] s.display[p] && !s1.display[p] {
        let p = choose|p: int| 0 <= p < DISPLAY_PIXELS && #[trigger] s.display[p] && !s1.display[p];
        if forall|j: int| 0 <= j < k ==> pixel_of(vx, vy, j) != p {
            lemma_drawn_untouched(s.display, sprite, vx, vy, k, p);
        } else {
            let j = choose|j: int| 0 <= j < k && pixel_of(vx, vy, j) == p;
            lemma_drawn_at(s.display, sprite, vx, vy, k, j);
            assert(s.display[pixel_of(vx, vy, j)] && sprite_bit(sprite, j));
        }
    }
}

/// Index of the display pixel at column `(vx + col) mod 64` of row
/// `(vy + row) mod 32`, rows of 64 pixels laid out one after another.
pub open spec fn screen_index(vx: u8, vy: u8, row: int, col: int) -> int {
    ((vy + row) % 32) * 64 + (vx + col) % 64
}

/// The display pixel that sprite row `row`, column `col` lands on when the
/// sprite is drawn at (`vx`, `vy`): both coordinates wrap around.
proof fn lemma_pixel_coordinates(vx: u8, vy: u8, row: int, col: int)
    requires
        0 <= row,
        0 <= col < 8,
    ensures
        pixel_of(vx, vy, 8 * row + col) == screen_index(vx, vy, row, col),
        (8 * row + col) / 8 == row,
        (8 * row + col) % 8 == col,
{
}

/// `Dxyn` with a sprite of at most 32 rows: the display pixel at column
/// `(Vx + col) mod 64` of row `(Vy + row) mod 32` is flipped exactly when bit
/// `7 - col` of sprite byte `row` (the byte at `I + row`) is set.
pub proof fn law_display_pixel(s: MachineView, x: u8, y: u8, n: usize, row: int, col: int)
    requires
        s.wf(),
        x < 16,
        y < 16,
        n <= 32,
        s.i + n <= MEMORY_SIZE,
        0 <= row < n,
        0 <= col < 8,
    ensures
        ({
            let vx = s.registers[x as int];
            let vy = s.registers[y as int];
            let p = screen_index(vx, vy, row, col);
            let bit = (s.memory[s.i + row] >> ((7 - col) as u8)) & 1 == 1;
            step(s, Operation::Display(x, y, n)).display[p] == (s.display[p] != bit)
        }),
{
    let vx = s.registers[x as int];
    let vy = s.registers[y as int];
    let sprite = sprite_at(s, n as int);
    let j = 8 * row + col;
    lemma_pixel_coordinates(vx, vy, row, col);
    assert(sprite[row] == s.memory[s.i + row]);
    lemma_drawn_at(s.display, sprite, vx, vy, (8 * n) as nat, j);
}

/// `Dxyn` leaves every display pixel that no sprite pixel lands on as it was.
pub proof fn law_display_untouched(s: MachineView, x: u8, y: u8, n: usize, p: int)
    requires
        s.wf(),
        x < 16,
        y < 16,
        s.i + n <= MEMORY_SIZE,
        0 <= p < DISPLAY_PIXELS,
        forall|row: int, col: int|
            0 <= row < n && 0 <= col < 8 ==> p != #[trigger] screen_index(
                s.registers[x as int],
                s.registers[y as int],
                row,
                col,
            ),
    ensures
        step(s, Operation::Display(x, y, n)).display[p] == s.display[p],
{
    let vx = s.registers[x as int];
    let vy = s.registers[y as int];
    let sprite = sprite_at(s, n as int);
    assert forall|j: int| 0 <= j < 8 * n implies pixel_of(vx, vy, j) != p by {
        let (row, col) = (j / 8, j % 8);
        assert(j == 8 * row + col);
        lemma_pixel_coordinates(vx, vy, row, col);
        assert(p != screen_index(vx, vy, row, col));
    }
    lemma_drawn_untouched(s.display, sprite, vx, vy, (8 * n) as nat, p);
}

/// A call followed by a return comes back to the instruction after the call
/// with the stack as it was.
pub proof fn lemma_call_then_return(s: MachineView, a: u16)
    ensures
        step(step(s, Operation::Call(a)), Operation::Return).pc == s.pc,
        step(step(s, Operation::Call(a)), Operation::Return).stack == s.stack,
        step(s, Operation::Call(a)).pc == a,
{
    assert(s.stack.push(s.pc).drop_last() =~= s.stack);
}

/// Storing registers and loading them back from the same address gives the
/// registers back.
pub proof fn lemma_write_then_read(s: MachineView, x: usize)
    requires
        s.wf(),
        x < 16,
        s.i + x < MEMORY_SIZE,
    ensures
        step(step(s, Operation::Write(x)), Operation::Read(x)).registers == s.registers,
        step(step(s, Operation::Write(x)), Operation::Read(x)).memory == step(s, Operation::Write(x)).memory,
{
    let s2 = step(step(s, Operation::Write(x)), Operation::Read(x));
    assert(s2.registers =~= s.registers);
}

/// `Fx33` stores the three decimal digits of `Vx`, most significant first.
pub proof fn lemma_split_reg_digits(s: MachineView, x: usize)
    requires
        s.wf(),
        x < 16,
        s.i + 2 < MEMORY_SIZE,
    ensures
        ({
            let m = step(s, Operation::SplitReg(x)).memory;
            let i = s.i as int;
            &&& m[i] < 10 && m[i + 1] < 10 && m[i + 2] < 10
            &&& 100 * m[i] + 10 * m[i + 1] + m[i + 2] == s.registers[x as int]
        }),
{
    let v = s.registers[x as int];
    assert(100 * (v / 100) + 10 * ((v / 10) % 10) + v % 10 == v) by (nonlinear_arith)
        requires
            0 <= v < 256,
    ;
}

/// On a fresh machine, `Fx29` points the index register at the five-byte
/// glyph of the hexadecimal digit in `Vx`.
pub proof fn lemma_font_glyph(s: MachineView, x: usize, j: int)
    requires
        s.wf(),
        x < 16,
        s.registers[x as int] < 16,
        s.memory == initial_memory(),
        0 <= j < CHAR_SIZE,
    ensures
        step(s, Operation::GetFont(x)).i == FONT_ADDR_START + CHAR_SIZE * s.registers[x as int],
        step(s, Operation::GetFont(x)).memory[step(s, Operation::GetFont(x)).i + j] == FONT@[CHAR_SIZE
            * s.registers[x as int] + j],
{
}

/// A fresh machine holds the font, with every register, timer, key and
/// pixel cleared, and starts at the load address.
pub proof fn lemma_initial_state(seed: u64)
    ensures
        initial_state(seed).wf(),
        initial_state(seed).pc == USABLE_ADDR_START,
        forall|k: int| 0 <= k < 80 ==> #[trigger] initial_state(seed).memory[FONT_ADDR_START + k] == FONT@[k],
        initial_state(seed).display == blank(),
{
}

/// After loading a program of at least one instruction into a fresh
/// machine, the first cycle fetches the program's first two bytes.
pub proof fn lemma_load_then_fetch(seed: u64, rom: Seq<u8>)
    requires
        2 <= rom.len() <= 3584,
    ensures
        fetch(loaded(initial_state(seed), rom)).1 == Some((rom[0] * 256 + rom[1]) as u16),
        fetch(loaded(initial_state(seed), rom)).0.pc == USABLE_ADDR_START + 2,
{
}

/// `8xy4` keeps the carry in `VF`: result plus 256 times the flag is the
/// sum (when `x` is not `F`).
pub proof fn lemma_add_carry(s: MachineView, x: usize, y: usize)
    requires
        s.wf(),
        x < 15,
        y < 16,
    ensures
        ({
            let s1 = step(s, Operation::Arithmetic(4, x, y));
            s1.registers[x as int] + 256 * s1.registers[REG_VF as int] == s.registers[x as int]
                + s.registers[y as int]
        }),
{
}

/// `8xy5` keeps "no borrow" in `VF`: the result is the difference, plus 256
/// when the flag is clear (when `x` is not `F`).
pub proof fn lemma_sub_borrow(s: MachineView, x: usize, y: usize)
    requires
        s.wf(),
        x < 15,
        y < 16,
    ensures
        ({
            let s1 = step(s, Operation::Arithmetic(5, x, y));
            s1.registers[x as int] == s.registers[x as int] - s.registers[y as int] + 256 * (1
                - s1.registers[REG_VF as int])
        }),
{
}

/// While `Fx0A` waits, cycles change nothing; the next key press stores the
/// key in `Vx`, ends the wait, and leaves the held keys as they were.
pub proof fn lemma_wait_key(s: MachineView, x: usize, key: Seq<char>)
    requires
        s.wf(),
        x < 16,
        spec_key_to_chip8(key) is Some,
    ensures
        ({
            let w = step(s, Operation::WaitKey(x));
            let after = spec_key_pressed(w, key);
            &&& spec_cycle(w) == w
            &&& after.registers[x as int] == spec_key_to_chip8(key)->0
            &&& after.waiting_for_key is None
            &&& after.keys == s.keys
        }),
{
}

/// Holding a key and releasing it leaves the held keys as they were, when
/// the key was not held before.
pub proof fn lemma_hold_then_release(s: MachineView, key: Seq<char>)
    requires
        s.wf(),
        spec_key_to_chip8(key) matches Some(k) ==> !s.keys[k as int],
    ensures
        spec_set_key(spec_set_key(s, key, true), key, false) == s,
{
    if let Some(k) = spec_key_to_chip8(key) {
        crate::parser::lemma_key_map_in_range(key[0]);
        assert(s.keys.update(k as int, true).update(k as int, false) =~= s.keys);
    }
}

/// Timers never rise, fall by at most one per sync, and stop at zero.
pub proof fn lemma_timers_count_down(s: MachineView, now: u64)
    ensures
        spec_sync_timers(s, now).dt <= s.dt,
        spec_sync_timers(s, now).st <= s.st,
        spec_sync_timers(s, now).dt + 1 >= s.dt,
        spec_sync_timers(s, now).st + 1 >= s.st,
        s.st == 0 ==> spec_sync_timers(s, now).st == 0,
        s.dt == 0 ==> spec_sync_timers(s, now).dt == 0,
{
}

/// The random byte of `Cxkk` has no bits outside the mask `kk`.
pub proof fn lemma_random_masked(s: MachineView, x: usize, kk: u8)
    requires
        s.wf(),
        x < 16,
    ensures
        step(s, Operation::Random(x, kk)).registers[x as int] & !kk == 0,
{
    let v = step(s, Operation::Random(x, kk)).registers[x as int];
    let r = crate::machine::random_byte(crate::machine::lcg_next(s.rng_state));
    assert(v == r & kk);
    assert((r & kk) & !kk == 0) by (bit_vector);
}

/// One cycle keeps the machine's sizes and bounds.
pub proof fn lemma_cycle_wf(s: MachineView)
    requires
        s.wf(),
        crate::machine::cycle_fault(s) is None,
    ensures
        spec_cycle(s).wf(),
{
    if s.waiting_for_key is None {
        if let Some(opcode) = fetch(s).1 {
            crate::parser::lemma_decode_wf(opcode);
            crate::machine::execute::lemma_step_wf(fetch(s).0, crate::parser::spec_decode(opcode));
        }
    }
}

} // verus!
