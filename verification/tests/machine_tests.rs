use chalice8::frontend::{sound_action, SoundAction, CYCLES_PER_TICK};
use chalice8::machine::{Fault, Machine, FONT, SYNC_PERIOD_NANOS};
use chalice8::parser::Operation;

fn machine_with(rom: &[u8]) -> Machine {
    let mut m = Machine::new(0);
    m.load(rom);
    m
}

fn pixel(m: &Machine, x: usize, y: usize) -> bool {
    m.display_buf()[y * 64 + x]
}

#[test]
fn fresh_machine() {
    let m = Machine::new(99);
    assert_eq!(m.pc(), 0x200);
    assert_eq!(m.i(), 0);
    assert_eq!(m.dt(), 0);
    assert_eq!(m.st(), 0);
    assert_eq!(&m.memory()[0x50..0xA0], &FONT[..]);
    assert!(m.memory()[..0x50].iter().all(|b| *b == 0));
    assert!(m.memory()[0xA0..].iter().all(|b| *b == 0));
    assert!(m.registers().iter().all(|r| *r == 0));
    assert!(m.display_buf().iter().all(|p| !*p));
    assert!(m.keys().iter().all(|k| !*k));
    assert!(m.stack().is_empty());
    assert_eq!(m.waiting_for_key(), None);
    assert!(!m.tracing());
}

#[test]
fn load_places_program_at_0x200() {
    let m = machine_with(&[0x12, 0x34, 0x56]);
    assert_eq!(&m.memory()[0x200..0x203], &[0x12, 0x34, 0x56]);
    assert_eq!(m.memory()[0x203], 0);
    assert_eq!(&m.memory()[0x50..0xA0], &FONT[..]);
}

#[test]
fn cycle_runs_the_program_then_stops() {
    let mut m = machine_with(&[0x60, 0x2A, 0x71, 0x05]);
    m.cycle();
    assert_eq!(m.registers()[0], 0x2A);
    assert_eq!(m.pc(), 0x202);
    m.cycle();
    assert_eq!(m.registers()[1], 0x05);
    assert_eq!(m.pc(), 0x204);
    m.cycle();
    assert_eq!(m.pc(), 0x204);
    assert_eq!(m.fault(), None);
}

#[test]
fn odd_sized_program_ignores_the_last_byte() {
    let mut m = machine_with(&[0x60, 0x01, 0x61]);
    m.cycle();
    m.cycle();
    assert_eq!(m.pc(), 0x202);
    assert_eq!(m.registers()[1], 0);
}

#[test]
fn jump_and_set_index() {
    let mut m = Machine::new(0);
    m.execute(Operation::SetPc(0x345));
    assert_eq!(m.pc(), 0x345);
    m.execute(Operation::SetI(0x123));
    assert_eq!(m.i(), 0x123);
    m.execute(Operation::SetRg(4, 0x10));
    m.execute(Operation::AddI(4));
    assert_eq!(m.i(), 0x133);
}

#[test]
fn add_register_wraps_without_flag() {
    let mut m = Machine::new(0);
    m.execute(Operation::SetRg(2, 250));
    m.execute(Operation::AddReg(2, 10));
    assert_eq!(m.registers()[2], 4);
    assert_eq!(m.registers()[15], 0);
}

#[test]
fn arithmetic_logic() {
    let mut m = Machine::new(0);
    m.execute(Operation::SetRg(1, 0b1100));
    m.execute(Operation::SetRg(2, 0b1010));
    m.execute(Operation::Arithmetic(1, 1, 2));
    assert_eq!(m.registers()[1], 0b1110);
    m.execute(Operation::SetRg(1, 0b1100));
    m.execute(Operation::Arithmetic(2, 1, 2));
    assert_eq!(m.registers()[1], 0b1000);
    m.execute(Operation::SetRg(1, 0b1100));
    m.execute(Operation::Arithmetic(3, 1, 2));
    assert_eq!(m.registers()[1], 0b0110);
    m.execute(Operation::Arithmetic(0, 1, 2));
    assert_eq!(m.registers()[1], 0b1010);
}

#[test]
fn arithmetic_add_carry() {
    let mut m = Machine::new(0);
    m.execute(Operation::SetRg(3, 200));
    m.execute(Operation::SetRg(4, 100));
    m.execute(Operation::Arithmetic(4, 3, 4));
    assert_eq!(m.registers()[3], 44);
    assert_eq!(m.registers()[15], 1);
    m.execute(Operation::SetRg(3, 1));
    m.execute(Operation::Arithmetic(4, 3, 4));
    assert_eq!(m.registers()[3], 101);
    assert_eq!(m.registers()[15], 0);
}

#[test]
fn arithmetic_subtract_borrow() {
    let mut m = Machine::new(0);
    m.execute(Operation::SetRg(1, 10));
    m.execute(Operation::SetRg(2, 3));
    m.execute(Operation::Arithmetic(5, 1, 2));
    assert_eq!(m.registers()[1], 7);
    assert_eq!(m.registers()[15], 1);
    m.execute(Operation::Arithmetic(5, 2, 1));
    assert_eq!(m.registers()[2], 252);
    assert_eq!(m.registers()[15], 0);
    m.execute(Operation::SetRg(1, 10));
    m.execute(Operation::SetRg(2, 3));
    m.execute(Operation::Arithmetic(7, 1, 2));
    assert_eq!(m.registers()[1], 249);
    assert_eq!(m.registers()[15], 0);
    m.execute(Operation::SetRg(1, 3));
    m.execute(Operation::SetRg(2, 10));
    m.execute(Operation::Arithmetic(7, 1, 2));
    assert_eq!(m.registers()[1], 7);
    assert_eq!(m.registers()[15], 1);
}

#[test]
fn arithmetic_shifts() {
    let mut m = Machine::new(0);
    m.execute(Operation::SetRg(1, 0b1000_0101));
    m.execute(Operation::Arithmetic(6, 1, 0));
    assert_eq!(m.registers()[1], 0b0100_0010);
    assert_eq!(m.registers()[15], 1);
    m.execute(Operation::SetRg(1, 0b1000_0101));
    m.execute(Operation::Arithmetic(8, 1, 0));
    assert_eq!(m.registers()[1], 0b0000_1010);
    assert_eq!(m.registers()[15], 1);
    m.execute(Operation::SetRg(1, 0b0100_0000));
    m.execute(Operation::Arithmetic(8, 1, 0));
    assert_eq!(m.registers()[1], 0b1000_0000);
    assert_eq!(m.registers()[15], 0);
}

#[test]
fn arithmetic_result_wins_over_flag_in_vf() {
    let mut m = Machine::new(0);
    m.execute(Operation::SetRg(15, 200));
    m.execute(Operation::SetRg(1, 100));
    m.execute(Operation::Arithmetic(4, 15, 1));
    assert_eq!(m.registers()[15], 44);
}

#[test]
fn arithmetic_unknown_code_does_nothing() {
    let mut m = Machine::new(0);
    m.execute(Operation::SetRg(1, 9));
    m.execute(Operation::Arithmetic(9, 1, 2));
    assert_eq!(m.registers()[1], 9);
}

#[test]
fn random_follows_the_generator() {
    let mut m = Machine::new(0);
    m.execute(Operation::Random(0, 0xFF));
    assert_eq!(m.registers()[0], 247);
    m.execute(Operation::Random(0, 0xFF));
    assert_eq!(m.registers()[0], 132);
    m.execute(Operation::Random(0, 0x0F));
    assert_eq!(m.registers()[0], 46 & 0x0F);
}

#[test]
fn random_is_reproducible_from_the_seed() {
    let mut a = Machine::new(12345);
    let mut b = Machine::new(12345);
    for _ in 0..20 {
        a.execute(Operation::Random(1, 0xFF));
        b.execute(Operation::Random(1, 0xFF));
        assert_eq!(a.registers()[1], b.registers()[1]);
    }
}

#[test]
fn random_respects_the_mask() {
    let mut m = Machine::new(777);
    for _ in 0..50 {
        m.execute(Operation::Random(2, 0b0101_0000));
        assert_eq!(m.registers()[2] & !0b0101_0000, 0);
    }
}

#[test]
fn skips_on_constants_and_registers() {
    let mut m = Machine::new(0);
    m.execute(Operation::SetRg(1, 7));
    m.execute(Operation::SkipK(true, 1, 7));
    assert_eq!(m.pc(), 0x202);
    m.execute(Operation::SkipK(false, 1, 7));
    assert_eq!(m.pc(), 0x202);
    m.execute(Operation::SkipK(false, 1, 8));
    assert_eq!(m.pc(), 0x204);
    m.execute(Operation::SetRg(2, 7));
    m.execute(Operation::SkipR(true, 1, 2));
    assert_eq!(m.pc(), 0x206);
    m.execute(Operation::SkipR(false, 1, 2));
    assert_eq!(m.pc(), 0x206);
}

#[test]
fn skips_on_keys() {
    let mut m = Machine::new(0);
    m.execute(Operation::SetRg(0, 0x5));
    m.execute(Operation::SkipI(true, 0));
    assert_eq!(m.pc(), 0x200);
    m.execute(Operation::SkipI(false, 0));
    assert_eq!(m.pc(), 0x202);
    m.set_key("w", true);
    m.execute(Operation::SkipI(true, 0));
    assert_eq!(m.pc(), 0x204);
    m.execute(Operation::SkipI(false, 0));
    assert_eq!(m.pc(), 0x204);
}

#[test]
fn call_and_return() {
    let mut m = machine_with(&[0x23, 0x00]);
    m.cycle();
    assert_eq!(m.pc(), 0x300);
    assert_eq!(m.stack(), &vec![0x202]);
    m.execute(Operation::Return);
    assert_eq!(m.pc(), 0x202);
    assert!(m.stack().is_empty());
}

#[test]
fn font_lookup() {
    let mut m = Machine::new(0);
    m.execute(Operation::SetRg(0, 0xA));
    m.execute(Operation::GetFont(0));
    assert_eq!(m.i(), 0x50 + 5 * 0xA);
    let i = m.i() as usize;
    assert_eq!(&m.memory()[i..i + 5], &[0xF0, 0x90, 0xF0, 0x90, 0x90]);
}

#[test]
fn bcd_conversion() {
    let mut m = Machine::new(0);
    m.execute(Operation::SetRg(3, 254));
    m.execute(Operation::SetI(0x300));
    m.execute(Operation::SplitReg(3));
    assert_eq!(&m.memory()[0x300..0x303], &[2, 5, 4]);
    m.execute(Operation::SetRg(3, 7));
    m.execute(Operation::SplitReg(3));
    assert_eq!(&m.memory()[0x300..0x303], &[0, 0, 7]);
}

#[test]
fn write_then_read_registers() {
    let mut m = Machine::new(0);
    for r in 0..4 {
        m.execute(Operation::SetRg(r, (r as u8 + 1) * 11));
    }
    m.execute(Operation::SetI(0x400));
    m.execute(Operation::Write(2));
    assert_eq!(&m.memory()[0x400..0x404], &[11, 22, 33, 0]);
    for r in 0..4 {
        m.execute(Operation::SetRg(r, 0));
    }
    m.execute(Operation::Read(2));
    assert_eq!(&m.registers()[0..4], &[11, 22, 33, 0]);
    assert_eq!(m.i(), 0x400);
}

#[test]
fn timers_copy_and_set() {
    let mut m = Machine::new(0);
    m.execute(Operation::SetRg(1, 9));
    m.execute(Operation::SetDelay(1));
    m.execute(Operation::SetSound(1));
    assert_eq!(m.dt(), 9);
    assert_eq!(m.st(), 9);
    m.execute(Operation::CopyDelay(2));
    assert_eq!(m.registers()[2], 9);
}

#[test]
fn timers_tick_at_sixty_hertz() {
    let mut m = Machine::new(0);
    m.execute(Operation::SetRg(1, 2));
    m.execute(Operation::SetDelay(1));
    m.execute(Operation::SetSound(1));
    assert!(m.can_play_sound());
    m.sync_timers(SYNC_PERIOD_NANOS - 1);
    assert_eq!(m.dt(), 2);
    m.sync_timers(SYNC_PERIOD_NANOS);
    assert_eq!(m.dt(), 1);
    assert_eq!(m.st(), 1);
    m.sync_timers(SYNC_PERIOD_NANOS + 1000);
    assert_eq!(m.dt(), 1);
    m.sync_timers(2 * SYNC_PERIOD_NANOS);
    assert_eq!(m.dt(), 0);
    assert_eq!(m.st(), 0);
    assert!(!m.can_play_sound());
    m.sync_timers(10 * SYNC_PERIOD_NANOS);
    assert_eq!(m.dt(), 0);
    assert_eq!(m.st(), 0);
}

#[test]
fn clear_display() {
    let mut m = Machine::new(0);
    m.execute(Operation::SetI(0x50));
    m.execute(Operation::Display(0, 0, 5));
    assert!(m.display_buf().iter().any(|p| *p));
    m.execute(Operation::Clear);
    assert!(m.display_buf().iter().all(|p| !*p));
}

#[test]
fn draw_glyph_and_collide() {
    let mut m = Machine::new(0);
    m.execute(Operation::SetRg(0, 8));
    m.execute(Operation::SetRg(1, 4));
    m.execute(Operation::SetI(0x50));
    m.execute(Operation::Display(0, 1, 5));
    assert_eq!(m.registers()[15], 0);
    for x in 0..8 {
        assert_eq!(pixel(&m, 8 + x, 4), x < 4);
        assert_eq!(pixel(&m, 8 + x, 5), x == 0 || x == 3);
    }
    m.execute(Operation::Display(0, 1, 5));
    assert_eq!(m.registers()[15], 1);
    assert!(m.display_buf().iter().all(|p| !*p));
}

#[test]
fn draw_without_overlap_clears_flag() {
    let mut m = Machine::new(0);
    m.execute(Operation::SetI(0x50));
    m.execute(Operation::Display(0, 1, 1));
    m.execute(Operation::SetRg(0, 20));
    m.execute(Operation::Display(0, 1, 1));
    assert_eq!(m.registers()[15], 0);
}

#[test]
fn draw_wraps_around_edges() {
    let mut m = Machine::new(0);
    m.execute(Operation::SetRg(0, 62));
    m.execute(Operation::SetRg(1, 31));
    m.execute(Operation::SetI(0x50));
    m.execute(Operation::Display(0, 1, 2));
    assert!(pixel(&m, 62, 31));
    assert!(pixel(&m, 63, 31));
    assert!(pixel(&m, 0, 31));
    assert!(pixel(&m, 1, 31));
    assert!(!pixel(&m, 2, 31));
    assert!(pixel(&m, 62, 0));
    assert!(pixel(&m, 1, 0));
    assert!(!pixel(&m, 63, 0));
    assert_eq!(m.display_buf().iter().filter(|p| **p).count(), 6);
}

#[test]
fn wait_key_resolves_on_press() {
    let mut m = machine_with(&[0xF3, 0x0A, 0x60, 0x01]);
    m.set_key("q", true);
    m.cycle();
    assert_eq!(m.waiting_for_key(), Some(3));
    m.cycle();
    assert_eq!(m.pc(), 0x202);
    assert_eq!(m.registers()[0], 0);
    m.key_pressed("t");
    assert_eq!(m.waiting_for_key(), Some(3));
    m.key_pressed("w");
    assert_eq!(m.waiting_for_key(), None);
    assert_eq!(m.registers()[3], 5);
    assert!(!m.keys()[5]);
    assert!(m.keys()[4]);
    m.cycle();
    assert_eq!(m.registers()[0], 1);
}

#[test]
fn key_events_hold_and_release() {
    let mut m = Machine::new(0);
    m.key_pressed("v");
    assert!(m.keys()[0xF]);
    assert_eq!(m.get_active_key(), Some(0xF));
    m.key_pressed("X");
    assert_eq!(m.get_active_key(), Some(0x0));
    m.set_key("x", false);
    assert_eq!(m.get_active_key(), Some(0xF));
    m.set_key("v", false);
    assert_eq!(m.get_active_key(), None);
    m.set_key("Escape", true);
    assert!(m.keys().iter().all(|k| !*k));
}

#[test]
fn fault_on_return_with_empty_stack() {
    let mut m = machine_with(&[0x00, 0xEE]);
    assert_eq!(m.fault(), Some(Fault::ReturnWithEmptyStack));
    assert_eq!(m.try_cycle(), Err(Fault::ReturnWithEmptyStack));
    assert_eq!(m.pc(), 0x200);
}

#[test]
fn fault_on_invalid_instruction() {
    let mut m = machine_with(&[0xB1, 0x23]);
    assert_eq!(m.try_cycle(), Err(Fault::InvalidInstruction(0xB123)));
    assert_eq!(m.pc(), 0x200);
}

#[test]
fn fault_on_memory_past_the_end() {
    let mut m = machine_with(&[0xAF, 0xFF, 0xF1, 0x55]);
    assert_eq!(m.try_cycle(), Ok(()));
    assert_eq!(m.fault(), Some(Fault::MemoryOutOfRange));
    let mut m = machine_with(&[0xAF, 0xFE, 0xF0, 0x55]);
    assert_eq!(m.try_cycle(), Ok(()));
    assert_eq!(m.try_cycle(), Ok(()));
    let mut m = machine_with(&[0xAF, 0xFE, 0xF0, 0x33]);
    assert_eq!(m.try_cycle(), Ok(()));
    assert_eq!(m.fault(), Some(Fault::MemoryOutOfRange));
    let mut m = machine_with(&[0xAF, 0xFC, 0xD0, 0x15]);
    assert_eq!(m.try_cycle(), Ok(()));
    assert_eq!(m.fault(), Some(Fault::MemoryOutOfRange));
}

#[test]
fn fault_on_key_past_f() {
    let mut m = machine_with(&[0x60, 0x10, 0xE0, 0x9E]);
    assert_eq!(m.try_cycle(), Ok(()));
    assert_eq!(m.try_cycle(), Err(Fault::KeyOutOfRange));
}

#[test]
fn no_fault_while_waiting_or_past_the_end() {
    let mut m = machine_with(&[0xF0, 0x0A, 0xB0, 0x00]);
    assert_eq!(m.try_cycle(), Ok(()));
    assert_eq!(m.fault(), None);
    let m = machine_with(&[]);
    assert_eq!(m.fault(), None);
}

#[test]
fn sound_follows_the_timer() {
    assert_eq!(sound_action(true, false), SoundAction::Start);
    assert_eq!(sound_action(false, true), SoundAction::Stop);
    assert_eq!(sound_action(true, true), SoundAction::Keep);
    assert_eq!(sound_action(false, false), SoundAction::Keep);
    assert_eq!(CYCLES_PER_TICK, 10);
}

#[test]
fn trace_flag() {
    let mut m = Machine::new(0);
    m.debug();
    assert!(m.tracing());
}
