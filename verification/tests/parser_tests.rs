use chalice8::parser::{char_to_chip8, decode, key_to_chip8, Operation};

#[test]
fn decode_system_group() {
    assert_eq!(decode(0x00E0), Operation::Clear);
    assert_eq!(decode(0x00EE), Operation::Return);
    assert_eq!(decode(0x0123), Operation::Nop);
    assert_eq!(decode(0x00E1), Operation::Nop);
}

#[test]
fn decode_flow_control() {
    assert_eq!(decode(0x1234), Operation::SetPc(0x234));
    assert_eq!(decode(0x2ABC), Operation::Call(0xABC));
    assert_eq!(decode(0xA123), Operation::SetI(0x123));
}

#[test]
fn decode_skips() {
    assert_eq!(decode(0x3A42), Operation::SkipK(true, 0xA, 0x42));
    assert_eq!(decode(0x4B17), Operation::SkipK(false, 0xB, 0x17));
    assert_eq!(decode(0x5120), Operation::SkipR(true, 1, 2));
    assert_eq!(decode(0x5121), Operation::Unsupported);
    assert_eq!(decode(0x9340), Operation::SkipR(false, 3, 4));
    assert_eq!(decode(0x9341), Operation::Unsupported);
    assert_eq!(decode(0xE59E), Operation::SkipI(true, 5));
    assert_eq!(decode(0xE6A1), Operation::SkipI(false, 6));
    assert_eq!(decode(0xE6A2), Operation::Unsupported);
}

#[test]
fn decode_registers() {
    assert_eq!(decode(0x6C7F), Operation::SetRg(0xC, 0x7F));
    assert_eq!(decode(0x7D01), Operation::AddReg(0xD, 0x01));
    assert_eq!(decode(0xC20F), Operation::Random(2, 0x0F));
}

#[test]
fn decode_arithmetic_family() {
    for code in 0u16..8 {
        assert_eq!(decode(0x8120 | code), Operation::Arithmetic(code as u8, 1, 2));
    }
    assert_eq!(decode(0x812E), Operation::Arithmetic(8, 1, 2));
    assert_eq!(decode(0x8128), Operation::Nop);
    assert_eq!(decode(0x812F), Operation::Nop);
}

#[test]
fn decode_display() {
    assert_eq!(decode(0xD125), Operation::Display(1, 2, 5));
    assert_eq!(decode(0xDEF0), Operation::Display(0xE, 0xF, 0));
}

#[test]
fn decode_f_group() {
    assert_eq!(decode(0xF307), Operation::CopyDelay(3));
    assert_eq!(decode(0xF30A), Operation::WaitKey(3));
    assert_eq!(decode(0xF315), Operation::SetDelay(3));
    assert_eq!(decode(0xF318), Operation::SetSound(3));
    assert_eq!(decode(0xF31E), Operation::AddI(3));
    assert_eq!(decode(0xF329), Operation::GetFont(3));
    assert_eq!(decode(0xF333), Operation::SplitReg(3));
    assert_eq!(decode(0xF355), Operation::Write(3));
    assert_eq!(decode(0xF365), Operation::Read(3));
    assert_eq!(decode(0xF366), Operation::Unsupported);
}

#[test]
fn decode_unsupported_groups() {
    assert_eq!(decode(0xB123), Operation::Unsupported);
}

#[test]
fn keypad_layout() {
    let rows = [("1234", [0x1, 0x2, 0x3, 0xC]), ("qwer", [0x4, 0x5, 0x6, 0xD]), ("asdf", [0x7, 0x8, 0x9, 0xE]), ("zxcv", [0xA, 0x0, 0xB, 0xF])];
    for (chars, keys) in rows.iter() {
        for (c, k) in chars.chars().zip(keys.iter()) {
            assert_eq!(char_to_chip8(c), Some(*k));
            assert_eq!(char_to_chip8(c.to_ascii_uppercase()), Some(*k));
            assert_eq!(key_to_chip8(&c.to_string()), Some(*k));
        }
    }
}

#[test]
fn keypad_covers_all_sixteen_keys() {
    let mut seen = [false; 16];
    for c in "1234qwerasdfzxcv".chars() {
        let k = char_to_chip8(c).unwrap();
        assert!(!seen[k]);
        seen[k] = true;
    }
    assert!(seen.iter().all(|s| *s));
}

#[test]
fn keypad_ignores_other_names() {
    assert_eq!(key_to_chip8("5"), None);
    assert_eq!(key_to_chip8("t"), None);
    assert_eq!(key_to_chip8(""), None);
    assert_eq!(key_to_chip8("qq"), None);
    assert_eq!(key_to_chip8("Enter"), None);
    assert_eq!(key_to_chip8("é"), None);
}
