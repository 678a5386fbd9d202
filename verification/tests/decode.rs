use chip8::opcode::{decode, Opcode};

#[test]
fn decodes_every_implemented_pattern() {
    assert_eq!(decode(0x00EE), Some(Opcode::Return));
    assert_eq!(decode(0x1ABC), Some(Opcode::Jump { nnn: 0xABC }));
    assert_eq!(decode(0x2DEF), Some(Opcode::Call { nnn: 0xDEF }));
    assert_eq!(decode(0x3A12), Some(Opcode::SkipEq { x: 0xA, kk: 0x12 }));
    assert_eq!(decode(0x4B34), Some(Opcode::SkipNeq { x: 0xB, kk: 0x34 }));
    assert_eq!(decode(0x6C56), Some(Opcode::LoadImmediate { x: 0xC, kk: 0x56 }));
    assert_eq!(decode(0x7D78), Some(Opcode::AddImmediate { x: 0xD, kk: 0x78 }));
    assert_eq!(decode(0x8120), Some(Opcode::Move { x: 1, y: 2 }));
    assert_eq!(decode(0x8342), Some(Opcode::And { x: 3, y: 4 }));
    assert_eq!(decode(0x8564), Some(Opcode::Add { x: 5, y: 6 }));
    assert_eq!(decode(0x8785), Some(Opcode::Sub { x: 7, y: 8 }));
    assert_eq!(decode(0xA123), Some(Opcode::SetIndex { nnn: 0x123 }));
    assert_eq!(decode(0xC9FF), Some(Opcode::Random { x: 9, kk: 0xFF }));
    assert_eq!(decode(0xD12F), Some(Opcode::Draw { x: 1, y: 2, n: 0xF }));
    assert_eq!(decode(0xE39E), Some(Opcode::SkipKeyDown { x: 3 }));
    assert_eq!(decode(0xE4A1), Some(Opcode::SkipKeyUp { x: 4 }));
    assert_eq!(decode(0xF507), Some(Opcode::ReadTimer { x: 5 }));
    assert_eq!(decode(0xF615), Some(Opcode::SetTimer { x: 6 }));
    assert_eq!(decode(0xF729), Some(Opcode::ReadFont { x: 7 }));
    assert_eq!(decode(0xF833), Some(Opcode::StoreBCD { x: 8 }));
    assert_eq!(decode(0xF965), Some(Opcode::LoadRegisters { x: 9 }));
}

#[test]
fn decodes_the_corners_of_each_field() {
    assert_eq!(decode(0x1000), Some(Opcode::Jump { nnn: 0 }));
    assert_eq!(decode(0x1FFF), Some(Opcode::Jump { nnn: 0xFFF }));
    assert_eq!(decode(0x6000), Some(Opcode::LoadImmediate { x: 0, kk: 0 }));
    assert_eq!(decode(0x6FFF), Some(Opcode::LoadImmediate { x: 0xF, kk: 0xFF }));
    assert_eq!(decode(0x8000), Some(Opcode::Move { x: 0, y: 0 }));
    assert_eq!(decode(0x8FF0), Some(Opcode::Move { x: 0xF, y: 0xF }));
    assert_eq!(decode(0xD000), Some(Opcode::Draw { x: 0, y: 0, n: 0 }));
    assert_eq!(decode(0xDFFF), Some(Opcode::Draw { x: 0xF, y: 0xF, n: 0xF }));
    assert_eq!(decode(0xFF65), Some(Opcode::LoadRegisters { x: 0xF }));
}

#[test]
fn rejects_what_is_not_implemented() {
    for word in [
        0x0000u16, 0x00E0, 0x00EF, 0x0123, 0x5000, 0x5120, 0x8121, 0x8123, 0x8126, 0x8127, 0x812E,
        0x812F, 0x9120, 0xB123, 0xE19F, 0xE1A0, 0xE000, 0xF10A, 0xF118, 0xF11E, 0xF155, 0xF100,
        0xF1FF,
    ] {
        assert_eq!(decode(word), None);
    }
}

#[test]
fn decodes_a_word_or_rejects_it_by_the_table() {
    let mut implemented = 0u32;
    for word in 0..=0xFFFFu16 {
        let class = word >> 12;
        let low = word & 0xFF;
        let n = word & 0xF;
        let expected = word == 0x00EE
            || matches!(class, 0x1 | 0x2 | 0x3 | 0x4 | 0x6 | 0x7 | 0xA | 0xC | 0xD)
            || (class == 0x8 && matches!(n, 0x0 | 0x2 | 0x4 | 0x5))
            || (class == 0xE && matches!(low, 0x9E | 0xA1))
            || (class == 0xF && matches!(low, 0x07 | 0x15 | 0x29 | 0x33 | 0x65));
        assert_eq!(decode(word).is_some(), expected);
        if expected {
            implemented += 1;
        }
    }
    assert_eq!(implemented, 1 + 9 * 4096 + 4 * 256 + 2 * 16 + 5 * 16);
}
