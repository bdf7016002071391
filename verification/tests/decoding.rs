use chip8::decode::{decode, Instr};

#[test]
fn decode_table_rows() {
    assert_eq!(decode(0x00E0), Some(Instr::Cls));
    assert_eq!(decode(0x00EE), Some(Instr::Ret));
    assert_eq!(decode(0x1234), Some(Instr::Jp(0x234)));
    assert_eq!(decode(0x2ABC), Some(Instr::Call(0xABC)));
    assert_eq!(decode(0x3A55), Some(Instr::SeByte(0xA, 0x55)));
    assert_eq!(decode(0x4A55), Some(Instr::SneByte(0xA, 0x55)));
    assert_eq!(decode(0x5AB0), Some(Instr::SeReg(0xA, 0xB)));
    assert_eq!(decode(0x6A55), Some(Instr::LdByte(0xA, 0x55)));
    assert_eq!(decode(0x7A55), Some(Instr::AddByte(0xA, 0x55)));
    assert_eq!(decode(0x8AB0), Some(Instr::LdReg(0xA, 0xB)));
    assert_eq!(decode(0x8AB1), Some(Instr::Or(0xA, 0xB)));
    assert_eq!(decode(0x8AB2), Some(Instr::And(0xA, 0xB)));
    assert_eq!(decode(0x8AB3), Some(Instr::Xor(0xA, 0xB)));
    assert_eq!(decode(0x8AB4), Some(Instr::AddReg(0xA, 0xB)));
    assert_eq!(decode(0x8AB5), Some(Instr::Sub(0xA, 0xB)));
    assert_eq!(decode(0x8AB6), Some(Instr::Shr(0xA)));
    assert_eq!(decode(0x8AB7), Some(Instr::Subn(0xA, 0xB)));
    assert_eq!(decode(0x8ABE), Some(Instr::Shl(0xA)));
    assert_eq!(decode(0x9AB0), Some(Instr::SneReg(0xA, 0xB)));
    assert_eq!(decode(0xA234), Some(Instr::LdIndex(0x234)));
    assert_eq!(decode(0xB234), Some(Instr::JpV0(0x234)));
    assert_eq!(decode(0xCA55), Some(Instr::Rnd(0xA, 0x55)));
    assert_eq!(decode(0xDAB7), Some(Instr::Drw(0xA, 0xB, 7)));
    assert_eq!(decode(0xEA9E), Some(Instr::Skp(0xA)));
    assert_eq!(decode(0xEAA1), Some(Instr::Sknp(0xA)));
    assert_eq!(decode(0xFA07), Some(Instr::LdVxDt(0xA)));
    assert_eq!(decode(0xFA0A), Some(Instr::WaitKey(0xA)));
    assert_eq!(decode(0xFA15), Some(Instr::LdDtVx(0xA)));
    assert_eq!(decode(0xFA18), Some(Instr::LdStVx(0xA)));
    assert_eq!(decode(0xFA1E), Some(Instr::AddIndex(0xA)));
    assert_eq!(decode(0xFA29), Some(Instr::LdFont(0xA)));
    assert_eq!(decode(0xFA33), Some(Instr::StoreBcd(0xA)));
    assert_eq!(decode(0xFA55), Some(Instr::StoreRegs(0xA)));
    assert_eq!(decode(0xFA65), Some(Instr::LoadRegs(0xA)));
}

#[test]
fn words_outside_the_table_decode_to_none() {
    assert_eq!(decode(0x0FFF), None);
    assert_eq!(decode(0x0000), None);
    assert_eq!(decode(0x00E1), None);
    assert_eq!(decode(0x5AB1), None);
    assert_eq!(decode(0x8AB8), None);
    assert_eq!(decode(0x9AB5), None);
    assert_eq!(decode(0xEA9F), None);
    assert_eq!(decode(0xEA00), None);
    assert_eq!(decode(0xFA00), None);
    assert_eq!(decode(0xFA66), None);
}
