use minivector::instruction::{DecodeError, Instruction, InstructionKind};

fn all_kinds() -> Vec<InstructionKind> {
    vec![
        InstructionKind::Clear,
        InstructionKind::MoveTo,
        InstructionKind::PowerOff,
        InstructionKind::PowerOn,
    ]
}

#[test]
fn encode_decode_round_trip_every_kind() {
    for kind in all_kinds() {
        for data in [0u32, 1, 655370, 0xFFFF_FFFF] {
            let i = Instruction::new(kind, data);
            let bytes = i.to_bytes();
            let back = Instruction::from_bytes(bytes).unwrap();
            assert_eq!(back, i);
        }
    }
}

#[test]
fn decode_known_record() {
    // kind 1 (MoveTo), payload 0x000A000A big-endian.
    let i = Instruction::from_bytes([1, 0x00, 0x0A, 0x00, 0x0A]).unwrap();
    assert!(matches!(i.kind, InstructionKind::MoveTo));
    assert_eq!(i.get_data(), 655370);
}

#[test]
fn encode_is_big_endian() {
    let i = Instruction::new(InstructionKind::MoveTo, 0x0102_0304);
    assert_eq!(i.to_bytes(), [1, 0x01, 0x02, 0x03, 0x04]);
}

#[test]
fn decode_unknown_kind_fails() {
    let r = Instruction::from_bytes([7, 0, 0, 0, 0]);
    assert_eq!(r, Err(DecodeError::UnknownKind(7)));
    let r = Instruction::from_bytes([255, 1, 2, 3, 4]);
    assert_eq!(r, Err(DecodeError::UnknownKind(255)));
}

#[test]
fn decode_many_drops_trailing_partial_record() {
    // 12 bytes: two whole records and a 2-byte torn tail.
    let bytes = [0u8, 0, 0, 0, 0, 3, 0, 0, 0, 0, 1, 0];
    let instructions = Instruction::from_bytes_slice(&bytes).unwrap();
    assert_eq!(instructions.len(), 2);
    assert!(matches!(instructions[0].kind, InstructionKind::Clear));
    assert!(matches!(instructions[1].kind, InstructionKind::PowerOn));
}

#[test]
fn decode_many_empty_and_short_inputs() {
    assert_eq!(Instruction::from_bytes_slice(&[]).unwrap().len(), 0);
    assert_eq!(Instruction::from_bytes_slice(&[1, 2, 3, 4]).unwrap().len(), 0);
}

#[test]
fn decode_many_skips_unknown_kind_and_continues() {
    // A bad record between two good ones: it is skipped, not fatal.
    let bytes = [0u8, 0, 0, 0, 0, 9, 0, 0, 0, 0, 2, 0, 0, 0, 0];
    let instructions = Instruction::from_bytes_slice(&bytes).unwrap();
    assert_eq!(instructions.len(), 2);
    assert!(matches!(instructions[0].kind, InstructionKind::Clear));
    assert!(matches!(instructions[1].kind, InstructionKind::PowerOff));
}

#[test]
fn kind_byte_round_trip() {
    for kind in all_kinds() {
        let b = kind.to_byte();
        let back = InstructionKind::try_from_byte(b).unwrap();
        assert_eq!(back, kind);
    }
    assert!(InstructionKind::try_from_byte(4).is_err());
}
