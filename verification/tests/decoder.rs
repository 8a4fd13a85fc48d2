use chip8::opcode::OpCode;

#[test]
fn combine_joins_bytes_high_first() {
    let op = OpCode { high: 0xAB, low: 0xCD };
    assert_eq!(op.combine(), 0xABCD);
}

#[test]
fn nibbles_split_the_instruction() {
    let op = OpCode { high: 0xD5, low: 0x3A };
    assert_eq!(op.nib1(), 0xD);
    assert_eq!(op.nib2(), 0x5);
    assert_eq!(op.nib3(), 0x3);
    assert_eq!(op.nib4(), 0xA);
    assert_eq!(op.nib_l3(), 0x53A);
}

#[test]
fn destructure_returns_all_fields() {
    let op = OpCode { high: 0x12, low: 0x34 };
    let (n1, n2, n3, n4, l3) = op.destructure();
    assert_eq!(n1, 1);
    assert_eq!(n2, 2);
    assert_eq!(n3, 3);
    assert_eq!(n4, 4);
    assert_eq!(l3, 0x234);
}

#[test]
fn nibbles_of_extremes() {
    let zero = OpCode { high: 0x00, low: 0x00 };
    assert_eq!(zero.combine(), 0);
    assert_eq!(zero.nib_l3(), 0);
    let max = OpCode { high: 0xFF, low: 0xFF };
    assert_eq!(max.combine(), 0xFFFF);
    assert_eq!(max.nib1(), 0xF);
    assert_eq!(max.nib_l3(), 0xFFF);
}
