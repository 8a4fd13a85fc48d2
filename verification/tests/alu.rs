use chip8::program::init_program;

#[test]
fn mvi_loads_immediate() {
    let mut p = init_program(Vec::new());
    p.MVI(3, 0x7F);
    assert_eq!(p.cpu.gp_reg[3], 0x7F);
}

#[test]
fn addi_wraps_without_flag() {
    let mut p = init_program(Vec::new());
    p.MVI(2, 250);
    p.ADDI(2, 10);
    assert_eq!(p.cpu.gp_reg[2], 4);
    assert_eq!(p.cpu.gp_reg[15], 0, "add-immediate must not touch the flag");
}

#[test]
fn add_without_carry() {
    let mut p = init_program(Vec::new());
    p.MVI(0, 10);
    p.MVI(1, 5);
    p.ADD(0, 1);
    assert_eq!(p.cpu.gp_reg[0], 15);
    assert_eq!(p.cpu.gp_reg[15], 0);
}

#[test]
fn add_with_carry_stores_sum_mod_256() {
    let mut p = init_program(Vec::new());
    p.MVI(0, 200);
    p.MVI(1, 100);
    p.ADD(0, 1);
    assert_eq!(p.cpu.gp_reg[0], 44); // (200 + 100) mod 256
    assert_eq!(p.cpu.gp_reg[15], 1);
}

#[test]
fn add_boundary_exactly_255_sets_no_carry() {
    let mut p = init_program(Vec::new());
    p.MVI(0, 255);
    p.MVI(1, 0);
    p.ADD(0, 1);
    assert_eq!(p.cpu.gp_reg[0], 255);
    assert_eq!(p.cpu.gp_reg[15], 0);
}

#[test]
fn add_boundary_256_sets_carry() {
    let mut p = init_program(Vec::new());
    p.MVI(0, 255);
    p.MVI(1, 1);
    p.ADD(0, 1);
    assert_eq!(p.cpu.gp_reg[0], 0);
    assert_eq!(p.cpu.gp_reg[15], 1);
}

#[test]
fn sub_minuend_larger_sets_flag() {
    let mut p = init_program(Vec::new());
    p.MVI(0, 9);
    p.MVI(1, 5);
    p.SUB(0, 1);
    assert_eq!(p.cpu.gp_reg[0], 4);
    assert_eq!(p.cpu.gp_reg[15], 1);
}

#[test]
fn sub_minuend_smaller_wraps_and_clears_flag() {
    let mut p = init_program(Vec::new());
    p.MVI(0, 5);
    p.MVI(1, 9);
    p.SUB(0, 1);
    assert_eq!(p.cpu.gp_reg[0], 252); // (5 - 9) mod 256
    assert_eq!(p.cpu.gp_reg[15], 0);
}

#[test]
fn sub_equal_operands_clears_flag() {
    let mut p = init_program(Vec::new());
    p.MVI(0, 7);
    p.MVI(1, 7);
    p.SUB(0, 1);
    assert_eq!(p.cpu.gp_reg[0], 0);
    assert_eq!(p.cpu.gp_reg[15], 0, "equal operands: minuend does not strictly exceed");
}

#[test]
fn sub2_reverse_subtracts() {
    let mut p = init_program(Vec::new());
    p.MVI(0, 5);
    p.MVI(1, 9);
    p.SUB2(0, 1);
    assert_eq!(p.cpu.gp_reg[0], 4); // 9 - 5
    assert_eq!(p.cpu.gp_reg[15], 1);
    p.MVI(2, 9);
    p.MVI(3, 5);
    p.SUB2(2, 3);
    assert_eq!(p.cpu.gp_reg[2], 252); // (5 - 9) mod 256
    assert_eq!(p.cpu.gp_reg[15], 0);
}

#[test]
fn shr_flag_is_low_bit_result_is_half() {
    let mut p = init_program(Vec::new());
    p.MVI(0, 0b1010_0101);
    p.SHR(0);
    assert_eq!(p.cpu.gp_reg[0], 0b0101_0010);
    assert_eq!(p.cpu.gp_reg[15], 1);
    p.MVI(1, 0b0000_0100);
    p.SHR(1);
    assert_eq!(p.cpu.gp_reg[1], 0b0000_0010);
    assert_eq!(p.cpu.gp_reg[15], 0);
}

#[test]
fn shl_flag_is_high_bit_result_doubles_mod_256() {
    let mut p = init_program(Vec::new());
    p.MVI(0, 0b1010_0101);
    p.SHL(0);
    assert_eq!(p.cpu.gp_reg[0], 0b0100_1010);
    assert_eq!(p.cpu.gp_reg[15], 1);
    p.MVI(1, 0b0010_0101);
    p.SHL(1);
    assert_eq!(p.cpu.gp_reg[1], 0b0100_1010);
    assert_eq!(p.cpu.gp_reg[15], 0);
}

#[test]
fn bitwise_ops() {
    let mut p = init_program(Vec::new());
    p.MVI(0, 0b1100);
    p.MVI(1, 0b1010);
    p.OR(0, 1);
    assert_eq!(p.cpu.gp_reg[0], 0b1110);
    p.MVI(0, 0b1100);
    p.AND(0, 1);
    assert_eq!(p.cpu.gp_reg[0], 0b1000);
    p.MVI(0, 0b1100);
    p.XOR(0, 1);
    assert_eq!(p.cpu.gp_reg[0], 0b0110);
    p.MV(2, 1);
    assert_eq!(p.cpu.gp_reg[2], 0b1010);
}

#[test]
fn rand_masks_the_injected_byte() {
    let mut p = init_program(Vec::new());
    p.RAND(4, 0x0F, 0xA7);
    assert_eq!(p.cpu.gp_reg[4], 0x07);
    p.RAND(4, 0x00, 0xFF);
    assert_eq!(p.cpu.gp_reg[4], 0);
}

#[test]
fn timer_moves() {
    let mut p = init_program(Vec::new());
    p.MVI(0, 42);
    p.DELAYMV(0);
    assert_eq!(p.cpu.delay, 42);
    p.SOUNDMV(0);
    assert_eq!(p.cpu.sound, 42);
    p.MVDELAY(5);
    assert_eq!(p.cpu.gp_reg[5], 42);
}
