use chip8::channels::create_contexts;
use chip8::keyboard::char_to_index;
use chip8::program::init_program;

#[test]
fn keypad_mapping_covers_all_sixteen() {
    let table = [
        ('0', 0), ('1', 1), ('2', 2), ('3', 3), ('4', 4), ('5', 5), ('6', 6), ('7', 7),
        ('8', 8), ('9', 9), ('A', 10), ('B', 11), ('C', 12), ('D', 13), ('E', 14), ('F', 15),
    ];
    for (c, idx) in table {
        assert_eq!(char_to_index(c), idx);
    }
}

#[test]
fn unmapped_symbols_go_to_zero() {
    assert_eq!(char_to_index('x'), 0);
    assert_eq!(char_to_index('a'), 0, "lower-case letters are not in the table");
    assert_eq!(char_to_index(' '), 0);
}

#[test]
fn skipkey_skips_on_pressed_key() {
    let mut p = init_program(Vec::new());
    let mut keys = vec![false; 16];
    keys[7] = true;
    p.cpu.set_keystate(&keys);
    p.MVI(0, 7);
    p.SKIPKEY(0);
    assert_eq!(p.pc, 0x202);
    p.MVI(0, 8);
    p.SKIPKEY(0);
    assert_eq!(p.pc, 0x202);
}

#[test]
fn skipnokey_skips_on_released_key() {
    let mut p = init_program(Vec::new());
    let mut keys = vec![false; 16];
    keys[7] = true;
    p.cpu.set_keystate(&keys);
    p.MVI(0, 8);
    p.SKIPNOKEY(0);
    assert_eq!(p.pc, 0x202);
    p.MVI(0, 7);
    p.SKIPNOKEY(0);
    assert_eq!(p.pc, 0x202);
}

#[test]
fn key_test_with_out_of_range_register_is_refused() {
    let mut p = init_program(Vec::new());
    p.MVI(0, 200); // indexes no key
    p.SKIPKEY(0);
    assert_eq!(p.pc, 0x200);
    p.SKIPNOKEY(0);
    assert_eq!(p.pc, 0x200);
}

#[test]
fn mvkey_stores_mapped_index_and_resets_timers() {
    let (tx, rx) = crossbeam_channel::bounded::<char>(1);
    let mut p = init_program(Vec::new());
    p.MVI(0, 99);
    p.DELAYMV(0);
    p.SOUNDMV(0);
    tx.send('B').unwrap();
    p.MVKEY(3, &rx);
    assert_eq!(p.cpu.gp_reg[3], 11);
    assert_eq!(p.cpu.delay, 0);
    assert_eq!(p.cpu.sound, 0);
}

#[test]
fn mvkey_on_disconnected_channel_leaves_state() {
    let (tx, rx) = crossbeam_channel::bounded::<char>(1);
    drop(tx);
    let mut p = init_program(Vec::new());
    p.MVI(3, 42);
    p.MVKEY(3, &rx);
    assert_eq!(p.cpu.gp_reg[3], 42);
}

#[test]
fn step_drains_pending_keyboard_state() {
    // program: one skip-if-key instruction (0xE19E with register 1 holding 4)
    let mut p = init_program(vec![0xE1, 0x9E, 0x00, 0x00]);
    let (platform, ctx) = create_contexts();
    p.MVI(1, 4);
    let mut keys = vec![false; 16];
    keys[4] = true;
    platform.keyboard.send(keys).unwrap();
    p.step(&ctx);
    assert!(p.cpu.keystate[4], "the pending update is drained before execution");
    assert_eq!(p.pc, 0x204, "advance by 2, then skip the next instruction");
}
