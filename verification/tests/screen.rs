use chip8::channels::create_contexts;
use chip8::program::init_program;

// pixel (x, y) lives at index x * 32 + y in the column-major framebuffer
fn pixel(p: &chip8::program::Program, x: usize, y: usize) -> bool {
    p.cpu.screen[x * 32 + y]
}

#[test]
fn sprite_draws_glyph_rows() {
    let mut p = init_program(Vec::new());
    p.MVI(0, 4); // x
    p.MVI(1, 2); // y
    p.SPRITECHAR(2); // register 2 holds 0: glyph for digit 0 (0xF0 top row)
    p.SPRITE(0, 1, 5);
    // top row 0xF0: four set pixels then four clear ones
    for c in 0..4 {
        assert!(pixel(&p, 4 + c, 2), "column {c} of the top row should be on");
    }
    for c in 4..8 {
        assert!(!pixel(&p, 4 + c, 2), "column {c} of the top row should be off");
    }
    // second row 0x90: pixels at columns 0 and 3
    assert!(pixel(&p, 4, 3));
    assert!(!pixel(&p, 5, 3));
    assert!(!pixel(&p, 6, 3));
    assert!(pixel(&p, 7, 3));
    assert_eq!(p.cpu.gp_reg[15], 0, "drawing on a clear screen collides with nothing");
    assert!(p.cpu.screen_dirty);
}

#[test]
fn sprite_position_wraps_into_grid() {
    let mut p = init_program(Vec::new());
    p.MVI(0, 64 + 3); // wraps to x = 3
    p.MVI(1, 32 + 1); // wraps to y = 1
    p.MVII(0x300);
    p.cpu.ram[0x300] = 0x80; // single pixel, MSB
    p.SPRITE(0, 1, 1);
    assert!(pixel(&p, 3, 1));
}

#[test]
fn sprite_clips_at_right_and_bottom_edges() {
    let mut p = init_program(Vec::new());
    p.MVI(0, 62); // two columns fit
    p.MVI(1, 31); // one row fits
    p.MVII(0x300);
    p.cpu.ram[0x300] = 0xFF;
    p.cpu.ram[0x301] = 0xFF;
    p.SPRITE(0, 1, 2);
    assert!(pixel(&p, 62, 31));
    assert!(pixel(&p, 63, 31));
    // nothing wrapped around to the far side
    for x in 0..62 {
        for y in 0..32 {
            assert!(!pixel(&p, x, y), "pixel ({x},{y}) must stay off");
        }
    }
}

#[test]
fn sprite_collision_toggles_off_and_sets_flag() {
    let mut p = init_program(Vec::new());
    p.MVI(0, 10);
    p.MVI(1, 10);
    p.MVII(0x300);
    p.cpu.ram[0x300] = 0xC0; // two pixels
    p.SPRITE(0, 1, 1);
    assert!(pixel(&p, 10, 10) && pixel(&p, 11, 10));
    assert_eq!(p.cpu.gp_reg[15], 0);
    // overdraw one of them
    p.cpu.ram[0x301] = 0x80;
    p.MVII(0x301);
    p.SPRITE(0, 1, 1);
    assert!(!pixel(&p, 10, 10), "collided pixel turns off");
    assert!(pixel(&p, 11, 10), "untouched pixel stays on");
    assert_eq!(p.cpu.gp_reg[15], 1);
}

#[test]
fn sprite_drawn_twice_restores_pixels() {
    let mut p = init_program(Vec::new());
    p.MVI(0, 20);
    p.MVI(1, 5);
    p.SPRITECHAR(3); // glyph for 0
    // put some background under the sprite first
    p.MVII(0x300);
    p.cpu.ram[0x300] = 0xAA;
    p.SPRITE(0, 1, 1);
    let before: Vec<bool> = p.cpu.screen.clone();
    p.SPRITECHAR(3);
    p.SPRITE(0, 1, 5);
    p.SPRITE(0, 1, 5);
    assert_eq!(p.cpu.screen, before, "two identical draws restore every pixel");
    assert_eq!(p.cpu.gp_reg[15], 1, "the second draw collides with the first");
}

#[test]
fn cls_clears_every_pixel() {
    let mut p = init_program(Vec::new());
    p.MVI(0, 1);
    p.MVI(1, 1);
    p.SPRITECHAR(2);
    p.SPRITE(0, 1, 5);
    p.CLS();
    assert!(p.cpu.screen.iter().all(|&b| !b));
}

#[test]
fn sprite_read_past_memory_end_is_refused() {
    let mut p = init_program(Vec::new());
    p.MVI(0, 0);
    p.MVI(1, 0);
    p.MVII(4090); // 7 bytes of sprite would pass 4096
    p.SPRITE(0, 1, 7);
    assert!(p.cpu.screen.iter().all(|&b| !b));
    assert!(!p.cpu.screen_dirty);
}

#[test]
fn flush_sends_frame_only_when_dirty() {
    let (platform, ctx) = create_contexts();
    let mut p = init_program(Vec::new());
    p.cpu.flush_screen(&ctx);
    assert!(platform.display.try_recv().is_err(), "clean buffer: no frame leaves");
    p.MVI(0, 0);
    p.MVI(1, 0);
    p.MVII(0x300);
    p.cpu.ram[0x300] = 0x80;
    p.SPRITE(0, 1, 1);
    assert!(p.cpu.screen_dirty);
    p.cpu.flush_screen(&ctx);
    assert!(!p.cpu.screen_dirty);
    let frame = platform.display.try_recv().expect("a frame must have been sent");
    assert_eq!(frame.len(), 2048);
    assert!(frame[0]); // pixel (0, 0)
    assert!(!frame[1]);
    p.cpu.flush_screen(&ctx);
    assert!(platform.display.try_recv().is_err(), "flushing a clean buffer again sends nothing");
}

#[test]
fn cls_marks_changed_pixels_dirty() {
    let (platform, ctx) = create_contexts();
    let mut p = init_program(Vec::new());
    p.MVI(0, 0);
    p.MVI(1, 0);
    p.MVII(0x300);
    p.cpu.ram[0x300] = 0x80;
    p.SPRITE(0, 1, 1);
    p.cpu.flush_screen(&ctx);
    let _ = platform.display.try_recv().expect("the drawn frame leaves");
    assert!(!p.cpu.screen_dirty);
    // clearing turns a pixel off: a change the next flush must deliver
    p.CLS();
    assert!(p.cpu.screen_dirty);
    p.cpu.flush_screen(&ctx);
    let cleared = platform.display.try_recv().expect("the cleared frame leaves");
    assert!(cleared.iter().all(|&b| !b));
}

#[test]
fn cls_on_clear_screen_changes_nothing() {
    let mut p = init_program(Vec::new());
    assert!(!p.cpu.screen_dirty);
    p.CLS();
    assert!(!p.cpu.screen_dirty, "no pixel changed, so there is nothing to deliver");
}
