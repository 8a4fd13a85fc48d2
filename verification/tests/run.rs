use chip8::channels::{create_contexts, CpuContext, PlatformContext};
use chip8::opcode::OpCode;
use chip8::program::init_program;

// contexts whose single-key channel is buffered instead of rendezvous, so a
// single-threaded test can deposit the key before the engine asks for it
fn buffered_contexts() -> (PlatformContext, CpuContext) {
    let (ks, kr) = crossbeam_channel::bounded(1);
    let (sks, skr) = crossbeam_channel::bounded(1);
    let (ss, sr) = crossbeam_channel::bounded(1);
    let (ds, dr) = crossbeam_channel::bounded(2);
    (
        PlatformContext { keyboard: ks, single_key: sks, sound: sr, display: dr },
        CpuContext { keyboard: kr, single_key: skr, sound: ss, display: ds },
    )
}

#[test]
fn load_and_add_program_terminates_with_sum() {
    // load 10 into register 0, load 5 into register 1, add register 1 into
    // register 0
    let mut p = init_program(vec![0x60, 0x0A, 0x61, 0x05, 0x80, 0x14]);
    let (_platform, ctx) = create_contexts();
    let mut frames = 0;
    while p.run_frame(&ctx) {
        frames += 1;
        assert!(frames < 100, "the program must halt");
    }
    assert_eq!(p.cpu.gp_reg[0], 15);
    assert_eq!(p.cpu.gp_reg[15], 0);
    assert!(p.halted());
}

#[test]
fn key_wait_flushes_pending_frame_before_blocking() {
    let (platform, ctx) = buffered_contexts();
    let mut p = init_program(Vec::new());
    // leave a pending framebuffer change
    p.MVI(0, 0);
    p.MVI(1, 0);
    p.MVII(0x300);
    p.cpu.ram[0x300] = 0x80;
    p.SPRITE(0, 1, 1);
    assert!(p.cpu.screen_dirty);
    assert!(platform.display.try_recv().is_err(), "nothing flushed yet");
    // the key the presentation side will hand over
    platform.single_key.send('7').unwrap();
    // instruction 0xF20A: block for a key into register 2
    let op = OpCode { high: 0xF2, low: 0x0A };
    op.execute(&mut p, &ctx);
    // the frame was delivered on the display channel before the key
    // request could block
    let frame = platform.display.try_recv().expect("the pending frame must precede the key wait");
    assert!(frame[0]);
    assert!(!p.cpu.screen_dirty);
    assert_eq!(p.cpu.gp_reg[2], 7);
    assert_eq!(p.cpu.delay, 0);
    assert_eq!(p.cpu.sound, 0);
}

#[test]
fn unknown_opcodes_are_silent_no_ops() {
    let (_platform, ctx) = create_contexts();
    for (high, low) in [(0x00u8, 0x12u8), (0x80, 0x09), (0xE0, 0x00), (0xF0, 0xFF)] {
        let mut p = init_program(Vec::new());
        p.MVI(0, 77);
        let op = OpCode { high, low };
        op.execute(&mut p, &ctx);
        assert_eq!(p.pc, 0x200);
        assert_eq!(p.sp, 0);
        assert_eq!(p.cpu.gp_reg[0], 77);
        assert_eq!(p.cpu.i, 0);
    }
}

#[test]
fn run_frame_ticks_timers_at_frame_rate() {
    // an empty frame: the single jump instruction loops in place forever
    let mut p = init_program(vec![0x12, 0x00]);
    let (_platform, ctx) = create_contexts();
    p.MVI(0, 3);
    p.DELAYMV(0);
    assert_eq!(p.cpu.delay, 3);
    assert!(p.run_frame(&ctx));
    assert_eq!(p.cpu.delay, 2, "one decrement per frame, not per instruction");
    assert!(p.run_frame(&ctx));
    assert!(p.run_frame(&ctx));
    assert_eq!(p.cpu.delay, 0);
    assert!(p.run_frame(&ctx));
    assert_eq!(p.cpu.delay, 0, "an expired timer stays at zero");
}

#[test]
fn run_frame_notifies_sound_once_per_tick() {
    let mut p = init_program(vec![0x12, 0x00]);
    let (platform, ctx) = create_contexts();
    p.MVI(0, 2);
    p.SOUNDMV(0);
    assert!(p.run_frame(&ctx));
    assert_eq!(p.cpu.sound, 1);
    assert_eq!(platform.sound.try_recv(), Ok(true));
    assert!(platform.sound.try_recv().is_err(), "only one notification per tick");
    assert!(p.run_frame(&ctx));
    assert_eq!(p.cpu.sound, 0);
    assert_eq!(platform.sound.try_recv(), Ok(true));
    assert!(p.run_frame(&ctx));
    assert!(platform.sound.try_recv().is_err(), "a zero sound timer notifies nobody");
}

#[test]
fn run_frame_flushes_the_screen() {
    // draw the glyph for 0 at (0, 0): 6200 6300 F029 D235, then jump in
    // place so the program does not halt within the frame
    let mut p = init_program(vec![0x62, 0x00, 0x63, 0x00, 0xF2, 0x29, 0xD2, 0x35, 0x12, 0x08]);
    let (platform, ctx) = create_contexts();
    assert!(p.run_frame(&ctx));
    let frame = platform.display.try_recv().expect("the frame with the glyph must be flushed");
    assert!(frame[0], "pixel (0,0) of glyph 0 is on");
    assert!(!p.cpu.screen_dirty);
}

#[test]
fn empty_program_is_halted_at_once() {
    let mut p = init_program(Vec::new());
    let (_platform, ctx) = create_contexts();
    assert!(p.halted());
    assert!(!p.run_frame(&ctx));
}

#[test]
fn random_and_instruction_masks_some_byte() {
    let (_platform, ctx) = create_contexts();
    let mut p = init_program(Vec::new());
    // 0xC50F: random byte masked with 0x0F into register 5
    let op = OpCode { high: 0xC5, low: 0x0F };
    op.execute(&mut p, &ctx);
    assert!(p.cpu.gp_reg[5] <= 0x0F);
    let op0 = OpCode { high: 0xC6, low: 0x00 };
    op0.execute(&mut p, &ctx);
    assert_eq!(p.cpu.gp_reg[6], 0, "a zero mask forces zero whatever the byte");
}

#[test]
fn run_frame_executes_at_most_the_frame_budget() {
    // forty add-immediate instructions; at 2000 instructions per second a
    // 60Hz frame covers 33 of them
    let mut rom = Vec::new();
    for _ in 0..40 {
        rom.push(0x70); // ADDI register 0, 1
        rom.push(0x01);
    }
    let mut p = init_program(rom);
    let (_platform, ctx) = create_contexts();
    assert!(p.run_frame(&ctx));
    assert_eq!(p.cpu.gp_reg[0], 33);
    assert_eq!(p.pc, 0x200 + 2 * 33);
    assert!(!p.run_frame(&ctx), "the remaining seven instructions finish the program");
    assert_eq!(p.cpu.gp_reg[0], 40);
}

#[test]
fn largest_program_loads_to_the_top_of_memory() {
    let rom = vec![0x00u8; 3584]; // fills memory from 0x200 to its end
    let p = init_program(rom);
    assert_eq!(p.rom.len(), 3584);
    assert_eq!(p.cpu.ram[4095], 0);
    assert_eq!(p.cpu.ram.len(), 4096);
}

#[test]
fn channel_capacities_fix_the_delivery_policies() {
    let (platform, cpu) = create_contexts();
    // keyboard: latest-value, capacity 1
    assert!(platform.keyboard.try_send(vec![false; 16]).is_ok());
    assert!(platform.keyboard.try_send(vec![false; 16]).is_err(), "a pending update blocks the next");
    // single key: rendezvous, no buffering without a waiting receiver
    assert!(platform.single_key.try_send('0').is_err());
    // sound: best-effort, capacity 1
    assert!(cpu.sound.try_send(true).is_ok());
    assert!(cpu.sound.try_send(true).is_err());
    // display: one frame of lag, capacity 2
    assert!(cpu.display.try_send(vec![false; 2048]).is_ok());
    assert!(cpu.display.try_send(vec![false; 2048]).is_ok());
    assert!(cpu.display.try_send(vec![false; 2048]).is_err());
}
