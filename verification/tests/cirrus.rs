use machine_core::cirrus::{
    ChipRevision, Cirrus542x, PixelDepth, SYSTEM_BLIT_CAPACITY, apply_rop, blit_mode,
    blit_modeext, blit_status, idx, port, sr12,
};
use machine_core::OPEN_BUS_BYTE;

fn chip(vram: &mut [u8]) -> Cirrus542x<'_> {
    Cirrus542x::new(ChipRevision::Gd5426, vram)
}

fn unlock(c: &mut Cirrus542x) {
    c.reg_write(port::SEQ_INDEX, idx::SR_LOCK);
    c.reg_write(port::SEQ_DATA, idx::SR_LOCK_UNLOCKED);
}

#[test]
fn revisions_report_their_own_part_id() {
    assert_eq!(ChipRevision::Gd5426.part_id(), 0x90);
    assert_eq!(ChipRevision::Gd5428.part_id(), 0x98);
}

#[test]
fn vram_roundtrips_and_clamps() {
    let mut vram = [0u8; 64];
    let mut card = chip(&mut vram);
    card.vram_write(0, 0xAB);
    assert_eq!(card.vram_read(0), 0xAB);
    card.vram_write(1_000_000, 0xFF);
    assert_eq!(card.vram_read(1_000_000), OPEN_BUS_BYTE);
}

#[test]
fn palette_full_intensity_is_actually_full() {
    let mut vram = [0u8; 16];
    let mut card = chip(&mut vram);
    card.reg_write(port::DAC_WRITE_INDEX, 1);
    card.reg_write(port::DAC_DATA, 0x3F);
    card.reg_write(port::DAC_DATA, 0x3F);
    card.reg_write(port::DAC_DATA, 0x3F);
    assert_eq!(card.palette_argb(1), 0xFFFF_FFFF);
    assert_eq!(card.palette_argb(0), 0xFF00_0000);
}

#[test]
fn sequencer_round_trips_and_gates_extended_registers_on_the_lock() {
    let mut vram = [0u8; 16];
    let mut c = chip(&mut vram);

    c.reg_write(port::SEQ_INDEX, 0x00);
    c.reg_write(port::SEQ_DATA, 0x03);
    assert_eq!(c.reg_read(port::SEQ_DATA), 0x03);

    c.reg_write(port::SEQ_INDEX, 0x0B);
    c.reg_write(port::SEQ_DATA, 0x4A);
    assert_eq!(
        c.reg_read(port::SEQ_DATA),
        OPEN_BUS_BYTE,
        "extended register floats while locked"
    );

    unlock(&mut c);
    c.reg_write(port::SEQ_INDEX, 0x0B);
    c.reg_write(port::SEQ_DATA, 0x4A);
    assert_eq!(c.reg_read(port::SEQ_DATA), 0x4A, "now it takes and holds");

    c.reg_write(port::SEQ_INDEX, idx::SR_LOCK);
    c.reg_write(port::SEQ_DATA, 0x00);
    c.reg_write(port::SEQ_INDEX, 0x0B);
    assert_eq!(c.reg_read(port::SEQ_DATA), OPEN_BUS_BYTE);
}

#[test]
fn crtc_round_trips_protects_cr0_7_and_reports_the_part_id() {
    let mut vram = [0u8; 16];
    let mut c = chip(&mut vram);

    c.reg_write(port::CRTC_INDEX_COLOR, 0x01);
    c.reg_write(port::CRTC_DATA_COLOR, 0x4F);
    assert_eq!(c.reg_read(port::CRTC_DATA_COLOR), 0x4F);
    c.reg_write(port::CRTC_INDEX_MONO, 0x01);
    assert_eq!(c.reg_read(port::CRTC_DATA_MONO), 0x4F);

    c.reg_write(port::CRTC_INDEX_COLOR, 0x11);
    c.reg_write(port::CRTC_DATA_COLOR, 0x80);
    c.reg_write(port::CRTC_INDEX_COLOR, 0x01);
    c.reg_write(port::CRTC_DATA_COLOR, 0x00);
    assert_eq!(c.reg_read(port::CRTC_DATA_COLOR), 0x4F, "still protected");
    c.reg_write(port::CRTC_INDEX_COLOR, 0x07);
    c.reg_write(port::CRTC_DATA_COLOR, 0x10);
    assert_eq!(c.reg_read(port::CRTC_DATA_COLOR), 0x10);

    c.reg_write(port::CRTC_INDEX_COLOR, 0x27);
    assert_eq!(c.reg_read(port::CRTC_DATA_COLOR), 0x90, "GD5426 part id");
    c.reg_write(port::CRTC_DATA_COLOR, 0xAA);
    assert_eq!(c.reg_read(port::CRTC_DATA_COLOR), 0x90, "still the part id");
}

#[test]
fn part_id_follows_the_revision() {
    let mut vram = [0u8; 16];
    let mut c = Cirrus542x::new(ChipRevision::Gd5428, &mut vram);
    c.reg_write(port::CRTC_INDEX_COLOR, 0x27);
    assert_eq!(c.reg_read(port::CRTC_DATA_COLOR), 0x98);
}

#[test]
fn vertical_retrace_interrupt_is_disabled_out_of_reset() {
    let mut vram = [0u8; 16];
    let mut c = chip(&mut vram);
    c.signal_vertical_retrace();
    assert!(!c.irq_pending(), "disabled by CR11's own reset value");
    assert_eq!(
        c.reg_read(port::MISC_OUTPUT),
        0,
        "Input Status 0 bit 7 clear"
    );
}

#[test]
fn disable_bit_is_inverted_one_disables_zero_enables() {
    let mut vram = [0u8; 16];
    let mut c = chip(&mut vram);
    c.reg_write(port::CRTC_INDEX_COLOR, 0x11);
    c.reg_write(port::CRTC_DATA_COLOR, 0x30);
    c.signal_vertical_retrace();
    assert!(
        !c.irq_pending(),
        "bit 5 set (disable) must suppress the interrupt"
    );

    c.reg_write(port::CRTC_INDEX_COLOR, 0x11);
    c.reg_write(port::CRTC_DATA_COLOR, 0x10);
    c.signal_vertical_retrace();
    assert!(c.irq_pending(), "bit 5 clear (enable) must let it through");
    assert_eq!(
        c.reg_read(port::MISC_OUTPUT) & 0x80,
        0x80,
        "Input Status 0 bit 7 reports it"
    );
}

#[test]
fn clear_bit_is_also_inverted_zero_clears_one_leaves_it_armed() {
    let mut vram = [0u8; 16];
    let mut c = chip(&mut vram);
    c.reg_write(port::CRTC_INDEX_COLOR, 0x11);
    c.reg_write(port::CRTC_DATA_COLOR, 0x10);
    c.signal_vertical_retrace();
    assert!(c.irq_pending());

    c.reg_write(port::CRTC_INDEX_COLOR, 0x11);
    c.reg_write(port::CRTC_DATA_COLOR, 0x10);
    assert!(c.irq_pending(), "rewriting bit 4 high leaves it latched");

    c.reg_write(port::CRTC_INDEX_COLOR, 0x11);
    c.reg_write(port::CRTC_DATA_COLOR, 0x00);
    assert!(!c.irq_pending(), "bit 4 low acknowledges it");

    c.reg_write(port::CRTC_INDEX_COLOR, 0x11);
    c.reg_write(port::CRTC_DATA_COLOR, 0x10);
    c.signal_vertical_retrace();
    assert!(
        c.irq_pending(),
        "re-armed and re-latched on the next retrace"
    );
}

#[test]
fn signal_without_arming_never_latches() {
    let mut vram = [0u8; 16];
    let mut c = chip(&mut vram);
    for _ in 0..10 {
        c.signal_vertical_retrace();
    }
    assert!(!c.irq_pending());
}

#[test]
fn graphics_controller_round_trips_and_gates_extensions() {
    let mut vram = [0u8; 16];
    let mut c = chip(&mut vram);

    c.reg_write(port::GR_INDEX, 0x00);
    c.reg_write(port::GR_DATA, 0x0F);
    assert_eq!(c.reg_read(port::GR_DATA), 0x0F);

    c.reg_write(port::GR_INDEX, 0x09);
    c.reg_write(port::GR_DATA, 0x02);
    assert_eq!(c.reg_read(port::GR_DATA), OPEN_BUS_BYTE);

    unlock(&mut c);
    c.reg_write(port::GR_INDEX, 0x09);
    c.reg_write(port::GR_DATA, 0x02);
    assert_eq!(c.reg_read(port::GR_DATA), 0x02);
}

#[test]
fn attribute_controller_flip_flop_and_its_reset_on_status_read() {
    let mut vram = [0u8; 16];
    let mut c = chip(&mut vram);

    c.reg_write(port::AC_INDEX_DATA, 0x05);
    c.reg_write(port::AC_INDEX_DATA, 0x77);
    assert_eq!(c.reg_read(port::AC_DATA_READ), 0x77);

    c.reg_write(port::AC_INDEX_DATA, 0x06);
    let _ = c.reg_read(port::INPUT_STATUS_1_COLOR);
    c.reg_write(port::AC_INDEX_DATA, 0x08);
    c.reg_write(port::AC_INDEX_DATA, 0x99);
    assert_eq!(c.reg_read(port::AC_DATA_READ), 0x99);
    c.reg_write(port::AC_INDEX_DATA, 0x06);
    assert_eq!(c.reg_read(port::AC_DATA_READ), 0x00);
}

#[test]
fn palette_write_sequence_is_three_writes_per_entry_auto_incrementing() {
    let mut vram = [0u8; 16];
    let mut c = chip(&mut vram);

    c.reg_write(port::DAC_WRITE_INDEX, 10);
    c.reg_write(port::DAC_DATA, 0x10);
    c.reg_write(port::DAC_DATA, 0x20);
    c.reg_write(port::DAC_DATA, 0x30);
    c.reg_write(port::DAC_DATA, 0x01);
    c.reg_write(port::DAC_DATA, 0x02);
    c.reg_write(port::DAC_DATA, 0x03);

    c.reg_write(port::DAC_READ_INDEX, 10);
    assert_eq!(c.reg_read(port::DAC_DATA), 0x10);
    assert_eq!(c.reg_read(port::DAC_DATA), 0x20);
    assert_eq!(c.reg_read(port::DAC_DATA), 0x30);
    assert_eq!(c.reg_read(port::DAC_DATA), 0x01, "auto-incremented to 11");

    let expand = |six: u32| (six << 2) | (six >> 4);
    let expected = 0xFF00_0000 | (expand(0x10) << 16) | (expand(0x20) << 8) | expand(0x30);
    assert_eq!(c.palette_argb(10), expected);
}

#[test]
fn cursor_palette_select_redirects_dac_writes_away_from_the_screen_palette() {
    let mut vram = [0u8; 16];
    let mut c = chip(&mut vram);
    c.reg_write(port::SEQ_INDEX, idx::SR_LOCK);
    c.reg_write(port::SEQ_DATA, idx::SR_LOCK_UNLOCKED);

    c.reg_write(port::DAC_WRITE_INDEX, 0);
    c.reg_write(port::DAC_DATA, 0x2A);
    c.reg_write(port::DAC_DATA, 0x2A);
    c.reg_write(port::DAC_DATA, 0x2A);
    let grey = c.palette_argb(0);

    c.reg_write(port::SEQ_INDEX, idx::SR_CURSOR_ATTR);
    c.reg_write(port::SEQ_DATA, sr12::CURSOR_PALETTE_SELECT);
    c.reg_write(port::DAC_WRITE_INDEX, 0);
    c.reg_write(port::DAC_DATA, 0x3F);
    c.reg_write(port::DAC_DATA, 0x00);
    c.reg_write(port::DAC_DATA, 0x00);

    assert_eq!(
        c.palette_argb(0),
        grey,
        "cursor colour write leaked into the screen palette"
    );

    c.reg_write(port::DAC_READ_INDEX, 0);
    assert_eq!(c.reg_read(port::DAC_DATA), 0x3F);
    assert_eq!(c.reg_read(port::DAC_DATA), 0x00);
    assert_eq!(c.reg_read(port::DAC_DATA), 0x00);

    c.reg_write(port::SEQ_INDEX, idx::SR_CURSOR_ATTR);
    c.reg_write(port::SEQ_DATA, 0);
    c.reg_write(port::DAC_READ_INDEX, 0);
    assert_eq!(c.reg_read(port::DAC_DATA), 0x2A);
}

#[test]
fn hidden_dac_needs_the_unlock_and_the_four_pel_mask_read_arming_sequence() {
    let mut vram = [0u8; 16];
    let mut c = chip(&mut vram);

    c.reg_write(port::PEL_MASK, 0xAB);
    for _ in 0..6 {
        assert_eq!(c.reg_read(port::PEL_MASK), 0xAB);
    }

    unlock(&mut c);
    c.reg_write(port::PEL_MASK, 0xAB);
    for _ in 0..4 {
        assert_eq!(
            c.reg_read(port::PEL_MASK),
            0xAB,
            "still pixel mask before the 5th read"
        );
    }
    c.reg_write(port::PEL_MASK, 0xC1);
    for _ in 0..4 {
        let _ = c.reg_read(port::PEL_MASK);
    }
    assert_eq!(c.reg_read(port::PEL_MASK), 0xC1);

    for _ in 0..2 {
        let _ = c.reg_read(port::PEL_MASK);
    }
    let _ = c.reg_read(port::MISC_OUTPUT_READ);
    for _ in 0..4 {
        assert_eq!(c.reg_read(port::PEL_MASK), 0xAB);
    }
    assert_eq!(c.reg_read(port::PEL_MASK), 0xC1);
}

fn programmed(
    c: &mut Cirrus542x,
    width: u32,
    height: u32,
    stride_bytes: u32,
    start_offset: u32,
) {
    unlock(c);
    c.reg_write(port::SEQ_INDEX, 0x00);
    c.reg_write(port::SEQ_DATA, 0x03);
    c.reg_write(port::SEQ_INDEX, 0x01);
    c.reg_write(port::SEQ_DATA, 0x00);
    c.reg_write(port::SEQ_INDEX, idx::SR_EXTENDED_MODE);
    c.reg_write(port::SEQ_DATA, 0x01);

    c.reg_write(port::CRTC_INDEX_COLOR, 0x01);
    c.reg_write(port::CRTC_DATA_COLOR, (width / 8 - 1) as u8);

    let vde = height - 1;
    c.reg_write(port::CRTC_INDEX_COLOR, 0x12);
    c.reg_write(port::CRTC_DATA_COLOR, vde as u8);
    let mut cr07 = 0u8;
    if vde & 0x100 != 0 {
        cr07 |= 0x02;
    }
    if vde & 0x200 != 0 {
        cr07 |= 0x40;
    }
    c.reg_write(port::CRTC_INDEX_COLOR, 0x07);
    c.reg_write(port::CRTC_DATA_COLOR, cr07);

    let pitch_units = stride_bytes / 8;
    c.reg_write(port::CRTC_INDEX_COLOR, 0x13);
    c.reg_write(port::CRTC_DATA_COLOR, pitch_units as u8);
    let mut cr1b = if pitch_units & 0x100 != 0 { 0x10 } else { 0 };

    let start_units = start_offset / 4;
    c.reg_write(port::CRTC_INDEX_COLOR, 0x0C);
    c.reg_write(port::CRTC_DATA_COLOR, (start_units >> 8) as u8);
    c.reg_write(port::CRTC_INDEX_COLOR, 0x0D);
    c.reg_write(port::CRTC_DATA_COLOR, start_units as u8);
    if start_units & 0x1_0000 != 0 {
        cr1b |= 0x01;
    }
    if start_units & 0x2_0000 != 0 {
        cr1b |= 0x04;
    }
    if start_units & 0x4_0000 != 0 {
        cr1b |= 0x08;
    }
    c.reg_write(port::CRTC_INDEX_COLOR, 0x1B);
    c.reg_write(port::CRTC_DATA_COLOR, cr1b);
}

#[test]
fn decoded_mode_640x480x8() {
    let mut vram = [0u8; 640 * 480 + 0x1_0000];
    let mut c = chip(&mut vram);
    programmed(&mut c, 640, 480, 640, 0);
    let mode = c.decoded_mode().expect("a programmed 640x480x8 mode");
    assert_eq!(mode.width, 640);
    assert_eq!(mode.height, 480);
    assert_eq!(mode.depth, PixelDepth::Bpp8);
    assert_eq!(mode.stride_bytes, 640);
    assert_eq!(mode.start_offset, 0);
}

#[test]
fn decoded_mode_800x600x16_with_panning() {
    let mut vram = vec![0u8; 800 * 600 * 2 + 8192];
    let mut c = chip(&mut vram);
    let stride = 800 * 2;
    let start = 4096u32;
    programmed(&mut c, 800, 600, stride as u32, start);
    c.reg_write(port::SEQ_INDEX, idx::SR_EXTENDED_MODE);
    c.reg_write(port::SEQ_DATA, 0x01);
    for _ in 0..4 {
        let _ = c.reg_read(port::PEL_MASK);
    }
    c.reg_write(port::PEL_MASK, 0xC1);

    let mode = c.decoded_mode().expect("a programmed 800x600x16 mode");
    assert_eq!(mode.width, 800);
    assert_eq!(mode.height, 600);
    assert_eq!(mode.depth, PixelDepth::Bpp16);
    assert_eq!(mode.stride_bytes, stride as u32);
    assert_eq!(mode.start_offset, start);
}

#[test]
fn decoded_mode_is_none_out_of_reset() {
    let mut vram = [0u8; 4096];
    let c = chip(&mut vram);
    assert_eq!(
        c.decoded_mode(),
        None,
        "SR0's reset bits are clear at power-on"
    );
}

#[test]
fn decoded_mode_is_none_while_extensions_are_locked_or_screen_is_off() {
    let mut vram = vec![0u8; 640 * 480 + 0x1_0000];
    let mut c = chip(&mut vram);
    programmed(&mut c, 640, 480, 640, 0);

    c.reg_write(port::SEQ_INDEX, 0x01);
    c.reg_write(port::SEQ_DATA, 0x20);
    assert_eq!(c.decoded_mode(), None);
    c.reg_write(port::SEQ_DATA, 0x00);
    assert!(c.decoded_mode().is_some(), "sanity: back on");

    c.reg_write(port::SEQ_INDEX, idx::SR_EXTENDED_MODE);
    c.reg_write(port::SEQ_DATA, 0x00);
    assert_eq!(c.decoded_mode(), None);
}

#[test]
fn decoded_mode_does_not_panic_on_nonsense_register_state() {
    let mut vram = [0u8; 64];
    let mut c = chip(&mut vram);
    unlock(&mut c);
    c.reg_write(port::SEQ_INDEX, 0x00);
    c.reg_write(port::SEQ_DATA, 0x03);
    c.reg_write(port::SEQ_INDEX, idx::SR_EXTENDED_MODE);
    c.reg_write(port::SEQ_DATA, 0x01);
    for (index, value) in [
        (0x01u8, 0xFFu8),
        (0x12, 0xFF),
        (0x07, 0xFF),
        (0x13, 0xFF),
        (0x1B, 0xFF),
        (0x0C, 0xFF),
        (0x0D, 0xFF),
        (0x08, 0xFF),
    ] {
        c.reg_write(port::CRTC_INDEX_COLOR, index);
        c.reg_write(port::CRTC_DATA_COLOR, value);
    }
    for _ in 0..4 {
        let _ = c.reg_read(port::PEL_MASK);
    }
    c.reg_write(port::PEL_MASK, 0xFF);
    assert_eq!(c.decoded_mode(), None, "runs off a 64-byte VRAM");
}

fn gr_write(c: &mut Cirrus542x, index: u8, value: u8) {
    c.reg_write(port::GR_INDEX, index);
    c.reg_write(port::GR_DATA, value);
}

fn gr_read(c: &mut Cirrus542x, index: u8) -> u8 {
    c.reg_write(port::GR_INDEX, index);
    c.reg_read(port::GR_DATA)
}

#[allow(clippy::too_many_arguments)]
fn setup_blit(
    c: &mut Cirrus542x,
    width: usize,
    height: usize,
    dst_pitch: usize,
    src_pitch: usize,
    dst: usize,
    src: usize,
    mode: u8,
) {
    unlock(c);
    let w = width - 1;
    let h = height - 1;
    for (index, value) in [
        (idx::GR_BLIT_WIDTH_LO, w as u8),
        (idx::GR_BLIT_WIDTH_LO + 1, (w >> 8) as u8),
        (idx::GR_BLIT_HEIGHT_LO, h as u8),
        (idx::GR_BLIT_HEIGHT_LO + 1, (h >> 8) as u8),
        (idx::GR_BLIT_DST_PITCH_LO, dst_pitch as u8),
        (idx::GR_BLIT_DST_PITCH_LO + 1, (dst_pitch >> 8) as u8),
        (idx::GR_BLIT_SRC_PITCH_LO, src_pitch as u8),
        (idx::GR_BLIT_SRC_PITCH_LO + 1, (src_pitch >> 8) as u8),
        (idx::GR_BLIT_DST_ADDR_LO, dst as u8),
        (idx::GR_BLIT_DST_ADDR_LO + 1, (dst >> 8) as u8),
        (idx::GR_BLIT_DST_ADDR_LO + 2, (dst >> 16) as u8),
        (idx::GR_BLIT_SRC_ADDR_LO, src as u8),
        (idx::GR_BLIT_SRC_ADDR_LO + 1, (src >> 8) as u8),
        (idx::GR_BLIT_SRC_ADDR_LO + 2, (src >> 16) as u8),
        (idx::GR_BLIT_MODE, mode),
    ] {
        gr_write(c, index, value);
    }
}

fn trigger_blit(c: &mut Cirrus542x) {
    gr_write(c, idx::GR_BLIT_START_STATUS, blit_status::START);
}

fn read_range(c: &Cirrus542x, at: usize, len: usize) -> Vec<u8> {
    (at..at + len).map(|i| c.vram_read(i)).collect()
}

#[test]
fn solid_fill_rectangle_including_partial_width() {
    let mut vram = [0u8; 32];
    let mut c = chip(&mut vram);
    unlock(&mut c);
    gr_write(&mut c, idx::GR_FG0, 0xAB);
    gr_write(&mut c, idx::GR_BLIT_MODE_EXT, blit_modeext::SOLID_FILL);
    setup_blit(
        &mut c,
        4,
        3,
        8,
        0,
        0,
        0,
        blit_mode::PATTERN | blit_mode::COLOR_EXPAND,
    );
    gr_write(&mut c, idx::GR_BLIT_ROP, 0x0D);
    trigger_blit(&mut c);

    for row in 0..3 {
        let base = row * 8;
        assert_eq!(read_range(&c, base, 4), [0xAB; 4], "row {row} filled");
        assert_eq!(
            read_range(&c, base + 4, 4),
            [0; 4],
            "row {row} past the fill width is untouched"
        );
    }
}

#[test]
fn colour_expansion_from_monochrome_source_both_polarities() {
    let mut vram = [0u8; 32];
    let mut c = chip(&mut vram);
    gr_write(&mut c, idx::GR_FG0, 0xEE);
    gr_write(&mut c, idx::GR_BG0, 0x11);
    c.vram_write(16, 0b1100_0001);
    setup_blit(&mut c, 8, 1, 8, 0, 0, 16, blit_mode::COLOR_EXPAND);
    gr_write(&mut c, idx::GR_BLIT_ROP, 0x0D);
    trigger_blit(&mut c);
    assert_eq!(
        read_range(&c, 0, 8),
        [0xEE, 0xEE, 0x11, 0x11, 0x11, 0x11, 0x11, 0xEE]
    );

    c.vram_write(16, 0b0011_1110);
    setup_blit(&mut c, 8, 1, 8, 0, 0, 16, blit_mode::COLOR_EXPAND);
    gr_write(&mut c, idx::GR_BLIT_ROP, 0x0D);
    trigger_blit(&mut c);
    assert_eq!(
        read_range(&c, 0, 8),
        [0x11, 0x11, 0xEE, 0xEE, 0xEE, 0xEE, 0xEE, 0x11],
        "the complementary source flips every pixel's colour"
    );
}

#[test]
fn screen_to_screen_move_forwards_backwards_and_overlapping() {
    let mut vram = [0u8; 32];
    let mut c = chip(&mut vram);
    for (i, b) in [1u8, 2, 3, 4].into_iter().enumerate() {
        c.vram_write(i, b);
    }
    setup_blit(&mut c, 4, 1, 8, 8, 16, 0, 0);
    gr_write(&mut c, idx::GR_BLIT_ROP, 0x0D);
    trigger_blit(&mut c);
    assert_eq!(read_range(&c, 16, 4), [1, 2, 3, 4], "plain forward move");

    for (i, b) in [10u8, 11, 12, 13, 14, 15, 16, 17].into_iter().enumerate() {
        c.vram_write(i, b);
    }
    setup_blit(&mut c, 6, 1, 8, 8, 7, 5, blit_mode::BACKWARDS);
    gr_write(&mut c, idx::GR_BLIT_ROP, 0x0D);
    trigger_blit(&mut c);
    assert_eq!(read_range(&c, 2, 6), [10, 11, 12, 13, 14, 15]);
}

#[test]
fn transparency_skips_matching_source_pixels() {
    let mut vram = [0u8; 32];
    let mut c = chip(&mut vram);
    c.vram_write(0, 0x00);
    c.vram_write(1, 0x7A);
    c.vram_write(16, 0x55);
    c.vram_write(17, 0x55);
    setup_blit(&mut c, 2, 1, 2, 2, 16, 0, blit_mode::TRANSPARENT);
    gr_write(&mut c, idx::GR_BLIT_ROP, 0x0D);
    trigger_blit(&mut c);
    assert_eq!(
        read_range(&c, 16, 2),
        [0x55, 0x7A],
        "the zero source byte left its destination alone"
    );
}

#[test]
fn rops_match_independently_hand_derived_expectations() {
    let cases: [(u8, u8); 16] = [
        (0x00, 0x00),
        (0x05, 0xF0 & 0xCC),
        (0x06, 0xCC),
        (0x09, 0xF0 & 0x33),
        (0x0B, 0x33),
        (0x0D, 0xF0),
        (0x0E, 0xFF),
        (0x50, 0x0F & 0xCC),
        (0x59, 0xF0 ^ 0xCC),
        (0x6D, 0xF0 | 0xCC),
        (0x90, 0x0F & 0x33),
        (0x95, 0xC3),
        (0xAD, 0xF0 | 0x33),
        (0xD0, 0x0F),
        (0xD6, 0x0F | 0xCC),
        (0xDA, 0x0F | 0x33),
    ];
    for (rop, expected) in cases {
        assert_eq!(
            apply_rop(rop, 0xF0, 0xCC),
            expected,
            "rop {rop:#04x}: source=0xF0 dest=0xCC"
        );
    }
    assert_eq!(apply_rop(0x90, 0xFF, 0x00), 0x00, "NOR(1,0) = 0");
    assert_eq!(apply_rop(0x90, 0x00, 0x00), 0xFF, "NOR(0,0) = 1");
    assert_eq!(apply_rop(0xDA, 0xFF, 0xFF), 0x00, "NAND(1,1) = 0");
    assert_eq!(apply_rop(0xDA, 0xFF, 0x00), 0xFF, "NAND(1,0) = 1");
}

#[test]
fn busy_bit_clears_so_a_polling_driver_makes_progress() {
    let mut vram = [0u8; 32];
    let mut c = chip(&mut vram);
    setup_blit(&mut c, 1, 1, 1, 1, 0, 0, 0);
    trigger_blit(&mut c);
    assert_eq!(
        gr_read(&mut c, idx::GR_BLIT_START_STATUS) & blit_status::BUSY_MASK,
        0,
        "immediate blit: never observably busy"
    );

    setup_blit(&mut c, 4, 1, 0, 0, 8, 0, blit_mode::SYSTEM_SOURCE);
    gr_write(&mut c, idx::GR_BLIT_ROP, 0x0D);
    trigger_blit(&mut c);
    assert_ne!(
        gr_read(&mut c, idx::GR_BLIT_START_STATUS) & blit_status::BUSY_MASK,
        0,
        "armed and waiting for host data"
    );
    for byte in [1u8, 2, 3] {
        c.vram_write(0, byte);
        assert_ne!(
            gr_read(&mut c, idx::GR_BLIT_START_STATUS) & blit_status::BUSY_MASK,
            0,
            "still short of the 4 bytes this transfer needs"
        );
    }
    c.vram_write(0, 4);
    assert_eq!(
        gr_read(&mut c, idx::GR_BLIT_START_STATUS) & blit_status::BUSY_MASK,
        0,
        "the 4th byte completes the transfer and runs it"
    );
    assert_eq!(read_range(&c, 8, 4), [1, 2, 3, 4]);
}

#[test]
fn bounds_safety_wild_registers_never_panic() {
    let mut vram = [0u8; 16];
    let mut c = chip(&mut vram);
    setup_blit(
        &mut c,
        2048,
        1024,
        0x1FFF,
        0x1FFF,
        0x1F_FFFF,
        0x1F_FFFF,
        blit_mode::COLOR_EXPAND | blit_mode::TRANSPARENT | blit_mode::BACKWARDS,
    );
    gr_write(&mut c, idx::GR_BLIT_ROP, 0x59);
    trigger_blit(&mut c);

    setup_blit(
        &mut c,
        2048,
        1024,
        0,
        0,
        0,
        0,
        blit_mode::SYSTEM_SOURCE | blit_mode::COLOR_EXPAND,
    );
    trigger_blit(&mut c);
    for _ in 0..(SYSTEM_BLIT_CAPACITY + 1024) {
        c.vram_write(0, 0xFF);
    }
    assert!(
        gr_read(&mut c, idx::GR_BLIT_START_STATUS) & blit_status::BUSY_MASK != 0,
        "still short of this (oversized) transfer's declared byte count"
    );
}
