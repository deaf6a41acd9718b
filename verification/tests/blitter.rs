use machine_core::blitter::{
    BLTCON1_AUL, BLTCON1_DESC, BLTCON1_EFE, BLTCON1_FCI, BLTCON1_IFE, BLTCON1_LINE,
    BLTCON1_SIGN, BLTCON1_SUD, BLTCON1_SUL, Blitter, CHAN_A, CHAN_D, DMACONR_BZERO, minterm,
    reg,
};
use machine_core::CHIP_RAM_SIZE;

#[test]
fn bltsize_zero_fields_mean_maximum() {
    let mut b = Blitter::new();
    b.write(reg::BLTSIZE, 0);
    assert_eq!(b.height_rows, 1024);
    assert_eq!(b.width_words, 64);
}

#[test]
fn bltsize_packs_height_and_width() {
    let mut b = Blitter::new();
    b.write(reg::BLTSIZE, (3 << 6) | 5);
    assert_eq!(b.height_rows, 3);
    assert_eq!(b.width_words, 5);
}

#[test]
fn size_write_arms_a_blit() {
    let mut b = Blitter::new();
    assert!(!b.pending());
    assert!(b.write(reg::BLTSIZE, (1 << 6) | 1));
    assert!(b.pending());
}

#[test]
fn bltsizv_alone_does_not_start_a_blit() {
    let mut b = Blitter::new();
    assert!(!b.write(reg::BLTSIZV, 4));
    assert!(!b.pending(), "BLTSIZH is what starts an ECS-sized blit");
    assert!(b.write(reg::BLTSIZH, 2));
    assert!(b.pending());
}

#[test]
fn pointers_ignore_bit_zero() {
    let mut b = Blitter::new();
    b.write(reg::BLTAPTH, 0x0001);
    b.write(reg::BLTAPTL, 0x1235);
    assert_eq!(b.pt[CHAN_A], 0x0001_1234);
}

#[test]
fn bltcon0l_preserves_the_minterm_byte() {
    let mut b = Blitter::new();
    b.write(reg::BLTCON0, 0xABCD);
    b.write(reg::BLTCON0L, 0x0012);
    assert_eq!(b.bltcon0, 0xAB12);
}

#[test]
fn write_only_registers_read_open_bus() {
    let mut b = Blitter::new();
    assert_eq!(b.read(reg::BLTCON0), 0xFFFF);
}

fn new_ram() -> Box<[u8; CHIP_RAM_SIZE]> {
    let boxed_slice: Box<[u8]> = vec![0u8; CHIP_RAM_SIZE].into_boxed_slice();
    boxed_slice
        .try_into()
        .unwrap_or_else(|_| unreachable!("boxed_slice has exactly CHIP_RAM_SIZE elements"))
}

fn poke_word(ram: &mut [u8; CHIP_RAM_SIZE], addr: u32, value: u16) {
    let off = addr as usize;
    let b = value.to_be_bytes();
    ram[off] = b[0];
    ram[off + 1] = b[1];
}

fn peek_word(ram: &[u8; CHIP_RAM_SIZE], addr: u32) -> u16 {
    let off = addr as usize;
    u16::from_be_bytes([ram[off], ram[off + 1]])
}

#[test]
fn minterms_match_independent_truth_table() {
    fn truth_table_bit(lf: u8, a: bool, b: bool, c: bool) -> bool {
        let idx = ((a as u8) << 2) | ((b as u8) << 1) | (c as u8);
        (lf >> idx) & 1 != 0
    }

    for lf in 0u16..=255 {
        let lf = lf as u8;
        for &a in &[false, true] {
            for &b in &[false, true] {
                for &c in &[false, true] {
                    let aw = if a { 0xFFFF } else { 0 };
                    let bw = if b { 0xFFFF } else { 0 };
                    let cw = if c { 0xFFFF } else { 0 };
                    let got = minterm(lf, aw, bw, cw);
                    let expected = if truth_table_bit(lf, a, b, c) {
                        0xFFFF
                    } else {
                        0
                    };
                    assert_eq!(got, expected, "lf={lf:#04x} a={a} b={b} c={c}");
                }
            }
        }
    }
}

#[test]
fn plain_bltbitmap_straight_copy() {
    let mut ram = new_ram();
    for i in 0..8u32 {
        poke_word(&mut ram, i * 2, 0x1111 * (i as u16 + 1));
    }
    let mut b = Blitter::new();
    b.write(reg::BLTCON0, 0x0FF0);
    b.write(reg::BLTCON1, 0x0000);
    b.write(reg::BLTAFWM, 0xFFFF);
    b.write(reg::BLTALWM, 0xFFFF);
    b.write(reg::BLTAPTH, 0);
    b.write(reg::BLTAPTL, 0);
    b.write(reg::BLTDPTH, 0);
    b.write(reg::BLTDPTL, 100);
    b.write(reg::BLTAMOD, 0);
    b.write(reg::BLTDMOD, 0);
    b.write(reg::BLTSIZE, (1 << 6) | 8);
    assert!(b.execute(&mut ram));

    for i in 0..8u32 {
        assert_eq!(peek_word(&ram, 100 + i * 2), 0x1111 * (i as u16 + 1));
    }
    assert_eq!(b.pt[CHAN_A], 16);
    assert_eq!(b.pt[CHAN_D], 116);
    assert!(!b.zero);
    assert_eq!(b.dmaconr_bits(), 0);
}

#[test]
fn bzero_true_when_every_written_word_is_zero() {
    let mut ram = new_ram();
    let mut b = Blitter::new();
    b.write(reg::BLTCON0, 0x0FF0);
    b.write(reg::BLTCON1, 0);
    b.write(reg::BLTAFWM, 0xFFFF);
    b.write(reg::BLTALWM, 0xFFFF);
    b.write(reg::BLTDPTH, 0);
    b.write(reg::BLTDPTL, 0);
    b.write(reg::BLTSIZE, (1 << 6) | 4);
    assert!(b.execute(&mut ram));
    assert!(b.zero);
    assert_eq!(b.dmaconr_bits(), DMACONR_BZERO);
}

#[test]
fn shift_a_carries_across_words_ascending() {
    let mut ram = new_ram();
    poke_word(&mut ram, 0, 0x1234);
    poke_word(&mut ram, 2, 0x5678);
    let mut b = Blitter::new();
    b.write(reg::BLTCON0, 0x4FF0);
    b.write(reg::BLTCON1, 0x0000);
    b.write(reg::BLTAFWM, 0xFFFF);
    b.write(reg::BLTALWM, 0xFFFF);
    b.write(reg::BLTAPTL, 0);
    b.write(reg::BLTDPTL, 100);
    b.write(reg::BLTSIZE, (1 << 6) | 2);
    assert!(b.execute(&mut ram));

    assert_eq!(peek_word(&ram, 100), 0x0123);
    assert_eq!(peek_word(&ram, 102), 0x4567);
}

#[test]
fn shift_a_carries_across_words_descending() {
    let mut ram = new_ram();
    poke_word(&mut ram, 0, 0x1234);
    poke_word(&mut ram, 2, 0x5678);
    let mut b = Blitter::new();
    b.write(reg::BLTCON0, 0x4FF0);
    b.write(reg::BLTCON1, BLTCON1_DESC);
    b.write(reg::BLTAFWM, 0xFFFF);
    b.write(reg::BLTALWM, 0xFFFF);
    b.write(reg::BLTAPTL, 2);
    b.write(reg::BLTDPTL, 102);
    b.write(reg::BLTSIZE, (1 << 6) | 2);
    assert!(b.execute(&mut ram));

    assert_eq!(peek_word(&ram, 102), 0x6780);
    assert_eq!(peek_word(&ram, 100), 0x2345);
}

#[test]
fn first_and_last_word_masks() {
    let mut ram = new_ram();
    poke_word(&mut ram, 0, 0xFFFF);
    poke_word(&mut ram, 2, 0xFFFF);
    poke_word(&mut ram, 4, 0xFFFF);
    let mut b = Blitter::new();
    b.write(reg::BLTCON0, 0x0FF0);
    b.write(reg::BLTCON1, 0);
    b.write(reg::BLTAFWM, 0xFF00);
    b.write(reg::BLTALWM, 0x00FF);
    b.write(reg::BLTAPTL, 0);
    b.write(reg::BLTDPTL, 100);
    b.write(reg::BLTSIZE, (1 << 6) | 3);
    assert!(b.execute(&mut ram));

    assert_eq!(peek_word(&ram, 100), 0xFF00, "first word: AFWM only");
    assert_eq!(peek_word(&ram, 102), 0xFFFF, "middle word: unmasked");
    assert_eq!(peek_word(&ram, 104), 0x00FF, "last word: ALWM only");
}

#[test]
fn masks_both_apply_on_a_one_word_row() {
    let mut ram = new_ram();
    poke_word(&mut ram, 0, 0xFFFF);
    let mut b = Blitter::new();
    b.write(reg::BLTCON0, 0x0FF0);
    b.write(reg::BLTCON1, 0);
    b.write(reg::BLTAFWM, 0xFF00);
    b.write(reg::BLTALWM, 0x00FF);
    b.write(reg::BLTAPTL, 0);
    b.write(reg::BLTDPTL, 100);
    b.write(reg::BLTSIZE, (1 << 6) | 1);
    assert!(b.execute(&mut ram));
    assert_eq!(peek_word(&ram, 100), 0x0000);
}

#[test]
fn inclusive_fill_without_carry_in() {
    let mut ram = new_ram();
    poke_word(&mut ram, 0, 0x1008);
    let mut b = Blitter::new();
    b.write(reg::BLTCON0, 0x0FF0);
    b.write(reg::BLTCON1, BLTCON1_DESC | BLTCON1_IFE);
    b.write(reg::BLTAFWM, 0xFFFF);
    b.write(reg::BLTALWM, 0xFFFF);
    b.write(reg::BLTAPTL, 0);
    b.write(reg::BLTDPTL, 100);
    b.write(reg::BLTSIZE, (1 << 6) | 1);
    assert!(b.execute(&mut ram));
    assert_eq!(peek_word(&ram, 100), 0x1FF8);
}

#[test]
fn exclusive_fill_without_carry_in() {
    let mut ram = new_ram();
    poke_word(&mut ram, 0, 0x1008);
    let mut b = Blitter::new();
    b.write(reg::BLTCON0, 0x0FF0);
    b.write(reg::BLTCON1, BLTCON1_DESC | BLTCON1_EFE);
    b.write(reg::BLTAFWM, 0xFFFF);
    b.write(reg::BLTALWM, 0xFFFF);
    b.write(reg::BLTAPTL, 0);
    b.write(reg::BLTDPTL, 100);
    b.write(reg::BLTSIZE, (1 << 6) | 1);
    assert!(b.execute(&mut ram));
    assert_eq!(peek_word(&ram, 100), 0x0FF8);
}

#[test]
fn inclusive_fill_carry_in_changes_the_result() {
    let mut ram = new_ram();
    poke_word(&mut ram, 0, 0x1000);
    poke_word(&mut ram, 2, 0x1000);
    let mut b = Blitter::new();
    b.write(reg::BLTCON0, 0x0FF0);
    b.write(reg::BLTAFWM, 0xFFFF);
    b.write(reg::BLTALWM, 0xFFFF);

    b.write(reg::BLTAPTH, 0);
    b.write(reg::BLTAPTL, 0);
    b.write(reg::BLTDPTH, 0);
    b.write(reg::BLTCON1, BLTCON1_DESC | BLTCON1_IFE);
    b.write(reg::BLTDPTL, 100);
    b.write(reg::BLTSIZE, (1 << 6) | 1);
    assert!(b.execute(&mut ram));
    assert_eq!(
        peek_word(&ram, 100),
        0xF000,
        "no carry-in: fills after the edge only"
    );

    b.write(reg::BLTCON1, BLTCON1_DESC | BLTCON1_IFE | BLTCON1_FCI);
    b.write(reg::BLTAPTH, 0);
    b.write(reg::BLTAPTL, 2);
    b.write(reg::BLTDPTH, 0);
    b.write(reg::BLTDPTL, 102);
    b.write(reg::BLTSIZE, (1 << 6) | 1);
    assert!(b.execute(&mut ram));
    assert_eq!(
        peek_word(&ram, 102),
        0x1FFF,
        "carry-in: the row starts already inside the fill"
    );
}

#[test]
fn descending_overlapping_copy() {
    let mut ram = new_ram();
    for i in 0..8u32 {
        poke_word(&mut ram, i * 2, (i + 1) as u16);
    }
    let mut b = Blitter::new();
    b.write(reg::BLTCON0, 0x0FF0);
    b.write(reg::BLTCON1, BLTCON1_DESC);
    b.write(reg::BLTAFWM, 0xFFFF);
    b.write(reg::BLTALWM, 0xFFFF);
    b.write(reg::BLTAPTL, 14);
    b.write(reg::BLTDPTL, 16);
    b.write(reg::BLTSIZE, (1 << 6) | 8);
    assert!(b.execute(&mut ram));

    for i in 0..8u32 {
        assert_eq!(peek_word(&ram, 2 + i * 2), (i + 1) as u16, "word {i}");
    }
}

#[test]
fn modulo_handles_negative_values() {
    let mut ram = new_ram();
    for i in 0..6u32 {
        poke_word(&mut ram, i * 2, (i + 1) as u16);
    }
    let mut b = Blitter::new();
    b.write(reg::BLTCON0, 0x0FF0);
    b.write(reg::BLTCON1, 0);
    b.write(reg::BLTAFWM, 0xFFFF);
    b.write(reg::BLTALWM, 0xFFFF);
    b.write(reg::BLTAPTL, 0);
    b.write(reg::BLTAMOD, 0);
    b.write(reg::BLTDPTL, 200);
    b.write(reg::BLTDMOD, (-2i16) as u16);
    b.write(reg::BLTSIZE, (3 << 6) | 2);
    assert!(b.execute(&mut ram));

    assert_eq!(peek_word(&ram, 200), 1);
    assert_eq!(peek_word(&ram, 202), 3);
    assert_eq!(peek_word(&ram, 204), 5);
    assert_eq!(peek_word(&ram, 206), 6);
    assert_eq!(b.pt[CHAN_D], 206);
}

#[test]
fn bounds_safety_wild_pointers_never_panic() {
    let mut ram = new_ram();
    let mut b = Blitter::new();
    b.write(reg::BLTCON0, 0x0FF0);
    b.write(reg::BLTCON1, 0);
    b.write(reg::BLTAFWM, 0xFFFF);
    b.write(reg::BLTALWM, 0xFFFF);
    b.write(reg::BLTAPTH, 0xFFFF);
    b.write(reg::BLTAPTL, 0xFFFE);
    b.write(reg::BLTDPTH, 0x1234);
    b.write(reg::BLTDPTL, 0x5678);
    b.write(reg::BLTAMOD, i16::MIN as u16);
    b.write(reg::BLTDMOD, i16::MAX as u16);
    b.write(reg::BLTSIZE, (4 << 6) | 16);
    assert!(b.execute(&mut ram));
}

fn independent_bresenham(x0: i32, y0: i32, x1: i32, y1: i32) -> Vec<(i32, i32)> {
    let dx = (x1 - x0).abs();
    let dy = (y1 - y0).abs();
    let sx: i32 = if x1 > x0 { 1 } else { -1 };
    let sy: i32 = if y1 > y0 { 1 } else { -1 };
    let mut pts = Vec::new();
    let (mut x, mut y) = (x0, y0);
    if dx >= dy {
        let mut err = dx / 2;
        for _ in 0..=dx {
            pts.push((x, y));
            err -= dy;
            if err < 0 {
                y += sy;
                err += dx;
            }
            x += sx;
        }
    } else {
        let mut err = dy / 2;
        for _ in 0..=dy {
            pts.push((x, y));
            err -= dx;
            if err < 0 {
                x += sx;
                err += dy;
            }
            y += sy;
        }
    }
    pts
}

fn draw_line_get_pixels(x0: i32, y0: i32, x1: i32, y1: i32) -> Vec<(i32, i32)> {
    let dx = x1 - x0;
    let dy = y1 - y0;
    let adx = dx.unsigned_abs() as i32;
    let ady = dy.unsigned_abs() as i32;
    let (sud, err0, amod, bmod, npixels, sul, aul) = if adx >= ady {
        (
            true,
            2 * ady - adx,
            2 * (ady - adx),
            2 * ady,
            adx + 1,
            dy < 0,
            dx < 0,
        )
    } else {
        (
            false,
            2 * adx - ady,
            2 * (adx - ady),
            2 * adx,
            ady + 1,
            dx < 0,
            dy < 0,
        )
    };

    const BPLMOD: i32 = 2;
    let mut ram = new_ram();
    let mut b = Blitter::new();
    b.write(reg::BLTCON0, 0x0A00 | 0x00FA | ((x0 as u16 & 0x000F) << 12));
    let mut con1 = BLTCON1_LINE;
    if sud {
        con1 |= BLTCON1_SUD;
    }
    if sul {
        con1 |= BLTCON1_SUL;
    }
    if aul {
        con1 |= BLTCON1_AUL;
    }
    if err0 < 0 {
        con1 |= BLTCON1_SIGN;
    }
    b.write(reg::BLTCON1, con1);
    b.write(reg::BLTAFWM, 0xFFFF);
    b.write(reg::BLTADAT, 0x8000);
    b.write(reg::BLTAMOD, amod as u16);
    b.write(reg::BLTBMOD, bmod as u16);
    b.write(reg::BLTCMOD, BPLMOD as u16);
    let start_addr = (y0 as u32) * (BPLMOD as u32);
    b.write(reg::BLTCPTL, start_addr as u16);
    b.write(reg::BLTDPTL, start_addr as u16);
    b.write(reg::BLTAPTL, (err0 as i16) as u16);
    b.write(reg::BLTSIZE, ((npixels as u16) << 6) | 2);
    assert!(b.execute(&mut ram));

    let mut pixels = Vec::new();
    for y in 0..16i32 {
        let word = peek_word(&ram, (y as u32) * (BPLMOD as u32));
        for x in 0..16i32 {
            if word & (0x8000 >> x) != 0 {
                pixels.push((x, y));
            }
        }
    }
    pixels.sort_unstable();
    pixels
}

#[test]
fn line_mode_matches_independent_bresenham_across_octants() {
    for &(x0, y0, x1, y1) in &[
        (0, 0, 7, 3),
        (7, 3, 0, 0),
        (0, 0, 3, 7),
        (3, 7, 0, 0),
        (2, 2, 9, 9),
        (9, 9, 2, 2),
    ] {
        let mut expected: Vec<(i32, i32)> = independent_bresenham(x0, y0, x1, y1);
        expected.sort_unstable();
        let got = draw_line_get_pixels(x0, y0, x1, y1);
        assert_eq!(got, expected, "line ({x0},{y0})-({x1},{y1})");
    }
}
