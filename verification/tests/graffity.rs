use machine_core::graffity::{Graffity, board_specs};
use machine_core::autoconfig::{AutoConfig, ERT_ZORROII};

#[test]
fn board_specs_carry_the_right_identity_and_sizes() {
    let (vram, regs) = board_specs(0x0020_0000);
    assert_eq!(vram.manufacturer, 2092);
    assert_eq!(regs.manufacturer, 2092);
    assert_eq!(vram.product, 34, "linear VRAM aperture");
    assert_eq!(regs.product, 33, "VGA-register window");
    assert_eq!(
        regs.size_bytes, 0x0002_0000,
        "128 KB, twice the Picasso II's"
    );
    assert_eq!(vram.size_bytes, 0x0020_0000);
    assert_eq!(vram.board_type & 0xC0, ERT_ZORROII);
    assert_eq!(regs.board_type & 0xC0, ERT_ZORROII);
}

#[test]
fn vram_size_rounds_up_to_the_nearest_zorro_ii_aperture() {
    let (vram, _) = board_specs(0x0018_0000);
    assert_eq!(vram.size_bytes, 0x0020_0000, "rounds up to 2 MB");
}

#[test]
fn both_boards_register_on_the_chain_vram_first() {
    let mut ac = AutoConfig::new();
    let (vram, regs) = board_specs(0x0020_0000);
    assert_eq!(ac.add_board(vram), Some(0), "VRAM offered first");
    assert_eq!(ac.add_board(regs), Some(1), "then the register window");
}

#[test]
fn vram_and_register_access_round_trip_through_the_chip() {
    let mut backing = [0u8; 256];
    let mut card = Graffity::new(&mut backing);
    card.vram_write(4, 0xAB);
    assert_eq!(card.vram_read(4), 0xAB);

    card.reg_write(0x3D4, 0x0F);
    card.reg_write(0x3D5, 0x55);
    assert_eq!(card.reg_read(0x3D5), 0x55);
}
