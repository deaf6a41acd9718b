use machine_core::display::{Framebuffer, argb_from_amiga};

#[test]
fn full_intensity_is_actually_white() {
    assert_eq!(argb_from_amiga(0x0FFF), 0xFFFF_FFFF);
}

#[test]
fn black_stays_black() {
    assert_eq!(argb_from_amiga(0x0000), 0xFF00_0000);
}

#[test]
fn guns_land_in_the_right_bytes() {
    assert_eq!(argb_from_amiga(0x0F00), 0xFFFF_0000);
    assert_eq!(argb_from_amiga(0x00F0), 0xFF00_FF00);
    assert_eq!(argb_from_amiga(0x000F), 0xFF00_00FF);
}

#[test]
fn framebuffer_rejects_undersized_storage() {
    let mut pixels = [0u32; 16];
    assert!(Framebuffer::new(&mut pixels, 4, 4).is_some());
    assert!(Framebuffer::new(&mut pixels, 8, 4).is_none());
    assert!(Framebuffer::new(&mut pixels, 4, 0).is_none());
}
