use machine_core::board::present::{blit_scaled_centered, scale_factor};
use machine_core::board::ramfb::{
    DIRECTORY_ENTRY_BYTES, DmaAccess, FW_CFG_DMA_CTL_ERROR, MAX_FILES, RamfbCfg, RamfbStatus,
    configured, directory_len, find_file_selector, init, read_directory_entry,
};

#[test]
fn the_factor_is_the_largest_that_fits_both_axes() {
    assert_eq!(scale_factor(1600, 1200, 640, 256), 2);
    assert_eq!(scale_factor(1600, 1200, 320, 256), 4);
    assert_eq!(scale_factor(640, 256, 640, 256), 1);
}

#[test]
fn the_factor_is_never_below_one() {
    assert_eq!(scale_factor(320, 200, 640, 256), 1);
    assert_eq!(scale_factor(0, 0, 640, 256), 1);
}

#[test]
fn a_canvas_is_scaled_and_centred() {
    let src = [1u32, 2, 3, 4];
    let mut dst = [9u32; 30];
    blit_scaled_centered(&mut dst, 6, 5, &src, 2, 2, 0);
    let expected = [
        0, 1, 1, 2, 2, 0,
        0, 1, 1, 2, 2, 0,
        0, 3, 3, 4, 4, 0,
        0, 3, 3, 4, 4, 0,
        0, 0, 0, 0, 0, 0,
    ];
    assert_eq!(dst, expected);
}

#[test]
fn a_host_smaller_than_the_canvas_crops_it() {
    let src = [1u32, 2, 3, 4, 5, 6, 7, 8, 9];
    let mut dst = [0u32; 4];
    blit_scaled_centered(&mut dst, 2, 2, &src, 3, 3, 0);
    assert_eq!(dst, [1, 2, 4, 5]);
}

#[test]
fn whatever_lies_past_the_host_frame_is_background() {
    let src = [7u32];
    let mut dst = [1u32; 3];
    blit_scaled_centered(&mut dst, 1, 1, &src, 1, 1, 5);
    assert_eq!(dst, [7, 5, 5]);
}

fn entry(size: u32, selector: u16, name: &str) -> Vec<u8> {
    let mut bytes = Vec::new();
    bytes.extend_from_slice(&size.to_be_bytes());
    bytes.extend_from_slice(&selector.to_be_bytes());
    bytes.extend_from_slice(&[0, 0]);
    bytes.extend_from_slice(name.as_bytes());
    bytes.resize(DIRECTORY_ENTRY_BYTES, 0);
    bytes
}

fn directory(entries: &[Vec<u8>]) -> Vec<u8> {
    let mut bytes = (entries.len() as u32).to_be_bytes().to_vec();
    for e in entries {
        bytes.extend_from_slice(e);
    }
    bytes
}

#[test]
fn directory_entries_are_decoded() {
    let dir = directory(&[entry(0x1234_5678, 0x0020, "etc/acpi"), entry(28, 0x002A, "etc/ramfb")]);
    let (size, selector, name) = read_directory_entry(&dir, 1);
    assert_eq!(size, 28);
    assert_eq!(selector, 0x002A);
    assert_eq!(&name[..9], b"etc/ramfb");
    assert_eq!(name[9], 0);
    assert_eq!(read_directory_entry(&dir, 0).0, 0x1234_5678);
}

#[test]
fn files_are_found_by_their_whole_name() {
    let dir = directory(&[
        entry(1, 1, "etc/ramfb2"),
        entry(1, 2, "etc/ram"),
        entry(1, 3, "etc/ramfb"),
        entry(1, 4, "etc/ramfb"),
    ]);
    assert_eq!(find_file_selector(&dir, "etc/ramfb"), Some(3));
    assert_eq!(find_file_selector(&dir, "etc/ram"), Some(2));
    assert_eq!(find_file_selector(&dir, "etc"), None);
    assert_eq!(find_file_selector(&directory(&[]), "etc/ramfb"), None);
}

#[test]
fn a_name_that_fills_its_field_is_found() {
    let long = "n".repeat(56);
    let dir = directory(&[entry(1, 9, &long)]);
    assert_eq!(find_file_selector(&dir, &long), Some(9));
    assert_eq!(find_file_selector(&dir, &"n".repeat(57)), None);
    assert_eq!(find_file_selector(&dir, &"n".repeat(55)), None);
}

#[test]
fn a_garbage_directory_is_read_to_a_limit() {
    assert_eq!(directory_len(3), 192);
    assert_eq!(directory_len(u32::MAX), MAX_FILES as usize * 64);
}

#[test]
fn the_configuration_is_big_endian() {
    let cfg = RamfbCfg::new(0x0000_0001_4000_0000, 1600, 1200, 6400);
    let expected: [u8; 28] = [
        0, 0, 0, 1, 0x40, 0, 0, 0,
        0x34, 0x32, 0x52, 0x58,
        0, 0, 0, 0,
        0, 0, 0x06, 0x40,
        0, 0, 0x04, 0xB0,
        0, 0, 0x19, 0x00,
    ];
    assert_eq!(cfg.bytes, expected);
}

#[test]
fn the_access_block_selects_and_writes() {
    let dma = DmaAccess::select_and_write(0x002A, 28, 0x4000_1000);
    let expected: [u8; 16] = [
        0x00, 0x2A, 0x00, 0x18,
        0, 0, 0, 28,
        0, 0, 0, 0, 0x40, 0x00, 0x10, 0x00,
    ];
    assert_eq!(dma.bytes, expected);
    assert_eq!(dma.control(), 0x002A_0018);
    assert_eq!(dma.control() & FW_CFG_DMA_CTL_ERROR, 0);
}

#[test]
fn a_present_device_is_configured() {
    let dir = directory(&[entry(28, 0x0031, "etc/ramfb")]);
    match init(&dir, 0x4800_0000) {
        Ok((selector, cfg)) => {
            assert_eq!(selector, 0x0031);
            assert_eq!(cfg.bytes, RamfbCfg::new(0x4800_0000, 1600, 1200, 6400).bytes);
        }
        Err(_) => panic!("device is there"),
    }
}

#[test]
fn an_absent_device_is_said_so() {
    let dir = directory(&[entry(28, 0x0031, "etc/other")]);
    assert!(matches!(init(&dir, 0), Err(RamfbStatus::DeviceNotPresent)));
}

#[test]
fn the_error_bit_means_configuring_failed() {
    assert!(matches!(configured(0), RamfbStatus::Ready));
    assert!(matches!(configured(0x002A_0019), RamfbStatus::ConfigureFailed));
}
