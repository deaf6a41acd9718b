use machine_core::fastram::{
    ERFF_EXTENDED, ERFF_ZORRO_III, MANUFACTURER, MAX_SIZE_BYTES, PRODUCT, autoconfig_board_spec,
    extended_size_code,
};
use machine_core::autoconfig::{ERTF_MEMLIST, ERT_ZORROIII};

#[test]
fn extended_table_matches_the_zorro_iii_spec() {
    assert_eq!(extended_size_code(0x0100_0000), 0, "16 MB");
    assert_eq!(extended_size_code(0x0200_0000), 1, "32 MB");
    assert_eq!(extended_size_code(0x0400_0000), 2, "64 MB");
    assert_eq!(extended_size_code(0x0800_0000), 3, "128 MB");
    assert_eq!(extended_size_code(0x1000_0000), 4, "256 MB");
    assert_eq!(extended_size_code(0x2000_0000), 5, "512 MB");
    assert_eq!(extended_size_code(0x4000_0000), 6, "1 GB");
}

#[test]
fn odd_sizes_round_up_to_the_next_extended_entry() {
    let spec = autoconfig_board_spec(100 * 0x0010_0000);
    assert_eq!(spec.size_bytes, 0x0800_0000, "rounds up to 128 MB");
}

#[test]
fn oversized_request_caps_at_one_gigabyte() {
    let spec = autoconfig_board_spec(u32::MAX);
    assert_eq!(spec.size_bytes, MAX_SIZE_BYTES);
}

#[test]
fn board_spec_carries_memlist_and_extended_zorro_iii_encoding() {
    let spec = autoconfig_board_spec(256 * 0x0010_0000);
    assert_eq!(spec.board_type & 0xC0, ERT_ZORROIII, "Zorro III class bits");
    assert_eq!(
        spec.board_type & ERTF_MEMLIST,
        ERTF_MEMLIST,
        "must be linked into the free-memory list unaided"
    );
    assert_eq!(spec.board_type & 0x07, 4, "256 MB is extended code 4");
    assert_eq!(spec.flags, ERFF_ZORRO_III | ERFF_EXTENDED);
    assert_eq!(spec.manufacturer, MANUFACTURER);
    assert_eq!(spec.product, PRODUCT);
    assert_eq!(spec.size_bytes, 256 * 0x0010_0000);
}
