use machine_core::{CHIP_RAM_END, CHIP_RAM_SIZE, MachineBus, ROM_BASE, ROM_WINDOW_SIZE};

fn new_bus<'a>(chip_ram: &'a mut [u8; CHIP_RAM_SIZE], rom: &'a [u8]) -> MachineBus<'a> {
    MachineBus::new(chip_ram, rom)
}

fn boxed_chip_ram() -> Box<[u8; CHIP_RAM_SIZE]> {
    let boxed_slice: Box<[u8]> = vec![0u8; CHIP_RAM_SIZE].into_boxed_slice();
    boxed_slice
        .try_into()
        .unwrap_or_else(|_| unreachable!("boxed_slice has exactly CHIP_RAM_SIZE elements"))
}

#[test]
fn open_bus_reads_are_all_ones() {
    let mut ram = boxed_chip_ram();
    let rom = [0u8; ROM_WINDOW_SIZE];
    let mut bus = new_bus(&mut ram, &rom);

    for &addr in &[0x00C0_0000u32, 0x00D8_0000, 0x00DE_0000, 0x00DE_1000] {
        assert_eq!(bus.read_byte(addr), 0xFF, "byte at {addr:#x}");
        assert_eq!(bus.read_word(addr), 0xFFFF, "word at {addr:#x}");
        assert_eq!(bus.read_long(addr), 0xFFFF_FFFF, "long at {addr:#x}");
    }
}

#[test]
fn open_bus_writes_are_discarded() {
    let mut ram = boxed_chip_ram();
    let rom = [0u8; ROM_WINDOW_SIZE];
    let mut bus = new_bus(&mut ram, &rom);

    bus.write_long(0x00DE_1000, 0x1234_5678);
    assert_eq!(bus.read_long(0x00DE_1000), 0xFFFF_FFFF);
}

#[test]
fn chip_ram_roundtrips() {
    let mut ram = boxed_chip_ram();
    let rom = [0u8; ROM_WINDOW_SIZE];
    let mut bus = new_bus(&mut ram, &rom);

    bus.write_byte(0x0000_0010, 0xAB);
    assert_eq!(bus.read_byte(0x0000_0010), 0xAB);

    bus.write_word(0x0010_0000, 0xBEEF);
    assert_eq!(bus.read_word(0x0010_0000), 0xBEEF);

    bus.write_long(CHIP_RAM_END - 4, 0xDEAD_BEEF);
    assert_eq!(bus.read_long(CHIP_RAM_END - 4), 0xDEAD_BEEF);
}

#[test]
fn rom_reads_work_and_writes_are_discarded() {
    let mut ram = boxed_chip_ram();
    let mut rom = [0u8; ROM_WINDOW_SIZE];
    rom[0] = 0x11;
    rom[4] = 0x22;
    let mut bus = new_bus(&mut ram, &rom);

    assert_eq!(bus.read_byte(ROM_BASE), 0x11);
    assert_eq!(bus.read_byte(ROM_BASE + 4), 0x22);

    bus.write_byte(ROM_BASE, 0x99);
    assert_eq!(bus.read_byte(ROM_BASE), 0x11, "ROM write must be discarded");
}

#[test]
fn undersized_rom_mirrors_across_the_window() {
    let mut ram = boxed_chip_ram();
    let quarter = ROM_WINDOW_SIZE / 4;
    let mut small_rom = alloc_vec_zeroed(quarter);
    small_rom[0] = 0x42;
    let mut bus = new_bus(&mut ram, &small_rom);

    assert_eq!(bus.read_byte(ROM_BASE), 0x42);
    assert_eq!(bus.read_byte(ROM_BASE + quarter as u32), 0x42);
    assert_eq!(bus.read_byte(ROM_BASE + 2 * quarter as u32), 0x42);
    assert_eq!(bus.read_byte(ROM_BASE + 3 * quarter as u32), 0x42);
}

fn alloc_vec_zeroed(len: usize) -> Vec<u8> {
    vec![0u8; len]
}
