use machine_core::autoconfig::ERT_ZORROII;
use machine_core::block::{BlockDevice, SECTOR_BYTES};
use machine_core::mirage::{MANUFACTURER, Mirage, WINDOW_BYTES, cmd, irq, reg, status};

struct MemDisk {
    sectors: Vec<[u8; SECTOR_BYTES]>,
    writable: bool,
}

impl MemDisk {
    fn new(count: usize) -> Self {
        Self {
            sectors: vec![[0u8; SECTOR_BYTES]; count],
            writable: true,
        }
    }

    fn read_only(count: usize) -> Self {
        let mut d = Self::new(count);
        d.writable = false;
        d
    }
}

impl BlockDevice for MemDisk {
    fn sector_count(&self) -> u64 {
        self.sectors.len() as u64
    }

    fn read_sector(&mut self, lba: u64, buf: &mut [u8; SECTOR_BYTES]) -> bool {
        match self.sectors.get(lba as usize) {
            Some(s) => {
                *buf = *s;
                true
            }
            None => false,
        }
    }

    fn write_sector(&mut self, lba: u64, buf: &[u8; SECTOR_BYTES]) -> bool {
        if !self.writable {
            return false;
        }
        match self.sectors.get_mut(lba as usize) {
            Some(s) => {
                *s = *buf;
                true
            }
            None => false,
        }
    }
}

fn write_reg32(m: &mut Mirage, base: u32, value: u32) {
    m.write(base, (value >> 24) as u8);
    m.write(base + 1, (value >> 16) as u8);
    m.write(base + 2, (value >> 8) as u8);
    m.write(base + 3, value as u8);
}

fn read_status(m: &mut Mirage) -> u8 {
    m.read(reg::CMD_STATUS + 3)
}

fn select_unit(m: &mut Mirage, unit: u8) {
    m.write(reg::UNIT_SELECT + 3, unit);
}

fn set_transfer(m: &mut Mirage, lba: u32, count: u32) {
    write_reg32(m, reg::LBA, lba);
    write_reg32(m, reg::COUNT, count);
}

fn issue(m: &mut Mirage, cmd: u8) {
    m.write(reg::CMD_STATUS + 3, cmd);
}

fn read_data_byte(m: &mut Mirage) -> u8 {
    m.read(reg::DATA)
}

fn write_data_byte(m: &mut Mirage, value: u8) {
    m.write(reg::DATA, value);
}

fn read_sector_via_data(m: &mut Mirage) -> Vec<u8> {
    let mut out = Vec::with_capacity(SECTOR_BYTES);
    for lane in 0..SECTOR_BYTES {
        out.push(m.read(reg::DATA + (lane as u32 % 4)));
    }
    out
}

#[test]
fn absent_unit_fails_immediately_without_touching_any_device() {
    let mut m = Mirage::new();
    let mut disk = MemDisk::new(4);
    m.attach_unit(1, &mut disk);

    select_unit(&mut m, 0);
    set_transfer(&mut m, 0, 1);
    issue(&mut m, cmd::READ);

    assert_eq!(read_status(&mut m) & status::ERR, status::ERR);
    assert_eq!(
        read_status(&mut m) & status::BUSY,
        0,
        "no pending op at all"
    );
}

#[test]
fn out_of_range_unit_number_is_rejected_not_wrapped() {
    let mut m = Mirage::new();
    let mut disk = MemDisk::new(4);
    m.attach_unit(0, &mut disk);

    select_unit(&mut m, 200);
    set_transfer(&mut m, 0, 1);
    issue(&mut m, cmd::READ);

    assert_eq!(read_status(&mut m) & status::ERR, status::ERR);
}

#[test]
fn a_command_never_completes_before_the_first_tick() {
    let mut m = Mirage::new();
    let mut disk = MemDisk::new(4);
    m.attach_unit(0, &mut disk);
    select_unit(&mut m, 0);
    set_transfer(&mut m, 0, 1);

    issue(&mut m, cmd::READ);
    assert_eq!(read_status(&mut m), status::BUSY);
    assert_eq!(read_data_byte(&mut m), 0, "no data before the first tick");

    m.tick();
    assert_eq!(
        read_status(&mut m),
        status::DRQ,
        "the tick landed the fetch"
    );
}

#[test]
fn zero_count_is_rejected() {
    let mut m = Mirage::new();
    let mut disk = MemDisk::new(4);
    m.attach_unit(0, &mut disk);
    select_unit(&mut m, 0);
    set_transfer(&mut m, 0, 0);
    issue(&mut m, cmd::READ);
    assert_eq!(read_status(&mut m) & status::ERR, status::ERR);
}

#[test]
fn out_of_range_lba_is_rejected_before_any_tick() {
    let mut m = Mirage::new();
    let mut disk = MemDisk::new(4);
    m.attach_unit(0, &mut disk);
    select_unit(&mut m, 0);
    set_transfer(&mut m, 10, 1);
    issue(&mut m, cmd::READ);
    assert_eq!(read_status(&mut m) & status::ERR, status::ERR);
}

#[test]
fn write_to_a_read_only_device_fails_at_commit_time() {
    let mut m = Mirage::new();
    let mut disk = MemDisk::read_only(4);
    m.attach_unit(0, &mut disk);
    select_unit(&mut m, 0);
    set_transfer(&mut m, 0, 1);
    issue(&mut m, cmd::WRITE);
    m.tick();
    assert_eq!(read_status(&mut m), status::DRQ);
    for _ in 0..SECTOR_BYTES {
        write_data_byte(&mut m, 0xAA);
    }
    assert_eq!(read_status(&mut m), status::BUSY, "queued for commit");
    m.tick();
    assert_eq!(read_status(&mut m) & status::ERR, status::ERR);
}

#[test]
fn single_sector_write_then_read_round_trips_through_the_block_device() {
    let mut m = Mirage::new();
    let mut disk = MemDisk::new(4);
    m.attach_unit(3, &mut disk);
    m.write(reg::INT_ENABLE + 3, irq::XFER_COMPLETE);

    select_unit(&mut m, 3);
    set_transfer(&mut m, 2, 1);
    issue(&mut m, cmd::WRITE);
    assert!(!m.irq_pending(), "no interrupt before anything lands");
    m.tick();
    assert_eq!(read_status(&mut m), status::DRQ);
    let pattern: Vec<u8> = (0..SECTOR_BYTES as u32).map(|i| i as u8).collect();
    for &b in &pattern {
        write_data_byte(&mut m, b);
    }
    assert_eq!(
        read_status(&mut m),
        status::BUSY,
        "filled sector awaits commit"
    );
    m.tick();
    assert_eq!(read_status(&mut m), 0, "transfer complete, idle");
    assert!(m.irq_pending(), "commit raised the interrupt");
    m.write(reg::INT_STATUS + 3, irq::XFER_COMPLETE);

    select_unit(&mut m, 3);
    set_transfer(&mut m, 2, 1);
    issue(&mut m, cmd::READ);
    m.tick();
    assert_eq!(read_status(&mut m), status::DRQ);
    let got = read_sector_via_data(&mut m);
    assert_eq!(got, pattern);
    assert_eq!(read_status(&mut m), 0);
}

#[test]
fn multi_sector_transfer_needs_one_tick_per_sector() {
    let mut m = Mirage::new();
    let mut disk = MemDisk::new(8);
    m.attach_unit(0, &mut disk);
    select_unit(&mut m, 0);
    set_transfer(&mut m, 0, 3);
    issue(&mut m, cmd::WRITE);

    for sector in 0..3u8 {
        m.tick();
        assert_eq!(read_status(&mut m), status::DRQ, "sector {sector}");
        for _ in 0..SECTOR_BYTES {
            write_data_byte(&mut m, sector);
        }
        assert_eq!(
            read_status(&mut m),
            status::BUSY,
            "awaiting commit {sector}"
        );
        m.tick();
    }
    assert_eq!(read_status(&mut m), 0, "all three sectors committed");

    let mut check = [0u8; SECTOR_BYTES];
    disk.read_sector(1, &mut check);
    assert_eq!(check[0], 1);
}

#[test]
fn interrupt_asserts_on_the_write_commit_path() {
    let mut m = Mirage::new();
    let mut disk = MemDisk::new(2);
    m.attach_unit(0, &mut disk);
    m.write(reg::INT_ENABLE + 3, irq::XFER_COMPLETE);
    select_unit(&mut m, 0);
    set_transfer(&mut m, 0, 1);
    issue(&mut m, cmd::WRITE);
    m.tick();
    for _ in 0..SECTOR_BYTES {
        write_data_byte(&mut m, 0);
    }
    assert!(
        !m.irq_pending(),
        "not yet -- still waiting on the commit tick"
    );
    m.tick();
    assert!(m.irq_pending(), "commit landed on this tick");
}

#[test]
fn interrupt_asserts_on_the_read_fetch_path() {
    let mut m = Mirage::new();
    let mut disk = MemDisk::new(2);
    m.attach_unit(0, &mut disk);
    m.write(reg::INT_ENABLE + 3, irq::XFER_COMPLETE);
    select_unit(&mut m, 0);
    set_transfer(&mut m, 0, 1);
    issue(&mut m, cmd::READ);
    assert!(!m.irq_pending());
    m.tick();
    assert!(m.irq_pending(), "the fetch landed on this tick");
}

#[test]
fn media_change_hook_increments_the_counter_and_raises_its_interrupt() {
    let mut m = Mirage::new();
    m.write(reg::INT_ENABLE + 3, irq::MEDIA_CHANGE);
    assert_eq!(m.change_count(2), 0);
    m.notify_media_change(2);
    assert_eq!(m.change_count(2), 1);
    assert!(m.irq_pending());
    m.notify_media_change(2);
    assert_eq!(m.change_count(2), 2);
    assert_eq!(m.change_count(3), 0);
}

#[test]
fn unimplemented_offsets_inside_the_window_read_zero_not_open_bus() {
    let mut m = Mirage::new();
    assert_eq!(m.read(0x14), 0);
    assert_eq!(m.read(0x20), 0);
    m.write(0x14, 0xFF);
    assert_eq!(m.read(0x14), 0);
}

#[test]
fn single_byte_registers_only_answer_at_the_low_order_lane() {
    let mut m = Mirage::new();
    m.write(reg::UNIT_SELECT, 5);
    assert_eq!(
        m.read(reg::UNIT_SELECT + 3),
        0,
        "write to the wrong lane is ignored"
    );
    select_unit(&mut m, 5);
    assert_eq!(m.read(reg::UNIT_SELECT + 3), 5);
    assert_eq!(
        m.read(reg::UNIT_SELECT),
        0,
        "the other three lanes stay reserved"
    );
}

#[test]
fn a_command_written_mid_transfer_is_ignored() {
    let mut m = Mirage::new();
    let mut disk = MemDisk::new(4);
    m.attach_unit(0, &mut disk);
    select_unit(&mut m, 0);
    set_transfer(&mut m, 0, 1);
    issue(&mut m, cmd::READ);
    assert_eq!(read_status(&mut m), status::BUSY);
    issue(&mut m, cmd::FLUSH);
    assert_eq!(read_status(&mut m), status::BUSY);
    m.tick();
    assert_eq!(
        read_status(&mut m),
        status::DRQ,
        "the original READ still landed"
    );
}

#[test]
fn board_spec_carries_the_documented_placeholder_identity() {
    let spec = Mirage::board_spec();
    assert_eq!(spec.manufacturer, MANUFACTURER);
    assert_eq!(spec.size_bytes, WINDOW_BYTES);
    assert_eq!(spec.board_type & 0xC0, ERT_ZORROII);
}
