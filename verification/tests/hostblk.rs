use machine_core::autoconfig::{ERTF_DIAGVALID, ERT_ZORROIII};
use machine_core::block::{BlockDevice, SECTOR_BYTES};
use machine_core::fastram::{ERFF_EXTENDED, ERFF_ZORRO_III};
use machine_core::hostblk::{
    COMPLETION_QUEUE_CAPACITY, Hostblk, MANUFACTURER, PROTOCOL_VERSION, ROM_BASE,
    SUBMIT_QUEUE_CAPACITY, WINDOW_BYTES, cmd, err, reg,
};

struct MemDisk {
    sectors: Vec<[u8; SECTOR_BYTES]>,
    fail_after: Option<usize>,
    reads_done: usize,
    writes_done: usize,
}

impl MemDisk {
    fn new(count: usize) -> Self {
        Self {
            sectors: vec![[0u8; SECTOR_BYTES]; count],
            fail_after: None,
            reads_done: 0,
            writes_done: 0,
        }
    }
}

impl BlockDevice for MemDisk {
    fn sector_count(&self) -> u64 {
        self.sectors.len() as u64
    }

    fn read_sector(&mut self, lba: u64, buf: &mut [u8; SECTOR_BYTES]) -> bool {
        if Some(self.reads_done) == self.fail_after {
            return false;
        }
        match self.sectors.get(lba as usize) {
            Some(s) => {
                *buf = *s;
                self.reads_done += 1;
                true
            }
            None => false,
        }
    }

    fn write_sector(&mut self, lba: u64, buf: &[u8; SECTOR_BYTES]) -> bool {
        if Some(self.writes_done) == self.fail_after {
            return false;
        }
        match self.sectors.get_mut(lba as usize) {
            Some(s) => {
                *s = *buf;
                self.writes_done += 1;
                true
            }
            None => false,
        }
    }
}

const RAM_SIZE: usize = 64 * 1024;

const DIAG_ROM: [u8; 20] = [
    0x90, 0x00, 0x00, 0x13, 0x00, 0x12, 0x00, 0x12, 0x00, 0x00, 0x00, 0x00, 0x00, 0x00, 0xDE, 0xAD,
    0xBE, 0xEF, 0x4E, 0x75,
];

fn ram() -> Vec<u8> {
    vec![0u8; RAM_SIZE]
}

fn put_descriptor(
    ram: &mut [u8],
    ptr: u32,
    command: u8,
    unit: u8,
    length: u32,
    offset: u64,
    buffer: u32,
) {
    let base = ptr as usize;
    ram[base] = command;
    ram[base + 1] = unit;
    ram[base + 2] = 0;
    ram[base + 3] = 0;
    ram[base + 4..base + 8].copy_from_slice(&length.to_be_bytes());
    ram[base + 8..base + 16].copy_from_slice(&offset.to_be_bytes());
    ram[base + 16..base + 20].copy_from_slice(&buffer.to_be_bytes());
}

fn ring_doorbell(hb: &mut Hostblk, ptr: u32) {
    let b = ptr.to_be_bytes();
    hb.write(reg::DOORBELL, b[0]);
    hb.write(reg::DOORBELL + 1, b[1]);
    hb.write(reg::DOORBELL + 2, b[2]);
    hb.write(reg::DOORBELL + 3, b[3]);
}

fn select_unit(hb: &mut Hostblk, unit: u8) {
    hb.write(reg::UNIT_SELECT + 3, unit);
}

#[test]
fn advertised_submission_depth_is_the_depth_the_ring_actually_drops_at() {
    let mut disk = MemDisk::new(4);
    let mut hb = Hostblk::new(&DIAG_ROM);
    hb.attach_unit(0, &mut disk, false);
    let mut ram = ram();

    let advertised = read_u32(&hb, reg::SUBMIT_CAPACITY);
    assert!(advertised > 0, "a depth of zero would accept nothing");

    for i in 0..advertised {
        put_descriptor(&mut ram, 0x100 + i * 0x40, cmd::FLUSH, 0, 0, 0, 0);
        ring_doorbell(&mut hb, 0x100 + i * 0x40);
    }
    assert_eq!(
        read_u32(&hb, reg::SUBMIT_OVERFLOW),
        0,
        "dropped a submission while still within the advertised depth"
    );

    ring_doorbell(&mut hb, 0x9999);
    assert_eq!(
        read_u32(&hb, reg::SUBMIT_OVERFLOW),
        1,
        "accepted a submission past the advertised depth"
    );
}

#[test]
fn hostblk_version_register_reports_the_documented_protocol_version() {
    let hb = Hostblk::new(&DIAG_ROM);
    assert_eq!(read_u32(&hb, reg::VERSION), PROTOCOL_VERSION);
    assert_ne!(PROTOCOL_VERSION, 0, "0 is reserved for 'no card'");
}

fn read_u32(hb: &Hostblk, base: u32) -> u32 {
    u32::from_be_bytes([
        hb.read(base),
        hb.read(base + 1),
        hb.read(base + 2),
        hb.read(base + 3),
    ])
}

fn read_u64_pair(hb: &Hostblk, hi_base: u32, lo_base: u32) -> u64 {
    (u64::from(read_u32(hb, hi_base)) << 32) | u64::from(read_u32(hb, lo_base))
}

#[test]
fn write_then_read_round_trips_through_the_block_device() {
    let mut disk = MemDisk::new(4);
    let mut hb = Hostblk::new(&DIAG_ROM);
    hb.attach_unit(0, &mut disk, false);
    hb.write(reg::INT_ENABLE + 3, 1);

    let mut ram = ram();
    let pattern: Vec<u8> = (0..SECTOR_BYTES as u32).map(|i| i as u8).collect();
    let buf_addr = 0x1000u32;
    ram[buf_addr as usize..buf_addr as usize + SECTOR_BYTES].copy_from_slice(&pattern);

    let desc_addr = 0x100u32;
    put_descriptor(
        &mut ram,
        desc_addr,
        cmd::WRITE,
        0,
        SECTOR_BYTES as u32,
        SECTOR_BYTES as u64,
        buf_addr,
    );
    ring_doorbell(&mut hb, desc_addr);
    hb.tick(&mut ram);

    assert_eq!(read_u32(&hb, reg::COMPLETION_PTR), desc_addr);
    assert_eq!(hb.read(reg::COMPLETION_ERROR + 3), err::OK);
    assert_eq!(read_u32(&hb, reg::COMPLETION_ACTUAL), SECTOR_BYTES as u32);
    hb.write(reg::COMPLETION_ADVANCE + 3, 0);

    let read_buf_addr = 0x2000u32;
    put_descriptor(
        &mut ram,
        desc_addr,
        cmd::READ,
        0,
        SECTOR_BYTES as u32,
        SECTOR_BYTES as u64,
        read_buf_addr,
    );
    ring_doorbell(&mut hb, desc_addr);
    hb.tick(&mut ram);

    assert_eq!(hb.read(reg::COMPLETION_ERROR + 3), err::OK);
    assert_eq!(
        &ram[read_buf_addr as usize..read_buf_addr as usize + SECTOR_BYTES],
        &pattern[..]
    );
}

#[test]
fn a_request_does_not_complete_within_the_doorbell_access() {
    let mut disk = MemDisk::new(4);
    let mut hb = Hostblk::new(&DIAG_ROM);
    hb.attach_unit(0, &mut disk, false);
    let mut ram = ram();
    put_descriptor(
        &mut ram,
        0x100,
        cmd::READ,
        0,
        SECTOR_BYTES as u32,
        0,
        0x1000,
    );

    ring_doorbell(&mut hb, 0x100);
    assert_eq!(
        read_u32(&hb, reg::COMPLETION_PTR),
        0,
        "nothing completed yet"
    );
    assert_eq!(hb.read(reg::COMPLETION_COUNT + 3), 0);

    hb.tick(&mut ram);
    assert_eq!(
        read_u32(&hb, reg::COMPLETION_PTR),
        0x100,
        "the tick landed it"
    );
}

#[test]
fn completion_queue_backpressures_rather_than_dropping() {
    let mut disk = MemDisk::new(COMPLETION_QUEUE_CAPACITY + 4);
    let mut hb = Hostblk::new(&DIAG_ROM);
    hb.attach_unit(0, &mut disk, false);
    let mut ram = ram();

    for i in 0..COMPLETION_QUEUE_CAPACITY {
        let desc_addr = 0x100 + i as u32 * 0x40;
        put_descriptor(
            &mut ram,
            desc_addr,
            cmd::READ,
            0,
            SECTOR_BYTES as u32,
            i as u64 * SECTOR_BYTES as u64,
            0x8000,
        );
        ring_doorbell(&mut hb, desc_addr);
        hb.tick(&mut ram);
    }
    assert_eq!(
        hb.read(reg::COMPLETION_COUNT + 3),
        COMPLETION_QUEUE_CAPACITY as u8
    );

    let extra_addr = 0x2000u32;
    put_descriptor(
        &mut ram,
        extra_addr,
        cmd::READ,
        0,
        SECTOR_BYTES as u32,
        0,
        0x8000,
    );
    ring_doorbell(&mut hb, extra_addr);
    hb.tick(&mut ram);
    assert_eq!(
        hb.read(reg::COMPLETION_COUNT + 3),
        COMPLETION_QUEUE_CAPACITY as u8,
        "stalled behind the full completion queue, nothing lost"
    );

    hb.write(reg::COMPLETION_ADVANCE + 3, 0);
    hb.tick(&mut ram);

    let mut found = false;
    loop {
        let ptr = read_u32(&hb, reg::COMPLETION_PTR);
        if ptr == 0 {
            break;
        }
        if ptr == extra_addr {
            found = true;
        }
        hb.write(reg::COMPLETION_ADVANCE + 3, 0);
    }
    assert!(found, "the stalled request eventually completed");
}

#[test]
fn submission_ring_overflow_is_counted_and_the_doorbell_write_is_dropped() {
    let mut disk = MemDisk::new(4);
    let mut hb = Hostblk::new(&DIAG_ROM);
    hb.attach_unit(0, &mut disk, false);
    let mut ram = ram();

    for i in 0..SUBMIT_QUEUE_CAPACITY {
        put_descriptor(&mut ram, 0x100 + i as u32 * 0x40, cmd::FLUSH, 0, 0, 0, 0);
        ring_doorbell(&mut hb, 0x100 + i as u32 * 0x40);
    }
    assert_eq!(hb.read(reg::SUBMIT_OVERFLOW + 3), 0);

    ring_doorbell(&mut hb, 0x9999);
    assert_eq!(hb.read(reg::SUBMIT_OVERFLOW + 3), 1, "dropped, counted");
}

#[test]
fn discovery_reports_size_and_write_protect_per_unit() {
    let mut a = MemDisk::new(1000);
    let mut b = MemDisk::new(2000);
    let mut hb = Hostblk::new(&DIAG_ROM);
    hb.attach_unit(0, &mut a, false);
    hb.attach_unit(1, &mut b, true);

    select_unit(&mut hb, 0);
    assert_eq!(hb.read(reg::UNIT_PRESENT + 3), 1);
    assert_eq!(hb.read(reg::UNIT_WRITE_PROTECT + 3), 0);
    assert_eq!(
        read_u64_pair(&hb, reg::UNIT_SECTORS_HI, reg::UNIT_SECTORS_LO),
        1000
    );

    select_unit(&mut hb, 1);
    assert_eq!(hb.read(reg::UNIT_PRESENT + 3), 1);
    assert_eq!(hb.read(reg::UNIT_WRITE_PROTECT + 3), 1);
}

#[test]
fn a_detached_unit_fails_cleanly() {
    let mut disk = MemDisk::new(4);
    let mut hb = Hostblk::new(&DIAG_ROM);
    hb.attach_unit(1, &mut disk, false);
    let mut ram = ram();
    put_descriptor(
        &mut ram,
        0x100,
        cmd::READ,
        0,
        SECTOR_BYTES as u32,
        0,
        0x1000,
    );
    ring_doorbell(&mut hb, 0x100);
    hb.tick(&mut ram);
    assert_eq!(hb.read(reg::COMPLETION_ERROR + 3), err::BAD_UNIT);

    select_unit(&mut hb, 0);
    assert_eq!(hb.read(reg::UNIT_PRESENT + 3), 0);
}

#[test]
fn descriptor_pointer_outside_ram_is_rejected_without_touching_memory() {
    let mut disk = MemDisk::new(4);
    let mut hb = Hostblk::new(&DIAG_ROM);
    hb.attach_unit(0, &mut disk, false);
    let mut ram = ram();
    ring_doorbell(&mut hb, RAM_SIZE as u32);
    hb.tick(&mut ram);
    assert_eq!(hb.read(reg::COMPLETION_ERROR + 3), err::BAD_ADDRESS);
}

#[test]
fn misaligned_descriptor_pointer_is_rejected() {
    let mut disk = MemDisk::new(4);
    let mut hb = Hostblk::new(&DIAG_ROM);
    hb.attach_unit(0, &mut disk, false);
    let mut ram = ram();
    put_descriptor(
        &mut ram,
        0x104,
        cmd::READ,
        0,
        SECTOR_BYTES as u32,
        0,
        0x1000,
    );
    ring_doorbell(&mut hb, 0x105);
    hb.tick(&mut ram);
    assert_eq!(hb.read(reg::COMPLETION_ERROR + 3), err::BAD_ADDRESS);
}

#[test]
fn buffer_outside_ram_is_rejected_before_any_device_io() {
    let mut disk = MemDisk::new(4);
    let mut hb = Hostblk::new(&DIAG_ROM);
    hb.attach_unit(0, &mut disk, false);
    let mut ram = ram();
    put_descriptor(
        &mut ram,
        0x100,
        cmd::READ,
        0,
        SECTOR_BYTES as u32,
        0,
        RAM_SIZE as u32 - 10,
    );
    ring_doorbell(&mut hb, 0x100);
    hb.tick(&mut ram);
    assert_eq!(hb.read(reg::COMPLETION_ERROR + 3), err::BAD_ADDRESS);
}

#[test]
fn transfer_past_the_units_capacity_is_rejected() {
    let mut disk = MemDisk::new(4);
    let mut hb = Hostblk::new(&DIAG_ROM);
    hb.attach_unit(0, &mut disk, false);
    let mut ram = ram();
    put_descriptor(
        &mut ram,
        0x100,
        cmd::READ,
        0,
        8 * SECTOR_BYTES as u32,
        0,
        0x1000,
    );
    ring_doorbell(&mut hb, 0x100);
    hb.tick(&mut ram);
    assert_eq!(hb.read(reg::COMPLETION_ERROR + 3), err::OUT_OF_RANGE);
}

#[test]
fn zero_length_and_misaligned_offset_are_rejected() {
    let mut disk = MemDisk::new(4);
    let mut hb = Hostblk::new(&DIAG_ROM);
    hb.attach_unit(0, &mut disk, false);
    let mut ram = ram();

    put_descriptor(&mut ram, 0x100, cmd::READ, 0, 0, 0, 0x1000);
    ring_doorbell(&mut hb, 0x100);
    hb.tick(&mut ram);
    assert_eq!(hb.read(reg::COMPLETION_ERROR + 3), err::INVALID_LENGTH);
    hb.write(reg::COMPLETION_ADVANCE + 3, 0);

    put_descriptor(
        &mut ram,
        0x140,
        cmd::READ,
        0,
        SECTOR_BYTES as u32,
        100,
        0x1000,
    );
    ring_doorbell(&mut hb, 0x140);
    hb.tick(&mut ram);
    assert_eq!(hb.read(reg::COMPLETION_ERROR + 3), err::MISALIGNED);
}

#[test]
fn write_to_a_write_protected_unit_is_rejected_without_touching_the_device() {
    let mut disk = MemDisk::new(4);
    let mut hb = Hostblk::new(&DIAG_ROM);
    hb.attach_unit(0, &mut disk, true);
    let mut ram = ram();
    put_descriptor(
        &mut ram,
        0x100,
        cmd::WRITE,
        0,
        SECTOR_BYTES as u32,
        0,
        0x1000,
    );
    ring_doorbell(&mut hb, 0x100);
    hb.tick(&mut ram);
    assert_eq!(hb.read(reg::COMPLETION_ERROR + 3), err::WRITE_PROTECTED);
}

#[test]
fn partial_io_failure_reports_residue() {
    let mut disk = MemDisk::new(4);
    disk.fail_after = Some(2);
    let mut hb = Hostblk::new(&DIAG_ROM);
    hb.attach_unit(0, &mut disk, false);
    let mut ram = ram();
    put_descriptor(
        &mut ram,
        0x100,
        cmd::READ,
        0,
        4 * SECTOR_BYTES as u32,
        0,
        0x1000,
    );
    ring_doorbell(&mut hb, 0x100);
    hb.tick(&mut ram);
    assert_eq!(hb.read(reg::COMPLETION_ERROR + 3), err::IO_ERROR);
    assert_eq!(
        read_u32(&hb, reg::COMPLETION_ACTUAL),
        2 * SECTOR_BYTES as u32
    );
}

#[test]
fn interrupt_asserts_on_the_write_completion_path() {
    let mut disk = MemDisk::new(4);
    let mut hb = Hostblk::new(&DIAG_ROM);
    hb.attach_unit(0, &mut disk, false);
    hb.write(reg::INT_ENABLE + 3, 1);
    let mut ram = ram();
    put_descriptor(
        &mut ram,
        0x100,
        cmd::WRITE,
        0,
        SECTOR_BYTES as u32,
        0,
        0x1000,
    );
    ring_doorbell(&mut hb, 0x100);
    assert!(!hb.irq_pending(), "not yet -- still queued");
    hb.tick(&mut ram);
    assert!(hb.irq_pending(), "the tick landed the completion");
}

#[test]
fn interrupt_asserts_on_the_read_completion_path() {
    let mut disk = MemDisk::new(4);
    let mut hb = Hostblk::new(&DIAG_ROM);
    hb.attach_unit(0, &mut disk, false);
    hb.write(reg::INT_ENABLE + 3, 1);
    let mut ram = ram();
    put_descriptor(
        &mut ram,
        0x100,
        cmd::READ,
        0,
        SECTOR_BYTES as u32,
        0,
        0x1000,
    );
    ring_doorbell(&mut hb, 0x100);
    assert!(!hb.irq_pending());
    hb.tick(&mut ram);
    assert!(hb.irq_pending(), "the fetch landed on this tick");
}

#[test]
fn interrupt_enable_gates_the_line() {
    let mut disk = MemDisk::new(4);
    let mut hb = Hostblk::new(&DIAG_ROM);
    hb.attach_unit(0, &mut disk, false);
    let mut ram = ram();
    put_descriptor(
        &mut ram,
        0x100,
        cmd::READ,
        0,
        SECTOR_BYTES as u32,
        0,
        0x1000,
    );
    ring_doorbell(&mut hb, 0x100);
    hb.tick(&mut ram);
    assert!(!hb.irq_pending(), "INT_ENABLE is 0 by default");
}

#[test]
fn board_spec_carries_the_documented_zorro_iii_identity() {
    let spec = Hostblk::board_spec();
    assert_eq!(spec.manufacturer, MANUFACTURER);
    assert_eq!(spec.size_bytes, WINDOW_BYTES);
    assert_eq!(spec.board_type, ERT_ZORROIII | ERTF_DIAGVALID);
    assert_eq!(spec.flags, ERFF_ZORRO_III | ERFF_EXTENDED);
    assert_eq!(
        spec.init_diag_vec, ROM_BASE as u16,
        "expansion.library adds er_InitDiagVec to the configured base \
         address to find the DiagArea -- must point at ROM_BASE"
    );
}

#[test]
fn unimplemented_offsets_read_zero_not_open_bus() {
    let hb = Hostblk::new(&DIAG_ROM);
    assert_eq!(hb.read(0x38 + 4), 0);
    assert_eq!(
        hb.read(ROM_BASE + DIAG_ROM.len() as u32),
        0,
        "one past the ROM"
    );
    assert_eq!(hb.read(0x1_0000), 0, "deep in the unimplemented window");
}

#[test]
fn diag_rom_is_served_byte_for_byte_at_rom_base() {
    let hb = Hostblk::new(&DIAG_ROM);
    for (i, &expected) in DIAG_ROM.iter().enumerate() {
        assert_eq!(
            hb.read(ROM_BASE + i as u32),
            expected,
            "byte {i} of the embedded DiagArea ROM"
        );
    }
}
