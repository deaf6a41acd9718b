use machine_core::autoconfig::{AutoConfig, BoardSpec, ERT_ZORROII, MAX_BOARDS};
use machine_core::be::{byte_of, join16, join32, set_byte_of, split16, split32};
use machine_core::block::{BlockDevice, SECTOR_BYTES};
use machine_core::chipset::{
    Chipset, PAL_COLOUR_CLOCKS_PER_LINE, PAL_LINES_PER_FRAME, intbit, reg as chip_reg,
};
use machine_core::cia::{
    CIAA_DSKTRACK0, CIAB_DSKDIREC, CIAB_DSKSEL0, CIAB_DSKSTEP, CRA_START, Cia, CiaId, FloppyDrive,
    FloppyPresence, encode_keyboard_byte, icr, reg as cia_reg,
};
use machine_core::cirrus::{
    ChipRevision, Cirrus542x, blit_mode, blit_status, idx, port,
};
use machine_core::display::Framebuffer;
use machine_core::gayle::{GAYLE_BASE, Gayle};
use machine_core::graffity::Graffity;
use machine_core::hostblk::{
    Descriptor, Hostblk, cmd, err, parse_descriptor, plan_transfer, reg as blk_reg,
    transfer_result,
};
use machine_core::input::{NativeInput, QUEUE_CAPACITY, ev, reg as in_reg};
use machine_core::mirage::{Mirage, cmd as mirage_cmd, irq, reg as mirage_reg, status};
use machine_core::ring::Ring;
use machine_core::OPEN_BUS_BYTE;

const BOOT_ROM: [u8; 4] = [0x90, 0x00, 0x4E, 0x75];

struct Disk {
    sectors: Vec<[u8; SECTOR_BYTES]>,
    writes: usize,
}

impl Disk {
    fn new(count: usize) -> Self {
        Self {
            sectors: vec![[0u8; SECTOR_BYTES]; count],
            writes: 0,
        }
    }
}

impl BlockDevice for Disk {
    fn sector_count(&self) -> u64 {
        self.sectors.len() as u64
    }

    fn read_sector(&mut self, lba: u64, buf: &mut [u8; SECTOR_BYTES]) -> bool {
        *buf = self.sectors[lba as usize];
        true
    }

    fn write_sector(&mut self, lba: u64, buf: &[u8; SECTOR_BYTES]) -> bool {
        self.writes += 1;
        self.sectors[lba as usize] = *buf;
        true
    }
}

fn ring_bell(card: &mut Hostblk, ptr: u32) {
    for (lane, byte) in ptr.to_be_bytes().iter().enumerate() {
        card.write(blk_reg::DOORBELL + lane as u32, *byte);
    }
}

fn long_of(card: &Hostblk, base: u32) -> u32 {
    u32::from_be_bytes([
        card.read(base),
        card.read(base + 1),
        card.read(base + 2),
        card.read(base + 3),
    ])
}

fn describe(ram: &mut [u8], ptr: usize, d: &Descriptor) {
    ram[ptr] = d.command;
    ram[ptr + 1] = d.unit;
    ram[ptr + 4..ptr + 8].copy_from_slice(&d.length.to_be_bytes());
    ram[ptr + 8..ptr + 16].copy_from_slice(&d.offset.to_be_bytes());
    ram[ptr + 16..ptr + 20].copy_from_slice(&d.buffer.to_be_bytes());
}

fn request(command: u8, length: u32, offset: u64, buffer: u32) -> Descriptor {
    Descriptor {
        command,
        unit: 0,
        length,
        offset,
        buffer,
    }
}

#[test]
fn descriptors_are_parsed_field_by_field() {
    let mut bytes = [0u8; 20];
    let d = Descriptor {
        command: 2,
        unit: 5,
        length: 0x0102_0304,
        offset: 0x1122_3344_5566_7788,
        buffer: 0xA1B2_C3D4,
    };
    describe(&mut bytes, 0, &d);
    assert_eq!(parse_descriptor(&bytes), d);
}

#[test]
fn every_reason_to_reject_a_transfer() {
    let good = request(cmd::WRITE, 1024, 512, 0);
    assert_eq!(plan_transfer(&good, true, false, 3), Ok((1, 2)));
    assert_eq!(plan_transfer(&good, true, true, 3), Err(err::WRITE_PROTECTED));
    assert_eq!(plan_transfer(&good, false, true, 3), Ok((1, 2)));
    assert_eq!(plan_transfer(&good, true, false, 2), Err(err::OUT_OF_RANGE));
    let empty = request(cmd::READ, 0, 0, 0);
    assert_eq!(plan_transfer(&empty, false, false, 9), Err(err::INVALID_LENGTH));
    let ragged = request(cmd::READ, 513, 0, 0);
    assert_eq!(plan_transfer(&ragged, false, false, 9), Err(err::INVALID_LENGTH));
    let skewed = request(cmd::READ, 512, 1, 0);
    assert_eq!(plan_transfer(&skewed, false, false, 9), Err(err::MISALIGNED));
    let far = request(cmd::READ, 512, u64::MAX - 511, 0);
    assert_eq!(plan_transfer(&far, false, false, u64::MAX), Ok((u64::MAX / 512, 1)));
}

#[test]
fn a_partial_transfer_reports_what_landed() {
    assert_eq!(transfer_result(3, 3), (err::OK, 1536));
    assert_eq!(transfer_result(2, 3), (err::IO_ERROR, 1024));
    assert_eq!(transfer_result(0, 3), (err::IO_ERROR, 0));
}

#[test]
fn a_read_into_another_buffer_returns_the_written_bytes() {
    let mut disk = Disk::new(8);
    let mut card = Hostblk::new(&BOOT_ROM);
    card.attach_unit(0, &mut disk, false);
    let mut ram = vec![0u8; 8192];
    for i in 0..1024 {
        ram[1024 + i] = (i % 251) as u8;
    }
    describe(&mut ram, 0, &request(cmd::WRITE, 1024, 1024, 1024));
    describe(&mut ram, 32, &request(cmd::READ, 1024, 1024, 4096));
    ring_bell(&mut card, 0);
    ring_bell(&mut card, 32);
    card.tick(&mut ram);
    card.tick(&mut ram);
    assert_eq!(long_of(&card, blk_reg::COMPLETION_COUNT), 2);
    assert_eq!(card.read(blk_reg::COMPLETION_ERROR + 3), err::OK);
    assert_eq!(long_of(&card, blk_reg::COMPLETION_ACTUAL), 1024);
    let written = ram[1024..2048].to_vec();
    assert_eq!(&ram[4096..5120], &written[..]);
    assert_eq!(ram[5120], 0, "nothing past the buffer");
    assert_eq!(ram[4095], 0, "nothing before the buffer");
}

#[test]
fn the_boot_rom_lies_where_the_board_says() {
    let mut card = Hostblk::new(&BOOT_ROM);
    let base = Hostblk::board_spec().init_diag_vec as u32;
    card.write(base, 0xFF);
    let served: Vec<u8> = (0..6).map(|i| card.read(base + i)).collect();
    assert_eq!(served, vec![0x90, 0x00, 0x4E, 0x75, 0x00, 0x00]);
}

#[test]
fn an_unknown_command_is_rejected() {
    let mut disk = Disk::new(8);
    let mut card = Hostblk::new(&BOOT_ROM);
    card.attach_unit(0, &mut disk, false);
    let mut ram = vec![0u8; 4096];
    describe(&mut ram, 0, &request(9, 512, 0, 1024));
    ring_bell(&mut card, 0);
    card.tick(&mut ram);
    assert_eq!(card.read(blk_reg::COMPLETION_ERROR + 3), err::INVALID_COMMAND);
    assert_eq!(long_of(&card, blk_reg::COMPLETION_ACTUAL), 0);
}

#[test]
fn a_flush_completes_without_moving_anything() {
    let mut disk = Disk::new(8);
    let mut card = Hostblk::new(&BOOT_ROM);
    card.attach_unit(0, &mut disk, true);
    let mut ram = vec![0u8; 4096];
    describe(&mut ram, 0, &request(cmd::FLUSH, 0, 0, 0));
    ring_bell(&mut card, 0);
    card.tick(&mut ram);
    assert_eq!(card.read(blk_reg::COMPLETION_ERROR + 3), err::OK);
    assert_eq!(long_of(&card, blk_reg::COMPLETION_ACTUAL), 0);
}

#[test]
fn a_protected_unit_is_readable_and_never_written() {
    let mut disk = Disk::new(2);
    disk.sectors[1] = [0x5A; SECTOR_BYTES];
    let mut ram = vec![0u8; 4096];
    {
        let mut card = Hostblk::new(&BOOT_ROM);
        card.attach_unit(0, &mut disk, true);
        describe(&mut ram, 0, &request(cmd::WRITE, 512, 512, 1024));
        describe(&mut ram, 32, &request(cmd::READ, 512, 512, 1024));
        ring_bell(&mut card, 0);
        ring_bell(&mut card, 32);
        card.tick(&mut ram);
        card.tick(&mut ram);
        assert_eq!(card.read(blk_reg::COMPLETION_ERROR + 3), err::WRITE_PROTECTED);
        card.write(blk_reg::COMPLETION_ADVANCE + 3, 0);
        assert_eq!(card.read(blk_reg::COMPLETION_ERROR + 3), err::OK);
    }
    assert_eq!(disk.writes, 0);
    assert_eq!(ram[1024], 0x5A);
}

#[test]
fn selecting_a_unit_leaves_queued_requests_alone() {
    let mut disk = Disk::new(2);
    let mut card = Hostblk::new(&BOOT_ROM);
    card.attach_unit(0, &mut disk, false);
    let mut ram = vec![0u8; 4096];
    describe(&mut ram, 64, &request(cmd::READ, 512, 0, 1024));
    ring_bell(&mut card, 64);
    card.write(blk_reg::UNIT_SELECT + 3, 7);
    card.tick(&mut ram);
    assert_eq!(long_of(&card, blk_reg::COMPLETION_PTR), 64);
    assert_eq!(card.read(blk_reg::COMPLETION_ERROR + 3), err::OK);
    assert_eq!(long_of(&card, blk_reg::UNIT_PRESENT), 0);
}

#[test]
fn a_media_change_is_counted_for_its_unit() {
    let mut disk = Disk::new(2);
    let mut card = Hostblk::new(&BOOT_ROM);
    card.attach_unit(0, &mut disk, false);
    card.notify_media_change(0);
    card.notify_media_change(0);
    card.notify_media_change(3);
    assert_eq!(long_of(&card, blk_reg::UNIT_CHANGE_COUNT), 2);
}

#[test]
fn two_ticks_are_one_tick_of_their_sum() {
    let mut split = Chipset::new();
    let mut whole = Chipset::new();
    let mut wrapped_split = false;
    for clocks in [1u32, 2, 3, 450, 7, 141_650, 11] {
        wrapped_split |= split.tick(clocks, 2);
    }
    let wrapped_whole = whole.tick(1 + 2 + 3 + 450 + 7 + 141_650 + 11, 2);
    assert_eq!(wrapped_split, wrapped_whole);
    assert_eq!(split.vpos, whole.vpos);
    assert_eq!(split.hpos, whole.hpos);
    assert_eq!(split.carry, whole.carry);
    assert_eq!(split.frames, whole.frames);
    assert_eq!(split.intreq, whole.intreq);
}

#[test]
fn a_frame_ends_after_its_last_line_and_raises_vertb() {
    let frame = PAL_COLOUR_CLOCKS_PER_LINE * PAL_LINES_PER_FRAME;
    let mut c = Chipset::new();
    assert!(!c.tick(frame - 1, 1));
    assert_eq!(c.vpos, PAL_LINES_PER_FRAME - 1);
    assert_eq!(c.hpos, PAL_COLOUR_CLOCKS_PER_LINE - 1);
    assert_eq!(c.intreq, 0);
    assert!(c.tick(1, 1));
    assert_eq!((c.vpos, c.hpos, c.frames), (0, 0, 1));
    assert_eq!(c.read(chip_reg::INTREQR), 1 << intbit::VERTB);
}

#[test]
fn the_highest_interrupt_decides_the_level() {
    let mut c = Chipset::new();
    c.intena = 0x7FFF;
    for (bit, level) in [(0u16, 1u8), (3, 2), (5, 3), (8, 4), (10, 5), (13, 6)] {
        c.intreq = (1 << bit) | 1;
        assert_eq!(c.pending_level(), level, "bit {bit}");
    }
}

#[test]
fn pixels_outside_the_frame_are_ignored() {
    let mut pixels = [0u32; 7];
    {
        let mut fb = match Framebuffer::new(&mut pixels, 3, 2) {
            Some(fb) => fb,
            None => panic!("large enough"),
        };
        fb.put(2, 1, 0xFFAA_BBCC);
        fb.put(3, 0, 1);
        fb.put(0, 2, 1);
    }
    assert_eq!(pixels, [0, 0, 0, 0, 0, 0xFFAA_BBCC, 0]);
    let mut filled = [0u32; 4];
    {
        let mut fb = match Framebuffer::new(&mut filled, 2, 2) {
            Some(fb) => fb,
            None => panic!("large enough"),
        };
        fb.fill(0xFF00_0001);
    }
    assert_eq!(filled, [0xFF00_0001; 4]);
}

#[test]
fn a_frame_needs_both_dimensions() {
    let mut pixels = [0u32; 4];
    assert!(Framebuffer::new(&mut pixels, 0, 2).is_none());
    assert!(Framebuffer::new(&mut pixels, 2, 0).is_none());
    assert!(Framebuffer::new(&mut pixels, 5, 1).is_none());
    assert!(Framebuffer::new(&mut pixels, 4, 1).is_some());
    assert!(Framebuffer::new(&mut pixels, usize::MAX, 2).is_none());
    assert!(Framebuffer::new(&mut pixels, 1 << 33, 1 << 33).is_none());
}

#[test]
fn gayle_registers_are_quiet() {
    let mut gayle = Gayle::new();
    gayle.write(GAYLE_BASE, 0x12, None);
    assert_eq!(gayle.read(GAYLE_BASE, None), OPEN_BUS_BYTE);
    assert_eq!(gayle.intreq, 0);
}

#[test]
fn vram_past_its_end_floats() {
    let mut vram = [0u8; 16];
    let mut card = Graffity::new(&mut vram);
    card.vram_write(16, 0x12);
    assert_eq!(card.vram_read(16), OPEN_BUS_BYTE);
    assert_eq!(card.vram(), &[0u8; 16]);
}

fn gr(c: &mut Cirrus542x, index: u8, value: u8) {
    c.reg_write(port::GR_INDEX, index);
    c.reg_write(port::GR_DATA, value);
}

#[test]
fn a_reset_abandons_a_waiting_transfer() {
    let mut vram = [0u8; 32];
    let mut c = Cirrus542x::new(ChipRevision::Gd5428, &mut vram);
    c.reg_write(port::SEQ_INDEX, idx::SR_LOCK);
    c.reg_write(port::SEQ_DATA, idx::SR_LOCK_UNLOCKED);
    gr(&mut c, idx::GR_BLIT_WIDTH_LO, 3);
    gr(&mut c, idx::GR_BLIT_MODE, blit_mode::SYSTEM_SOURCE);
    gr(&mut c, idx::GR_BLIT_ROP, 0x0D);
    gr(&mut c, idx::GR_BLIT_START_STATUS, blit_status::START);
    c.vram_write(0, 0x77);
    assert_eq!(c.vram_read(0), 0, "the byte feeds the transfer");
    gr(&mut c, idx::GR_BLIT_START_STATUS, blit_status::RESET);
    assert_eq!(c.reg_read(port::GR_DATA) & blit_status::BUSY_MASK, 0);
    c.vram_write(0, 0x77);
    assert_eq!(c.vram_read(0), 0x77, "the aperture is VRAM again");
}

#[test]
fn a_copy_reproduces_its_source_and_moves_the_counters() {
    let mut vram = [0u8; 64];
    for (i, byte) in vram.iter_mut().enumerate() {
        *byte = i as u8;
    }
    let mut c = Cirrus542x::new(ChipRevision::Gd5428, &mut vram);
    c.reg_write(port::SEQ_INDEX, idx::SR_LOCK);
    c.reg_write(port::SEQ_DATA, idx::SR_LOCK_UNLOCKED);
    gr(&mut c, idx::GR_BLIT_WIDTH_LO, 3);
    gr(&mut c, idx::GR_BLIT_HEIGHT_LO, 1);
    gr(&mut c, idx::GR_BLIT_DST_PITCH_LO, 8);
    gr(&mut c, idx::GR_BLIT_SRC_PITCH_LO, 8);
    gr(&mut c, idx::GR_BLIT_DST_ADDR_LO, 32);
    gr(&mut c, idx::GR_BLIT_SRC_ADDR_LO, 0);
    gr(&mut c, idx::GR_BLIT_ROP, 0x0D);
    gr(&mut c, idx::GR_BLIT_START_STATUS, blit_status::START);
    assert_eq!(&c.vram()[32..36], &[0, 1, 2, 3]);
    assert_eq!(&c.vram()[36..40], &[36, 37, 38, 39], "outside the rectangle");
    assert_eq!(&c.vram()[40..44], &[8, 9, 10, 11]);
    c.reg_write(port::GR_INDEX, idx::GR_BLIT_DST_ADDR_LO);
    assert_eq!(c.reg_read(port::GR_DATA), 44);
    c.reg_write(port::GR_INDEX, idx::GR_BLIT_SRC_ADDR_LO);
    assert_eq!(c.reg_read(port::GR_DATA), 12);
}

#[test]
fn a_palette_entry_reads_back() {
    let mut vram = [0u8; 16];
    let mut c = Cirrus542x::new(ChipRevision::Gd5426, &mut vram);
    c.reg_write(port::DAC_WRITE_INDEX, 9);
    for level in [1u8, 2, 63] {
        c.reg_write(port::DAC_DATA, level);
    }
    c.reg_write(port::DAC_READ_INDEX, 9);
    assert_eq!(c.reg_read(port::DAC_DATA), 1);
    assert_eq!(c.reg_read(port::DAC_DATA), 2);
    assert_eq!(c.reg_read(port::DAC_DATA), 63);
    assert_eq!(c.palette_argb(9), 0xFF04_08FF);
}

#[test]
fn a_full_chain_takes_no_more_boards() {
    let spec = BoardSpec {
        board_type: ERT_ZORROII | 1,
        product: 1,
        flags: 0,
        manufacturer: 2011,
        serial: 0,
        init_diag_vec: 0,
        size_bytes: 0x1_0000,
    };
    let mut chain = AutoConfig::new();
    for i in 0..MAX_BOARDS {
        assert_eq!(chain.add_board(spec), Some(i));
    }
    assert_eq!(chain.add_board(spec), None);
}

#[test]
fn ticks_of_the_cia_lose_no_cycles() {
    let mut split = Cia::new(CiaId::A);
    let mut whole = Cia::new(CiaId::A);
    for cia in [&mut split, &mut whole] {
        cia.write(cia_reg::TALO, 0x10);
        cia.write(cia_reg::TAHI, 0x27);
        cia.write(cia_reg::CRA, CRA_START);
    }
    for clocks in [3u32, 7, 9, 1, 25] {
        split.tick(clocks, 10);
    }
    whole.tick(45, 10);
    assert_eq!(split.read(cia_reg::TALO), whole.read(cia_reg::TALO));
    assert_eq!(whole.read(cia_reg::TALO), 0x10 - 4);
}

#[test]
fn wire_bytes_decode_to_the_keycode() {
    for raw in 0..=255u8 {
        let wire = encode_keyboard_byte(raw);
        assert_eq!((!wire).rotate_right(1), raw);
    }
}

#[test]
fn raising_an_unmasked_source_requests_nothing() {
    let mut cia = Cia::new(CiaId::B);
    cia.raise(icr::TA);
    assert!(!cia.irq_pending());
    cia.write(cia_reg::ICR, 0x80 | (1 << icr::TA));
    assert!(cia.irq_pending());
}

#[test]
fn the_head_stops_at_both_ends() {
    let mut drive = FloppyDrive::new(FloppyPresence::Empty);
    let inward = !CIAB_DSKSEL0 & !CIAB_DSKDIREC;
    let outward = !CIAB_DSKSEL0;
    drive.on_prb_write(0xFF, inward);
    for _ in 0..200 {
        drive.on_prb_write(inward, inward & !CIAB_DSKSTEP);
        drive.on_prb_write(inward & !CIAB_DSKSTEP, inward);
    }
    let mut steps: u32 = 0;
    while drive.pra_status_bits() & CIAA_DSKTRACK0 != 0 && steps < 500 {
        drive.on_prb_write(outward, outward & !CIAB_DSKSTEP);
        drive.on_prb_write(outward & !CIAB_DSKSTEP, outward);
        steps += 1;
    }
    assert!(steps < 100, "{steps} steps back to track 0");
    drive.on_prb_write(outward, outward & !CIAB_DSKSTEP);
    assert_eq!(drive.pra_status_bits() & CIAA_DSKTRACK0, 0);
}

#[test]
fn acknowledging_clears_only_the_named_source() {
    let mut card = Mirage::new();
    card.write(mirage_reg::INT_ENABLE + 3, irq::XFER_COMPLETE | irq::MEDIA_CHANGE);
    card.notify_media_change(2);
    assert!(card.irq_pending());
    card.write(mirage_reg::INT_STATUS + 3, irq::XFER_COMPLETE);
    assert!(card.irq_pending());
    card.write(mirage_reg::INT_STATUS + 3, irq::MEDIA_CHANGE);
    assert!(!card.irq_pending());
    assert_eq!(card.change_count(2), 1);
}

#[test]
fn a_flush_needs_a_tick_and_then_interrupts() {
    let mut disk = Disk::new(2);
    let mut card = Mirage::new();
    card.attach_unit(0, &mut disk);
    card.write(mirage_reg::INT_ENABLE + 3, irq::XFER_COMPLETE);
    card.write(mirage_reg::CMD_STATUS + 3, mirage_cmd::FLUSH);
    assert_eq!(card.read(mirage_reg::CMD_STATUS + 3) & status::BUSY, status::BUSY);
    assert!(!card.irq_pending());
    for _ in 0..4 {
        card.tick();
    }
    assert_eq!(card.read(mirage_reg::CMD_STATUS + 3) & status::BUSY, 0);
    assert!(card.irq_pending());
}

#[test]
fn input_events_drain_in_order_up_to_the_capacity() {
    let mut card = NativeInput::new();
    for key in 0..QUEUE_CAPACITY {
        assert!(card.push_key((key % 96) as u8, true, 0));
    }
    for key in 0..QUEUE_CAPACITY {
        assert_eq!(card.read(in_reg::EVENT_TYPE + 3), ev::KEY_DOWN);
        assert_eq!(card.read(in_reg::EVENT_CODE + 3), (key % 96) as u8);
        card.write(in_reg::EVENT_ADVANCE + 3, 0);
    }
    assert_eq!(card.read(in_reg::EVENT_TYPE + 3), 0);
}

#[test]
fn a_ring_is_first_in_first_out() {
    let mut ring: Ring<u8, 3> = Ring::new(0);
    assert_eq!(ring.pop(), None);
    assert!(ring.push(1) && ring.push(2) && ring.push(3));
    assert!(ring.is_full());
    assert!(!ring.push(4));
    assert_eq!(ring.pop(), Some(1));
    assert!(ring.push(5));
    assert_eq!(ring.peek(), Some(2));
    ring.set(1, 9);
    assert_eq!(ring.at(1), 9);
    ring.remove(0);
    assert_eq!(ring.len(), 2);
    assert_eq!((ring.pop(), ring.pop(), ring.pop()), (Some(9), Some(5), None));
}

#[test]
fn words_split_and_join() {
    assert_eq!(join16(0x12, 0x34), 0x1234);
    assert_eq!(join32(0x1234, 0x5678), 0x1234_5678);
    assert_eq!(split16(0xABCD), (0xAB, 0xCD));
    assert_eq!(split32(0x1234_5678), (0x1234, 0x5678));
    assert_eq!(byte_of(0x1234_5678, 1), 0x34);
    assert_eq!(set_byte_of(0x1234_5678, 2, 0xEE), 0x1234_EE78);
}
