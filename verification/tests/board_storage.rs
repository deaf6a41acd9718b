use machine_core::block::{BlockDevice, SECTOR_BYTES};
use machine_core::board::storage::{
    Access, EfiBlockDevice, GeometryError, HandleProbe, RDB_LOCATION_LIMIT, RdbScan, find_rdb,
    has_rdb_signature,
};

struct Disk {
    sectors: Vec<[u8; SECTOR_BYTES]>,
    bad: Option<u64>,
    reads: Vec<u64>,
}

impl Disk {
    fn new(count: usize) -> Self {
        Self {
            sectors: vec![[0u8; SECTOR_BYTES]; count],
            bad: None,
            reads: Vec::new(),
        }
    }

    fn with_rdb_at(count: usize, lba: usize) -> Self {
        let mut disk = Self::new(count);
        disk.sectors[lba][0..4].copy_from_slice(b"RDSK");
        disk
    }
}

impl BlockDevice for Disk {
    fn sector_count(&self) -> u64 {
        self.sectors.len() as u64
    }

    fn read_sector(&mut self, lba: u64, buf: &mut [u8; SECTOR_BYTES]) -> bool {
        self.reads.push(lba);
        if self.bad == Some(lba) {
            return false;
        }
        *buf = self.sectors[lba as usize];
        true
    }

    fn write_sector(&mut self, lba: u64, buf: &[u8; SECTOR_BYTES]) -> bool {
        self.sectors[lba as usize] = *buf;
        true
    }
}

fn medium(block_size: u32, last_block: u64) -> EfiBlockDevice {
    match EfiBlockDevice::new(7, block_size, last_block) {
        Ok(device) => device,
        Err(error) => panic!("{}", error.reason()),
    }
}

#[test]
fn a_zero_block_size_is_refused() {
    match EfiBlockDevice::new(1, 0, 99) {
        Ok(_) => panic!("accepted"),
        Err(error) => {
            assert!(matches!(error, GeometryError::ZeroBlockSize));
            assert_eq!(error.reason(), "reports a block size of 0");
        }
    }
}

#[test]
fn a_block_size_that_does_not_divide_is_refused() {
    for size in [520u32, 768, 300, 1000] {
        match EfiBlockDevice::new(1, size, 99) {
            Ok(_) => panic!("accepted {size}"),
            Err(error) => {
                assert!(matches!(error, GeometryError::Untranslatable(s) if s == size));
            }
        }
    }
    assert_eq!(
        GeometryError::Untranslatable(520).reason(),
        "block size 520 is neither a clean multiple nor a clean divisor of 512 -- refusing to guess how to translate it"
    );
}

#[test]
fn geometry_of_the_three_kinds_of_medium() {
    let same = medium(512, 99);
    assert_eq!(same.sector_count(), 100);
    assert_eq!(same.native_block_size(), 512);
    assert_eq!(same.media_id, 7);
    let large = medium(2048, 99);
    assert_eq!(large.sector_count(), 400);
    assert_eq!(large.sectors_per_native, 4);
    assert_eq!(large.scratch.len(), 2048);
    let small = medium(128, 99);
    assert_eq!(small.sector_count(), 25);
    assert_eq!(small.natives_per_sector, 4);
}

#[test]
fn a_partial_last_sector_of_small_blocks_is_left_off() {
    assert_eq!(medium(256, 4).sector_count(), 2);
}

#[test]
fn sectors_are_found_on_the_medium() {
    assert_eq!(medium(512, 99).access(17), Access::Direct { native_lba: 17 });
    assert_eq!(medium(128, 99).access(24), Access::Direct { native_lba: 96 });
    assert_eq!(
        medium(4096, 9).access(17),
        Access::Within { native_lba: 2, offset: 512 }
    );
}

#[test]
fn a_sector_past_the_end_is_refused() {
    assert_eq!(medium(512, 99).access(100), Access::Refused);
    assert_eq!(medium(2048, 99).access(399), Access::Within { native_lba: 99, offset: 1536 });
    assert_eq!(medium(2048, 99).access(400), Access::Refused);
    assert_eq!(medium(128, 99).access(25), Access::Refused);
}

#[test]
fn splicing_a_sector_disturbs_nothing_else_of_its_block() {
    let mut device = medium(2048, 3);
    for i in 0..2048 {
        device.scratch[i] = (i / 512) as u8;
    }
    let fresh = [0xEEu8; SECTOR_BYTES];
    device.splice(1024, &fresh);
    for i in 0..2048 {
        let expected = if (1024..1536).contains(&i) { 0xEE } else { (i / 512) as u8 };
        assert_eq!(device.scratch[i], expected, "byte {i}");
    }
    let mut back = [0u8; SECTOR_BYTES];
    device.extract(1024, &mut back);
    assert_eq!(back, fresh);
    device.extract(1536, &mut back);
    assert_eq!(back, [3u8; SECTOR_BYTES]);
}

#[test]
fn only_the_rdb_signature_counts() {
    let mut sector = [0u8; SECTOR_BYTES];
    assert!(!has_rdb_signature(&sector));
    sector[0..4].copy_from_slice(b"RDSK");
    assert!(has_rdb_signature(&sector));
    sector[3] = b'k';
    assert!(!has_rdb_signature(&sector));
}

#[test]
fn the_scan_stops_at_the_first_match() {
    let mut disk = Disk::with_rdb_at(100, 3);
    disk.sectors[5][0..4].copy_from_slice(b"RDSK");
    assert_eq!(find_rdb(&mut disk), Some(3));
    assert_eq!(disk.reads, vec![0, 1, 2, 3]);
}

#[test]
fn the_scan_covers_the_first_sixteen_sectors_only() {
    let mut last = Disk::with_rdb_at(100, 15);
    assert_eq!(find_rdb(&mut last), Some(15));
    let mut beyond = Disk::with_rdb_at(100, 16);
    assert_eq!(find_rdb(&mut beyond), None);
    assert_eq!(beyond.reads.len() as u64, RDB_LOCATION_LIMIT);
}

#[test]
fn a_short_disk_is_scanned_to_its_end() {
    let mut disk = Disk::new(3);
    assert_eq!(find_rdb(&mut disk), None);
    assert_eq!(disk.reads, vec![0, 1, 2]);
    let mut empty = Disk::new(0);
    assert_eq!(find_rdb(&mut empty), None);
    assert!(empty.reads.is_empty());
}

#[test]
fn a_bad_sector_is_skipped_not_fatal() {
    let mut disk = Disk::with_rdb_at(100, 2);
    disk.bad = Some(1);
    assert_eq!(find_rdb(&mut disk), Some(2));
    disk.bad = Some(2);
    assert_eq!(find_rdb(&mut disk), None);
}

#[test]
fn every_handle_gets_its_log_line() {
    let unopenable = HandleProbe::Unopenable { reason: String::from("ACCESS_DENIED") };
    assert_eq!(
        unopenable.describe(0),
        "storage: handle 0: could not open BlockIO (ACCESS_DENIED) -- skipped"
    );
    let empty = HandleProbe::NoMedia { is_partition: false };
    assert_eq!(
        empty.describe(12),
        "storage: handle 12: whole disk, no media present -- skipped"
    );
    let odd = HandleProbe::Unusable {
        is_partition: true,
        block_size: 520,
        error: GeometryError::Untranslatable(520),
    };
    assert_eq!(
        odd.describe(1),
        "storage: handle 1: logical partition, block size 520 bytes -- block size 520 is neither a clean multiple nor a clean divisor of 512 -- refusing to guess how to translate it -- skipped"
    );
    let hit = HandleProbe::Scanned {
        is_partition: false,
        native_block_size: 512,
        sectors: 20480,
        found_at: Some(0),
    };
    assert_eq!(
        hit.describe(2),
        "storage: handle 2: whole disk, native block size 512 bytes, 20480 512-byte sectors -- 'RDSK' signature found at sector 0 -- serving this to hostblk"
    );
    let miss = HandleProbe::Scanned {
        is_partition: true,
        native_block_size: 2048,
        sectors: 8,
        found_at: None,
    };
    assert_eq!(
        miss.describe(3),
        "storage: handle 3: logical partition, native block size 2048 bytes, 8 512-byte sectors -- no 'RDSK' signature in the first 8 sectors -- not a candidate"
    );
}

#[test]
fn the_first_handle_with_a_match_is_served() {
    let mut scan = RdbScan::new();
    assert!(scan.report(0, &HandleProbe::NoMedia { is_partition: false }));
    let hit = HandleProbe::Scanned {
        is_partition: false,
        native_block_size: 512,
        sectors: 100,
        found_at: Some(1),
    };
    assert!(!scan.report(1, &hit));
    scan.finish();
    assert_eq!(scan.device, Some(1));
    assert_eq!(scan.log.len(), 2);
}

#[test]
fn finding_nothing_is_said_so() {
    let mut scan = RdbScan::new();
    scan.report(0, &HandleProbe::NoMedia { is_partition: true });
    scan.finish();
    assert_eq!(scan.device, None);
    assert_eq!(
        scan.log[1],
        "storage: no Amiga RDB disk found on any EFI_BLOCK_IO_PROTOCOL handle -- continuing with no drive attached"
    );
    let none = RdbScan::no_handles("NOT_FOUND");
    assert_eq!(none.device, None);
    assert_eq!(
        none.log,
        vec!["storage: no EFI_BLOCK_IO_PROTOCOL handles found at all (NOT_FOUND)"]
    );
}
