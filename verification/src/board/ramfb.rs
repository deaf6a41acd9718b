//! Configuring a `ramfb` display through the firmware configuration device:
//! finding its file in the directory, and the two blocks of big-endian data
//! the device reads.

use crate::be;
use vstd::prelude::*;

verus! {

/// Selector of the file directory.
pub const FW_CFG_FILE_DIR: u16 = 0x19;

/// Fixed name field width in a directory entry.
pub const FW_CFG_MAX_FILE_PATH: usize = 56;

/// Bytes in a directory entry.
pub const DIRECTORY_ENTRY_BYTES: usize = 64;

/// Directory entries looked at, however many the directory claims.
pub const MAX_FILES: u32 = 4096;

/// DMA control bit: the transfer failed.
pub const FW_CFG_DMA_CTL_ERROR: u32 = 0x01;

/// DMA control bit: select the file in the control word's top half first.
pub const FW_CFG_DMA_CTL_SELECT: u32 = 0x08;

/// DMA control bit: write to the file.
pub const FW_CFG_DMA_CTL_WRITE: u32 = 0x10;

/// The pixel format "XR24": bytes B, G, R, X in memory.
pub const DRM_FORMAT_XRGB8888: u32 = 0x3432_5258;

/// Host framebuffer geometry: more than twice the Amiga canvas on both axes.
pub const HOST_WIDTH: u32 = 1600;

pub const HOST_HEIGHT: u32 = 1200;

/// Whether the display was found and configured.
#[derive(Clone, Copy, PartialEq, Eq, Debug, Structural)]
pub enum RamfbStatus {
    /// Configured; frames written to the framebuffer will be scanned out.
    Ready,
    /// The device's file is not in the directory.
    DeviceNotPresent,
    /// The device rejected the configuration.
    ConfigureFailed,
}

/// A longword's four bytes, most significant first.
pub open spec fn long_bytes(value: u32) -> Seq<u8> {
    seq![
        be::byte_lane(value, 0),
        be::byte_lane(value, 1),
        be::byte_lane(value, 2),
        be::byte_lane(value, 3),
    ]
}

/// The upper and lower half of a 64-bit value.
pub open spec fn halves(value: u64) -> (u32, u32) {
    ((value / 0x1_0000_0000) as u32, (value % 0x1_0000_0000) as u32)
}

/// A 64-bit value's eight bytes, most significant first.
pub open spec fn quad_bytes(value: u64) -> Seq<u8> {
    long_bytes(halves(value).0) + long_bytes(halves(value).1)
}

/// The longword at `at`.
pub open spec fn long_at(bytes: Seq<u8>, at: int) -> u32 {
    be::be32(be::be16(bytes[at], bytes[at + 1]), be::be16(bytes[at + 2], bytes[at + 3]))
}

/// The number that `n` bytes from `at` on spell, most significant first.
pub open spec fn number_at(bytes: Seq<u8>, at: int, n: nat) -> int
    decreases n,
{
    if n == 0 {
        0
    } else {
        number_at(bytes, at, (n - 1) as nat) * 256 + bytes[at + n - 1]
    }
}

/// The word at `at`.
pub open spec fn word_at(bytes: Seq<u8>, at: int) -> u16 {
    be::be16(bytes[at], bytes[at + 1])
}

fn read_long(bytes: &[u8], at: usize) -> (value: u32)
    requires
        at + 4 <= bytes@.len(),
    ensures
        value == long_at(bytes@, at as int),
{
    assert(bytes.len() == bytes@.len());
    be::join32(be::join16(bytes[at], bytes[at + 1]), be::join16(bytes[at + 2], bytes[at + 3]))
}

/// Four bytes of a longword spell it.
proof fn lemma_long_at(bytes: Seq<u8>, at: int, value: u32)
    requires
        0 <= at,
        at + 4 <= bytes.len(),
        bytes[at] == be::byte_lane(value, 0),
        bytes[at + 1] == be::byte_lane(value, 1),
        bytes[at + 2] == be::byte_lane(value, 2),
        bytes[at + 3] == be::byte_lane(value, 3),
    ensures
        number_at(bytes, at, 4) == value,
{
    reveal_with_fuel(number_at, 5);
}

/// Eight bytes spell what their two halves do.
proof fn lemma_quad_at(bytes: Seq<u8>, at: int)
    ensures
        number_at(bytes, at, 8) == number_at(bytes, at, 4) * 0x1_0000_0000 + number_at(
            bytes,
            at + 4,
            4,
        ),
{
    reveal_with_fuel(number_at, 9);
}

/// How many directory entries are looked at.
pub open spec fn entries_scanned(count: u32) -> u32 {
    if count < MAX_FILES {
        count
    } else {
        MAX_FILES
    }
}

/// Whether a byte sequence holds a whole directory: a count, and as many
/// entries as are looked at.
pub open spec fn is_directory(directory: Seq<u8>) -> bool {
    &&& directory.len() >= 4
    &&& directory.len() >= 4 + 64 * entries_scanned(long_at(directory, 0))
}

/// Where entry `i` starts.
pub open spec fn entry_at(i: int) -> int {
    4 + 64 * i
}

/// An entry's name field.
pub open spec fn name_field(directory: Seq<u8>, i: int) -> Seq<u8> {
    directory.subrange(entry_at(i) + 8, entry_at(i) + 64)
}

/// An entry's selector.
pub open spec fn selector_of(directory: Seq<u8>, i: int) -> u16 {
    word_at(directory, entry_at(i) + 4)
}

/// Whether a NUL-padded name field spells `name`: the name's bytes, and then
/// a NUL or the field's end; the name itself holds no NUL.
pub open spec fn spells(field: Seq<u8>, name: Seq<u8>) -> bool {
    &&& name.len() <= field.len()
    &&& field.take(name.len() as int) == name
    &&& forall|k: int| 0 <= k < name.len() ==> (#[trigger] field[k]) != 0
    &&& name.len() < field.len() ==> field[name.len() as int] == 0
}

/// Whether entry `i` is the first one with this name.
pub open spec fn is_first_named(directory: Seq<u8>, name: Seq<u8>, i: int) -> bool {
    &&& 0 <= i < entries_scanned(long_at(directory, 0))
    &&& spells(name_field(directory, i), name)
    &&& forall|j: int| 0 <= j < i ==> !spells(#[trigger] name_field(directory, j), name)
}

/// How many bytes to read for a directory that claims `count` entries,
/// besides the count itself.
pub fn directory_len(count: u32) -> (len: usize)
    ensures
        len == 64 * entries_scanned(count),
{
    if count < MAX_FILES {
        count as usize * 64
    } else {
        MAX_FILES as usize * 64
    }
}

/// One directory entry: size, selector and NUL-padded name.
pub fn read_directory_entry(directory: &[u8], index: usize) -> (entry: (
    u32,
    u16,
    [u8; FW_CFG_MAX_FILE_PATH],
))
    requires
        4 + 64 * index + 64 <= directory@.len(),
    ensures
        entry.0 == long_at(directory@, entry_at(index as int)),
        entry.1 == selector_of(directory@, index as int),
        entry.2@ == name_field(directory@, index as int),
{
    assert(directory.len() == directory@.len());
    let at: usize = 4 + 64 * index;
    let size: u32 = read_long(directory, at);
    let selector: u16 = be::join16(directory[at + 4], directory[at + 5]);
    let mut name: [u8; FW_CFG_MAX_FILE_PATH] = [0;FW_CFG_MAX_FILE_PATH];
    let mut k: usize = 0;
    while k < FW_CFG_MAX_FILE_PATH
        invariant
            k <= 56,
            at == 4 + 64 * index,
            at + 64 <= directory@.len(),
            at + 64 <= usize::MAX,
            forall|j: int| 0 <= j < k ==> (#[trigger] name@[j]) == directory@[at + 8 + j],
        decreases 56 - k,
    {
        name[k] = directory[at + 8 + k];
        k += 1;
    }
    assert(name@ =~= name_field(directory@, index as int));
    (size, selector, name)
}

/// Whether a name field spells `name`.
fn name_matches(field: &[u8; FW_CFG_MAX_FILE_PATH], name: &[u8]) -> (same: bool)
    ensures
        same == spells(field@, name@),
{
    if name.len() > FW_CFG_MAX_FILE_PATH {
        return false;
    }
    let mut k: usize = 0;
    while k < name.len()
        invariant
            k <= name@.len() <= 56,
            forall|j: int| 0 <= j < k ==> (#[trigger] field@[j]) == name@[j] && field@[j] != 0,
        decreases name@.len() - k,
    {
        if field[k] != name[k] {
            assert(field@.take(name@.len() as int)[k as int] != name@[k as int]);
            return false;
        }
        if field[k] == 0 {
            return false;
        }
        k += 1;
    }
    assert(field@.take(name@.len() as int) =~= name@);
    name.len() == FW_CFG_MAX_FILE_PATH || field[name.len()] == 0
}

/// Look a file up by name, and return its selector. `None` means the
/// directory never advertised it.
pub fn find_file_selector(directory: &[u8], target: &str) -> (selector: Option<u16>)
    requires
        is_directory(directory@),
    ensures
        ({
            let name = vstd::utf8::encode_utf8(target@);
            match selector {
                Some(s) => exists|i: int| #[trigger]
                    is_first_named(directory@, name, i) && s == selector_of(directory@, i),
                None => forall|i: int|
                    0 <= i < entries_scanned(long_at(directory@, 0)) ==> !spells(
                        #[trigger] name_field(directory@, i),
                        name,
                    ),
            }
        }),
{
    let claimed: u32 = read_long(directory, 0);
    let count: usize = (if claimed < MAX_FILES {
        claimed
    } else {
        MAX_FILES
    }) as usize;
    let name = target.as_bytes();
    let mut i: usize = 0;
    while i < count
        invariant
            i <= count <= 4096,
            count == entries_scanned(long_at(directory@, 0)),
            is_directory(directory@),
            name@ == vstd::utf8::encode_utf8(target@),
            forall|j: int| 0 <= j < i ==> !spells(#[trigger] name_field(directory@, j), name@),
        decreases count - i,
    {
        let (_, selector, field) = read_directory_entry(directory, i);
        if name_matches(&field, name) {
            assert(is_first_named(directory@, name@, i as int));
            return Some(selector);
        }
        i += 1;
    }
    None
}

/// A DMA access block: control, length and buffer address.
pub struct DmaAccess {
    pub bytes: [u8; 16],
}

/// The control word that selects a file and writes to it.
pub open spec fn write_control(selector: u16) -> u32 {
    (selector * 65536 + FW_CFG_DMA_CTL_SELECT + FW_CFG_DMA_CTL_WRITE) as u32
}

impl DmaAccess {
    /// Write `length` bytes from `address` to the file `selector` names.
    pub fn select_and_write(selector: u16, length: u32, address: u64) -> (dma: Self)
        ensures
            dma.bytes@ == long_bytes(write_control(selector)) + long_bytes(length) + quad_bytes(
                address,
            ),
            number_at(dma.bytes@, 0, 4) == selector * 0x1_0000 + 0x18,
            number_at(dma.bytes@, 4, 4) == length,
            number_at(dma.bytes@, 8, 8) == address,
    {
        let control: u32 = selector as u32 * 65536 + FW_CFG_DMA_CTL_SELECT + FW_CFG_DMA_CTL_WRITE;
        let hi: u32 = (address / 0x1_0000_0000) as u32;
        let lo: u32 = (address % 0x1_0000_0000) as u32;
        let dma = DmaAccess {
            bytes: [
                be::byte_of(control, 0),
                be::byte_of(control, 1),
                be::byte_of(control, 2),
                be::byte_of(control, 3),
                be::byte_of(length, 0),
                be::byte_of(length, 1),
                be::byte_of(length, 2),
                be::byte_of(length, 3),
                be::byte_of(hi, 0),
                be::byte_of(hi, 1),
                be::byte_of(hi, 2),
                be::byte_of(hi, 3),
                be::byte_of(lo, 0),
                be::byte_of(lo, 1),
                be::byte_of(lo, 2),
                be::byte_of(lo, 3),
            ],
        };
        assert(dma.bytes@ =~= long_bytes(write_control(selector)) + long_bytes(length)
            + quad_bytes(address));
        proof {
            lemma_long_at(dma.bytes@, 0, control);
            lemma_long_at(dma.bytes@, 4, length);
            lemma_long_at(dma.bytes@, 8, hi);
            lemma_long_at(dma.bytes@, 12, lo);
            lemma_quad_at(dma.bytes@, 8);
        }
        dma
    }

    /// The control word, which the device updates with the outcome.
    pub fn control(&self) -> (control: u32)
        ensures
            control == long_at(self.bytes@, 0),
    {
        be::join32(
            be::join16(self.bytes[0], self.bytes[1]),
            be::join16(self.bytes[2], self.bytes[3]),
        )
    }
}

/// The configuration the device is written: address, format, flags, width,
/// height and stride.
pub struct RamfbCfg {
    pub bytes: [u8; 28],
}

impl RamfbCfg {
    pub fn new(addr: u64, width: u32, height: u32, stride: u32) -> (cfg: Self)
        ensures
            cfg.bytes@ == quad_bytes(addr) + long_bytes(DRM_FORMAT_XRGB8888) + long_bytes(0)
                + long_bytes(width) + long_bytes(height) + long_bytes(stride),
            number_at(cfg.bytes@, 0, 8) == addr,
            number_at(cfg.bytes@, 8, 4) == 0x3432_5258,
            number_at(cfg.bytes@, 12, 4) == 0,
            number_at(cfg.bytes@, 16, 4) == width,
            number_at(cfg.bytes@, 20, 4) == height,
            number_at(cfg.bytes@, 24, 4) == stride,
    {
        let hi: u32 = (addr / 0x1_0000_0000) as u32;
        let lo: u32 = (addr % 0x1_0000_0000) as u32;
        let cfg = RamfbCfg {
            bytes: [
                be::byte_of(hi, 0),
                be::byte_of(hi, 1),
                be::byte_of(hi, 2),
                be::byte_of(hi, 3),
                be::byte_of(lo, 0),
                be::byte_of(lo, 1),
                be::byte_of(lo, 2),
                be::byte_of(lo, 3),
                be::byte_of(DRM_FORMAT_XRGB8888, 0),
                be::byte_of(DRM_FORMAT_XRGB8888, 1),
                be::byte_of(DRM_FORMAT_XRGB8888, 2),
                be::byte_of(DRM_FORMAT_XRGB8888, 3),
                0,
                0,
                0,
                0,
                be::byte_of(width, 0),
                be::byte_of(width, 1),
                be::byte_of(width, 2),
                be::byte_of(width, 3),
                be::byte_of(height, 0),
                be::byte_of(height, 1),
                be::byte_of(height, 2),
                be::byte_of(height, 3),
                be::byte_of(stride, 0),
                be::byte_of(stride, 1),
                be::byte_of(stride, 2),
                be::byte_of(stride, 3),
            ],
        };
        assert(long_bytes(0) =~= seq![0u8, 0, 0, 0]);
        assert(cfg.bytes@ =~= quad_bytes(addr) + long_bytes(DRM_FORMAT_XRGB8888) + long_bytes(0)
            + long_bytes(width) + long_bytes(height) + long_bytes(stride));
        proof {
            lemma_long_at(cfg.bytes@, 0, hi);
            lemma_long_at(cfg.bytes@, 4, lo);
            lemma_quad_at(cfg.bytes@, 0);
            lemma_long_at(cfg.bytes@, 8, DRM_FORMAT_XRGB8888);
            lemma_long_at(cfg.bytes@, 12, 0);
            lemma_long_at(cfg.bytes@, 16, width);
            lemma_long_at(cfg.bytes@, 20, height);
            lemma_long_at(cfg.bytes@, 24, stride);
        }
        cfg
    }
}

/// The bytes of the device's file name, `etc/ramfb`.
pub open spec fn device_file() -> Seq<u8> {
    vstd::utf8::encode_utf8("etc/ramfb"@)
}

/// What to write to have `ramfb` scan out the host framebuffer at `fb_addr`:
/// the file's selector and the configuration; or that the device is not
/// there.
pub fn init(directory: &[u8], fb_addr: u64) -> (setup: Result<(u16, RamfbCfg), RamfbStatus>)
    requires
        is_directory(directory@),
    ensures
        match setup {
            Ok((selector, cfg)) => {
                &&& exists|i: int| #[trigger]
                    is_first_named(directory@, device_file(), i) && selector == selector_of(
                        directory@,
                        i,
                    )
                &&& cfg.bytes@ == quad_bytes(fb_addr) + long_bytes(DRM_FORMAT_XRGB8888)
                    + long_bytes(0) + long_bytes(HOST_WIDTH) + long_bytes(HOST_HEIGHT)
                    + long_bytes((HOST_WIDTH * 4) as u32)
                &&& number_at(cfg.bytes@, 0, 8) == fb_addr
                &&& number_at(cfg.bytes@, 16, 4) == HOST_WIDTH
                &&& number_at(cfg.bytes@, 20, 4) == HOST_HEIGHT
                &&& number_at(cfg.bytes@, 24, 4) == 4 * HOST_WIDTH
            },
            Err(status) => {
                &&& status == RamfbStatus::DeviceNotPresent
                &&& forall|i: int|
                    0 <= i < entries_scanned(long_at(directory@, 0)) ==> !spells(
                        #[trigger] name_field(directory@, i),
                        device_file(),
                    )
            },
        },
{
    let name = "etc/ramfb";
    match find_file_selector(directory, name) {
        Some(selector) => {
            let stride: u32 = HOST_WIDTH * 4;
            let cfg = RamfbCfg::new(fb_addr, HOST_WIDTH, HOST_HEIGHT, stride);
            proof {
                let i = choose|i: int| #[trigger]
                    is_first_named(directory@, vstd::utf8::encode_utf8(name@), i) && selector
                        == selector_of(directory@, i);
                assert(is_first_named(directory@, device_file(), i));
            }
            Ok((selector, cfg))
        },
        None => Err(RamfbStatus::DeviceNotPresent),
    }
}

/// What the control word says after the configuring write.
pub fn configured(control: u32) -> (status: RamfbStatus)
    ensures
        status == if control & FW_CFG_DMA_CTL_ERROR != 0 {
            RamfbStatus::ConfigureFailed
        } else {
            RamfbStatus::Ready
        },
{
    if control & FW_CFG_DMA_CTL_ERROR != 0 {
        RamfbStatus::ConfigureFailed
    } else {
        RamfbStatus::Ready
    }
}

/// A longword written big-endian reads back.
pub proof fn long_bytes_read_back(value: u32, rest: Seq<u8>)
    ensures
        long_at(long_bytes(value) + rest, 0) == value,
{
    be::lanes_are_independent(value, 0, 0, 0);
    let bytes = long_bytes(value) + rest;
    assert(bytes[0] == be::byte_lane(value, 0) && bytes[1] == be::byte_lane(value, 1) && bytes[2]
        == be::byte_lane(value, 2) && bytes[3] == be::byte_lane(value, 3));
}

/// A fresh access block's control word asks for a select and a write of the
/// named file, with no error flagged.
pub proof fn fresh_access_has_no_error(selector: u16)
    ensures
        write_control(selector) & FW_CFG_DMA_CTL_ERROR == 0,
        write_control(selector) & FW_CFG_DMA_CTL_SELECT != 0,
        write_control(selector) & FW_CFG_DMA_CTL_WRITE != 0,
        write_control(selector) / 65536 == selector,
{
    let control = write_control(selector);
    assert(control & 0x01 == 0 && control & 0x08 != 0 && control & 0x10 != 0) by (bit_vector)
        requires
            control % 65536 == 24,
    ;
}

/// At most one name is spelled by a field, so which entry a lookup finds is
/// determined by the directory.
pub proof fn first_named_is_unique(directory: Seq<u8>, name: Seq<u8>, i: int, j: int)
    requires
        is_first_named(directory, name, i),
        is_first_named(directory, name, j),
    ensures
        i == j,
{
    if i < j {
        assert(spells(name_field(directory, i), name));
    } else if j < i {
        assert(spells(name_field(directory, j), name));
    }
}

} // verus!
