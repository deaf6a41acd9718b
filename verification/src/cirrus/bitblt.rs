//! The CL-GD542x BitBLT engine: a raster-operation combine of a source
//! (plain VRAM, an 8x8 pattern tile, a solid fill, a colour-expanded
//! monochrome stream, or host-fed system memory) into a destination
//! rectangle of VRAM, with backwards traversal and source transparency.
//!
//! Every address is guest-controlled. A source outside VRAM reads as zero
//! and a destination outside it is skipped.

use crate::cirrus::blit_mode;
use crate::cirrus::blit_modeext;
use crate::cirrus::idx;
use vstd::prelude::*;

verus! {

/// The two-operand Boolean function a raster-operation code selects. An
/// unrecognised code is a plain copy.
pub open spec fn rop_byte(rop: u8, source: u8, dest: u8) -> u8 {
    if rop == 0x00 {
        0
    } else if rop == 0x05 {
        source & dest
    } else if rop == 0x06 {
        dest
    } else if rop == 0x09 {
        source & !dest
    } else if rop == 0x0B {
        !dest
    } else if rop == 0x0D {
        source
    } else if rop == 0x0E {
        0xFF
    } else if rop == 0x50 {
        !source & dest
    } else if rop == 0x59 {
        source ^ dest
    } else if rop == 0x6D {
        source | dest
    } else if rop == 0x90 {
        !source & !dest
    } else if rop == 0x95 {
        !(source ^ dest)
    } else if rop == 0xAD {
        source | !dest
    } else if rop == 0xD0 {
        !source
    } else if rop == 0xD6 {
        !source | dest
    } else if rop == 0xDA {
        !source | !dest
    } else {
        source
    }
}

/// The CL-GD542x BitBLT raster-operation encoding: a sparse set of byte
/// codes selecting one of the 16 two-operand Boolean functions of `source`
/// and `dest`.
pub fn apply_rop(rop: u8, source: u8, dest: u8) -> (out: u8)
    ensures
        out == rop_byte(rop, source, dest),
{
    match rop {
        0x00 => 0,
        0x05 => source & dest,
        0x06 => dest,
        0x09 => source & !dest,
        0x0B => !dest,
        0x0D => source,
        0x0E => 0xFF,
        0x50 => !source & dest,
        0x59 => source ^ dest,
        0x6D => source | dest,
        0x90 => !source & !dest,
        0x95 => !(source ^ dest),
        0xAD => source | !dest,
        0xD0 => !source,
        0xD6 => !source | dest,
        0xDA => !source | !dest,
        _ => source,
    }
}

/// A transfer as its registers program it.
#[derive(Clone, Copy)]
pub struct BlitSetup {
    /// Width in bytes, clipped to the size of VRAM.
    pub width: usize,
    pub height: usize,
    pub dst_pitch: usize,
    pub src_pitch: usize,
    pub dst_start: usize,
    pub src_start: usize,
    pub pixel_bytes: usize,
    /// Bytes per row of a host-fed source.
    pub system_pitch: usize,
    pub backwards: bool,
    pub color_expand: bool,
    pub pattern: bool,
    pub transparent: bool,
    pub invert: bool,
    pub solid_fill: bool,
    pub rop: u8,
}

/// The running position of a video-source colour expansion: the stream's
/// byte address and how many destination bytes its current byte has served.
#[derive(Clone, Copy)]
pub struct ExpandCursor {
    pub addr: i64,
    pub count: usize,
}

/// A transfer between two bytes.
#[verifier::ext_equal]
pub struct BlitState {
    pub vram: Seq<u8>,
    pub expand: ExpandCursor,
}

pub open spec fn mode_flag(gr: Seq<u8>, flag: u8) -> bool {
    gr[idx::GR_BLIT_MODE as int] & flag != 0
}

pub open spec fn ext_flag(gr: Seq<u8>, flag: u8) -> bool {
    gr[idx::GR_BLIT_MODE_EXT as int] & flag != 0
}

/// The programmed width in bytes, 11 bits plus one.
pub open spec fn blit_width(gr: Seq<u8>) -> int {
    gr[idx::GR_BLIT_WIDTH_LO + 1] % 8 * 256 + gr[idx::GR_BLIT_WIDTH_LO as int] + 1
}

/// The programmed height in rows, 10 bits plus one.
pub open spec fn blit_height(gr: Seq<u8>) -> int {
    gr[idx::GR_BLIT_HEIGHT_LO + 1] % 4 * 256 + gr[idx::GR_BLIT_HEIGHT_LO as int] + 1
}

/// A 13-bit pitch held in the register pair at `low`.
pub open spec fn blit_pitch(gr: Seq<u8>, low: u8) -> int {
    gr[low + 1] % 32 * 256 + gr[low as int]
}

/// A 21-bit address held in the three registers at `low`.
pub open spec fn blit_addr(gr: Seq<u8>, low: u8) -> int {
    gr[low + 2] % 32 * 65536 + gr[low + 1] * 256 + gr[low as int]
}

/// The register file with a 21-bit address stored at `low`; the unused top
/// bits of the third register are kept.
pub open spec fn with_blit_addr(gr: Seq<u8>, low: u8, addr: int) -> Seq<u8> {
    let a = addr % 0x20_0000;
    gr.update(low as int, (a % 256) as u8).update(low + 1, (a / 256 % 256) as u8).update(
        low + 2,
        (gr[low + 2] - gr[low + 2] % 32 + a / 65536) as u8,
    )
}

pub open spec fn pixel_bytes(gr: Seq<u8>) -> int {
    let field = gr[idx::GR_BLIT_MODE as int] & blit_mode::PIXEL_WIDTH_MASK;
    if field == 0x00 {
        1
    } else if field == 0x10 {
        2
    } else if field == 0x20 {
        3
    } else {
        4
    }
}

/// `value` rounded up to a multiple of `unit`.
pub open spec fn round_up(value: int, unit: int) -> int {
    (value + unit - 1) / unit * unit
}

/// Bytes per row a system-source transfer must supply: a plain source pads
/// each row to a 4-byte boundary; a colour-expanded one packs one bit per
/// pixel and pads to 8 or 32 bits.
pub open spec fn system_source_pitch(gr: Seq<u8>, width: int) -> int {
    if !mode_flag(gr, blit_mode::COLOR_EXPAND) {
        round_up(width, 4)
    } else {
        let pixels = (width + pixel_bytes(gr) - 1) / pixel_bytes(gr);
        if ext_flag(gr, blit_modeext::DWORD_GRANULARITY) {
            round_up(pixels, 32) / 8
        } else {
            round_up(pixels, 8) / 8
        }
    }
}

/// The width actually walked: no wider than VRAM, and never zero.
pub open spec fn clipped_width(gr: Seq<u8>, vram_len: int) -> int {
    let limit = if vram_len == 0 {
        1
    } else {
        vram_len
    };
    if blit_width(gr) < limit {
        blit_width(gr)
    } else {
        limit
    }
}

/// The transfer that the registers program against `vram_len` bytes.
pub open spec fn blit_setup(gr: Seq<u8>, vram_len: int) -> BlitSetup {
    let width = clipped_width(gr, vram_len);
    BlitSetup {
        width: width as usize,
        height: blit_height(gr) as usize,
        dst_pitch: blit_pitch(gr, idx::GR_BLIT_DST_PITCH_LO) as usize,
        src_pitch: blit_pitch(gr, idx::GR_BLIT_SRC_PITCH_LO) as usize,
        dst_start: blit_addr(gr, idx::GR_BLIT_DST_ADDR_LO) as usize,
        src_start: blit_addr(gr, idx::GR_BLIT_SRC_ADDR_LO) as usize,
        pixel_bytes: pixel_bytes(gr) as usize,
        system_pitch: system_source_pitch(gr, width) as usize,
        backwards: mode_flag(gr, blit_mode::BACKWARDS),
        color_expand: mode_flag(gr, blit_mode::COLOR_EXPAND),
        pattern: mode_flag(gr, blit_mode::PATTERN),
        transparent: mode_flag(gr, blit_mode::TRANSPARENT),
        invert: ext_flag(gr, blit_modeext::COLOR_EXPAND_INVERT),
        solid_fill: mode_flag(gr, blit_mode::PATTERN) && mode_flag(gr, blit_mode::COLOR_EXPAND)
            && !mode_flag(gr, blit_mode::TRANSPARENT) && ext_flag(gr, blit_modeext::SOLID_FILL),
        rop: gr[idx::GR_BLIT_ROP as int],
    }
}

impl BlitSetup {
    /// What the register fields can hold.
    pub open spec fn bounded(self) -> bool {
        &&& 1 <= self.width <= 2048
        &&& 1 <= self.height <= 1024
        &&& self.dst_pitch < 8192
        &&& self.src_pitch < 8192
        &&& self.dst_start < 0x20_0000
        &&& self.src_start < 0x20_0000
        &&& 1 <= self.pixel_bytes <= 4
        &&& self.system_pitch <= 2048
    }

    /// Start of row `y` of a rectangle. Descending rows stop at zero.
    pub open spec fn line(self, start: usize, pitch: usize, y: int) -> int {
        if !self.backwards {
            start + y * pitch
        } else if start < y * pitch {
            0
        } else {
            start - y * pitch
        }
    }

    /// The address of byte `x` of a row.
    pub open spec fn along(self, line: int, x: int) -> int {
        if self.backwards {
            line - x
        } else {
            line + x
        }
    }

    /// Whether the source is a bit stream read continuously from VRAM.
    pub open spec fn streams(self, system: Option<Seq<u8>>) -> bool {
        self.color_expand && !self.pattern && system is None
    }

    /// The stream position after its current byte is exhausted.
    pub open spec fn next_stream_byte(self, e: ExpandCursor) -> ExpandCursor {
        ExpandCursor {
            addr: if self.backwards {
                (e.addr - 1) as i64
            } else {
                (e.addr + 1) as i64
            },
            count: 0,
        }
    }

    /// The stream position after one destination byte.
    pub open spec fn expand_after_byte(self, e: ExpandCursor) -> ExpandCursor {
        if e.count + 1 == 8 * self.pixel_bytes {
            self.next_stream_byte(e)
        } else {
            ExpandCursor { addr: e.addr, count: (e.count + 1) as usize }
        }
    }

    /// The stream position after a row: a row that ends mid-byte rounds up
    /// to the next source byte.
    pub open spec fn expand_after_row(self, e: ExpandCursor) -> ExpandCursor {
        if e.count != 0 {
            self.next_stream_byte(e)
        } else {
            e
        }
    }
}

/// A byte of `data`, zero outside it.
pub open spec fn byte_or_zero(data: Seq<u8>, at: int) -> u8 {
    if 0 <= at < data.len() {
        data[at]
    } else {
        0
    }
}

/// Bit `place` of a byte, counting from the most significant.
pub open spec fn msb_bit(byte: u8, place: int) -> bool {
    (byte >> ((7 - place) as u8)) & 1 != 0
}

/// The expanded bit for byte `x` of row `y`: from the pattern tile's row,
/// from the host's row, or from the video stream.
pub open spec fn expand_bit(
    b: BlitSetup,
    system: Option<Seq<u8>>,
    s: BlitState,
    y: int,
    x: int,
) -> bool {
    let pixel = x / b.pixel_bytes as int;
    if b.pattern {
        msb_bit(byte_or_zero(s.vram, b.src_start + y % 8), pixel % 8)
    } else {
        match system {
            Some(data) => msb_bit(byte_or_zero(data, y * b.system_pitch + pixel / 8), pixel % 8),
            None => msb_bit(
                byte_or_zero(s.vram, s.expand.addr as int),
                s.expand.count as int / b.pixel_bytes as int,
            ),
        }
    }
}

/// One source byte of a transfer that is not colour-expanded: a pattern
/// tile read modulo its own size, a host-fed byte, or a plain VRAM read.
pub open spec fn linear_source(
    b: BlitSetup,
    system: Option<Seq<u8>>,
    vram: Seq<u8>,
    pattern: bool,
    y: int,
    x: int,
) -> u8 {
    if pattern {
        let row = 8 * b.pixel_bytes;
        byte_or_zero(vram, b.src_start - b.src_start % 4 + y % 8 * row + x % row)
    } else {
        match system {
            Some(data) => byte_or_zero(data, y * b.system_pitch + x),
            None => byte_or_zero(vram, b.along(b.line(b.src_start, b.src_pitch, y), x)),
        }
    }
}

/// The foreground colour register of a pixel component.
pub open spec fn fg_component(gr: Seq<u8>, component: int) -> u8 {
    if component == 0 {
        gr[idx::GR_FG0 as int]
    } else if component == 1 {
        gr[idx::GR_FG1 as int]
    } else if component == 2 {
        gr[idx::GR_FG2 as int]
    } else {
        gr[idx::GR_FG3 as int]
    }
}

/// The background colour register of a pixel component.
pub open spec fn bg_component(gr: Seq<u8>, component: int) -> u8 {
    if component == 0 {
        gr[idx::GR_BG0 as int]
    } else if component == 1 {
        gr[idx::GR_BG1 as int]
    } else if component == 2 {
        gr[idx::GR_BG2 as int]
    } else {
        gr[idx::GR_BG3 as int]
    }
}

/// The source operand for byte `x` of row `y`.
pub open spec fn source_byte(
    gr: Seq<u8>,
    b: BlitSetup,
    system: Option<Seq<u8>>,
    s: BlitState,
    y: int,
    x: int,
) -> u8 {
    let component = x % b.pixel_bytes as int;
    if b.solid_fill {
        fg_component(gr, component)
    } else if b.color_expand {
        if expand_bit(b, system, s, y, x) {
            fg_component(gr, component)
        } else {
            bg_component(gr, component)
        }
    } else {
        linear_source(b, system, s.vram, b.pattern, y, x)
    }
}

/// Whether component `c` of the pixel starting at byte `base` matches the
/// transparency colour on the bits its mask cares about.
pub open spec fn component_matches(
    gr: Seq<u8>,
    b: BlitSetup,
    system: Option<Seq<u8>>,
    vram: Seq<u8>,
    y: int,
    base: int,
    c: int,
) -> bool {
    let mask = gr[idx::GR_BLIT_TRANSPARENT_MASK + c];
    linear_source(b, system, vram, false, y, base + c) & !mask
        == gr[idx::GR_BLIT_TRANSPARENT_COMPARE + c] & !mask
}

/// Whether byte `x` of row `y` is skipped. An expanded bit is transparent
/// when clear (set, when inverted); a pattern never is; a plain pixel is
/// when all of its components match the compare colour.
pub open spec fn skips(
    gr: Seq<u8>,
    b: BlitSetup,
    system: Option<Seq<u8>>,
    s: BlitState,
    y: int,
    x: int,
) -> bool {
    if !b.transparent {
        false
    } else if b.color_expand {
        expand_bit(b, system, s, y, x) == b.invert
    } else if b.pattern {
        false
    } else {
        forall|c: int|
            0 <= c < b.pixel_bytes ==> #[trigger] component_matches(
                gr,
                b,
                system,
                s.vram,
                y,
                x - x % b.pixel_bytes as int,
                c,
            )
    }
}

/// The transfer after byte `x` of row `y`.
pub open spec fn after_byte(
    gr: Seq<u8>,
    b: BlitSetup,
    system: Option<Seq<u8>>,
    s: BlitState,
    y: int,
    x: int,
) -> BlitState {
    let dst = b.along(b.line(b.dst_start, b.dst_pitch, y), x);
    BlitState {
        vram: if 0 <= dst < s.vram.len() && !skips(gr, b, system, s, y, x) {
            s.vram.update(
                dst,
                rop_byte(b.rop, source_byte(gr, b, system, s, y, x), s.vram[dst]),
            )
        } else {
            s.vram
        },
        expand: if b.streams(system) {
            b.expand_after_byte(s.expand)
        } else {
            s.expand
        },
    }
}

/// The transfer after the first `n` bytes of row `y`.
pub open spec fn after_bytes(
    gr: Seq<u8>,
    b: BlitSetup,
    system: Option<Seq<u8>>,
    s: BlitState,
    y: int,
    n: nat,
) -> BlitState
    decreases n,
{
    if n == 0 {
        s
    } else {
        let m = (n - 1) as nat;
        after_byte(gr, b, system, after_bytes(gr, b, system, s, y, m), y, m as int)
    }
}

/// The transfer after the whole of row `y`.
pub open spec fn after_row(
    gr: Seq<u8>,
    b: BlitSetup,
    system: Option<Seq<u8>>,
    s: BlitState,
    y: int,
) -> BlitState {
    let t = after_bytes(gr, b, system, s, y, b.width as nat);
    BlitState {
        vram: t.vram,
        expand: if b.streams(system) {
            b.expand_after_row(t.expand)
        } else {
            t.expand
        },
    }
}

/// The transfer after the first `n` rows.
pub open spec fn after_rows(
    gr: Seq<u8>,
    b: BlitSetup,
    system: Option<Seq<u8>>,
    s: BlitState,
    n: nat,
) -> BlitState
    decreases n,
{
    if n == 0 {
        s
    } else {
        let m = (n - 1) as nat;
        after_row(gr, b, system, after_rows(gr, b, system, s, m), m as int)
    }
}

/// The state a transfer starts from.
pub open spec fn blit_start(b: BlitSetup, vram: Seq<u8>) -> BlitState {
    BlitState { vram, expand: ExpandCursor { addr: b.src_start as i64, count: 0 } }
}

/// Where a byte-for-byte walked counter stops: a whole rectangle further on.
pub open spec fn counter_end(b: BlitSetup, start: usize, pitch: usize) -> int {
    b.along(start as int, (b.height - 1) * pitch + b.width)
}

/// The register file and VRAM after a transfer. The address registers are
/// counters: the destination ends a whole rectangle further on, and so does
/// the source of a plain copy; a colour-expanded video stream stops where
/// its bits ran out, and a pattern or host-fed source does not move.
pub open spec fn blit_result(gr: Seq<u8>, vram: Seq<u8>, system: Option<Seq<u8>>) -> (
    Seq<u8>,
    Seq<u8>,
) {
    let b = blit_setup(gr, vram.len() as int);
    let s = after_rows(gr, b, system, blit_start(b, vram), b.height as nat);
    let src_end = if b.pattern || system is Some {
        b.src_start as int
    } else if b.color_expand {
        s.expand.addr as int
    } else {
        counter_end(b, b.src_start, b.src_pitch)
    };
    (
        with_blit_addr(
            with_blit_addr(
                gr,
                idx::GR_BLIT_DST_ADDR_LO,
                counter_end(b, b.dst_start, b.dst_pitch),
            ),
            idx::GR_BLIT_SRC_ADDR_LO,
            src_end,
        ),
        s.vram,
    )
}

/// The contents of an optional host-fed buffer.
pub open spec fn fed(system: Option<&[u8]>) -> Option<Seq<u8>> {
    match system {
        Some(data) => Some(data@),
        None => None,
    }
}

/// A byte of `data`, zero outside it.
fn read_or_zero(data: &[u8], at: usize) -> (byte: u8)
    ensures
        byte == byte_or_zero(data@, at as int),
{
    if at < data.len() {
        data[at]
    } else {
        0
    }
}

fn test_msb_bit(byte: u8, place: usize) -> (set: bool)
    requires
        place < 8,
    ensures
        set == msb_bit(byte, place as int),
{
    (byte >> ((7 - place) as u8)) & 1 != 0
}

fn read_pitch(gr: &[u8; 64], low: u8) -> (pitch: usize)
    requires
        low < 63,
    ensures
        pitch == blit_pitch(gr@, low),
        pitch < 8192,
{
    (gr[low as usize + 1] % 32) as usize * 256 + gr[low as usize] as usize
}

fn read_addr(gr: &[u8; 64], low: u8) -> (addr: usize)
    requires
        low < 62,
    ensures
        addr == blit_addr(gr@, low),
        addr < 0x20_0000,
{
    (gr[low as usize + 2] % 32) as usize * 65536 + gr[low as usize + 1] as usize * 256
        + gr[low as usize] as usize
}

/// Store a counter back into the three registers at `low`.
fn set_blit_addr(gr: &mut [u8; 64], low: u8, addr: usize)
    requires
        low < 62,
        addr < 0x20_0000,
    ensures
        final(gr)@ == with_blit_addr(old(gr)@, low, addr as int),
{
    let i: usize = low as usize;
    let top: u8 = gr[i + 2];
    gr[i] = (addr % 256) as u8;
    gr[i + 1] = (addr / 256 % 256) as u8;
    gr[i + 2] = top - top % 32 + (addr / 65536) as u8;
}

fn read_width(gr: &[u8; 64]) -> (width: usize)
    ensures
        width == blit_width(gr@),
        1 <= width <= 2048,
{
    let lo: usize = idx::GR_BLIT_WIDTH_LO as usize;
    (gr[lo + 1] % 8) as usize * 256 + gr[lo] as usize + 1
}

fn read_height(gr: &[u8; 64]) -> (height: usize)
    ensures
        height == blit_height(gr@),
        1 <= height <= 1024,
{
    let lo: usize = idx::GR_BLIT_HEIGHT_LO as usize;
    (gr[lo + 1] % 4) as usize * 256 + gr[lo] as usize + 1
}

fn read_pixel_bytes(gr: &[u8; 64]) -> (bytes: usize)
    ensures
        bytes == pixel_bytes(gr@),
        1 <= bytes <= 4,
{
    match gr[idx::GR_BLIT_MODE as usize] & blit_mode::PIXEL_WIDTH_MASK {
        0x00 => 1,
        0x10 => 2,
        0x20 => 3,
        _ => 4,
    }
}

/// Bytes per row a system-source transfer of this width must supply.
fn read_system_pitch(gr: &[u8; 64], width: usize) -> (pitch: usize)
    requires
        1 <= width <= 2048,
    ensures
        pitch == system_source_pitch(gr@, width as int),
        1 <= pitch <= 2048,
{
    let mode: u8 = gr[idx::GR_BLIT_MODE as usize];
    if mode & blit_mode::COLOR_EXPAND == 0 {
        (width + 3) / 4 * 4
    } else {
        let bytes: usize = read_pixel_bytes(gr);
        let pixels: usize = (width + bytes - 1) / bytes;
        assert(1 <= pixels <= 2048) by (nonlinear_arith)
            requires
                pixels == (width + bytes - 1) / bytes as int,
                1 <= width <= 2048,
                1 <= bytes <= 4,
        ;
        if gr[idx::GR_BLIT_MODE_EXT as usize] & blit_modeext::DWORD_GRANULARITY != 0 {
            (pixels + 31) / 32 * 32 / 8
        } else {
            (pixels + 7) / 8 * 8 / 8
        }
    }
}

/// How many bytes the host must supply for the programmed transfer.
pub open spec fn system_bytes(gr: Seq<u8>) -> int {
    system_source_pitch(gr, blit_width(gr)) * blit_height(gr)
}

/// How many bytes the host must supply for the programmed transfer.
pub(crate) fn expected_system_bytes(gr: &[u8; 64]) -> (expected: usize)
    ensures
        expected == system_bytes(gr@),
        expected >= 1,
{
    let width: usize = read_width(gr);
    let height: usize = read_height(gr);
    let pitch: usize = read_system_pitch(gr, width);
    assert(1 <= pitch * height <= 2048 * 1024) by (nonlinear_arith)
        requires
            1 <= pitch <= 2048,
            1 <= height <= 1024,
    ;
    pitch * height
}

/// Decode the transfer that the registers program.
fn read_setup(gr: &[u8; 64], vram_len: usize) -> (b: BlitSetup)
    ensures
        b == blit_setup(gr@, vram_len as int),
        b.bounded(),
{
    let limit: usize = if vram_len == 0 {
        1
    } else {
        vram_len
    };
    let programmed: usize = read_width(gr);
    let width: usize = if programmed < limit {
        programmed
    } else {
        limit
    };
    let mode: u8 = gr[idx::GR_BLIT_MODE as usize];
    let modeext: u8 = gr[idx::GR_BLIT_MODE_EXT as usize];
    BlitSetup {
        width,
        height: read_height(gr),
        dst_pitch: read_pitch(gr, idx::GR_BLIT_DST_PITCH_LO),
        src_pitch: read_pitch(gr, idx::GR_BLIT_SRC_PITCH_LO),
        dst_start: read_addr(gr, idx::GR_BLIT_DST_ADDR_LO),
        src_start: read_addr(gr, idx::GR_BLIT_SRC_ADDR_LO),
        pixel_bytes: read_pixel_bytes(gr),
        system_pitch: read_system_pitch(gr, width),
        backwards: mode & blit_mode::BACKWARDS != 0,
        color_expand: mode & blit_mode::COLOR_EXPAND != 0,
        pattern: mode & blit_mode::PATTERN != 0,
        transparent: mode & blit_mode::TRANSPARENT != 0,
        invert: modeext & blit_modeext::COLOR_EXPAND_INVERT != 0,
        solid_fill: mode & blit_mode::PATTERN != 0 && mode & blit_mode::COLOR_EXPAND != 0 && mode
            & blit_mode::TRANSPARENT == 0 && modeext & blit_modeext::SOLID_FILL != 0,
        rop: gr[idx::GR_BLIT_ROP as usize],
    }
}

fn blit_fg_component(gr: &[u8; 64], component: usize) -> (byte: u8)
    ensures
        byte == fg_component(gr@, component as int),
{
    match component {
        0 => gr[idx::GR_FG0 as usize],
        1 => gr[idx::GR_FG1 as usize],
        2 => gr[idx::GR_FG2 as usize],
        _ => gr[idx::GR_FG3 as usize],
    }
}

fn blit_bg_component(gr: &[u8; 64], component: usize) -> (byte: u8)
    ensures
        byte == bg_component(gr@, component as int),
{
    match component {
        0 => gr[idx::GR_BG0 as usize],
        1 => gr[idx::GR_BG1 as usize],
        2 => gr[idx::GR_BG2 as usize],
        _ => gr[idx::GR_BG3 as usize],
    }
}

/// A product of a row number and a pitch stays far from any limit.
proof fn lemma_row_offset(y: int, pitch: int)
    requires
        0 <= y < 1024,
        0 <= pitch < 8192,
    ensures
        0 <= y * pitch < 0x80_0000 - 2048,
{
    assert(0 <= y * pitch <= 1023 * 8191) by (nonlinear_arith)
        requires
            0 <= y < 1024,
            0 <= pitch < 8192,
    ;
}

/// The remainder by a pixel's size splits a byte position into the pixel it
/// belongs to and its component.
proof fn lemma_component(x: int, bytes: int)
    requires
        0 <= x,
        1 <= bytes <= 4,
    ensures
        0 <= x % bytes < bytes,
        0 <= x - x % bytes <= x,
        0 <= x / bytes <= x,
{
    assert(0 <= x % bytes < bytes && 0 <= x - x % bytes <= x && 0 <= x / bytes <= x)
        by (nonlinear_arith)
        requires
            0 <= x,
            1 <= bytes,
    ;
}

impl BlitSetup {
    /// Start of row `y` of a rectangle.
    fn line_start(&self, start: usize, pitch: usize, y: usize) -> (line: usize)
        requires
            start < 0x20_0000,
            pitch < 8192,
            y < 1024,
        ensures
            line == self.line(start, pitch, y as int),
            line < 0x100_0000,
    {
        proof {
            lemma_row_offset(y as int, pitch as int);
        }
        let down: usize = y * pitch;
        if !self.backwards {
            start + down
        } else if start < down {
            0
        } else {
            start - down
        }
    }

    /// The address of byte `x` of a row, if it is not negative.
    fn step_along(&self, line: usize, x: usize) -> (at: Option<usize>)
        requires
            line < 0x100_0000,
            x < 4096,
        ensures
            at is Some == (self.along(line as int, x as int) >= 0),
            at matches Some(a) ==> a == self.along(line as int, x as int),
    {
        if !self.backwards {
            Some(line + x)
        } else if line < x {
            None
        } else {
            Some(line - x)
        }
    }

    /// One source byte of a transfer that is not colour-expanded.
    fn linear_blit_source(
        &self,
        vram: &[u8],
        system: Option<&[u8]>,
        pattern: bool,
        y: usize,
        x: usize,
    ) -> (byte: u8)
        requires
            self.bounded(),
            y < 1024,
            x < 4096,
        ensures
            byte == linear_source(*self, fed(system), vram@, pattern, y as int, x as int),
    {
        if pattern {
            let row: usize = 8 * self.pixel_bytes;
            let base: usize = self.src_start - self.src_start % 4;
            assert(0 <= (y % 8) * row <= 7 * 32) by (nonlinear_arith)
                requires
                    row <= 32,
            ;
            proof {
                vstd::arithmetic::div_mod::lemma_mod_bound(x as int, row as int);
            }
            return read_or_zero(vram, base + y % 8 * row + x % row);
        }
        match system {
            Some(data) => {
                proof {
                    lemma_row_offset(y as int, self.system_pitch as int);
                }
                read_or_zero(data, y * self.system_pitch + x)
            },
            None => {
                let line: usize = self.line_start(self.src_start, self.src_pitch, y);
                match self.step_along(line, x) {
                    Some(at) => read_or_zero(vram, at),
                    None => 0,
                }
            },
        }
    }

    /// The expanded bit for byte `x` of row `y`.
    fn expand_source(
        &self,
        vram: &[u8],
        system: Option<&[u8]>,
        expand: &ExpandCursor,
        y: usize,
        x: usize,
    ) -> (set: bool)
        requires
            self.bounded(),
            y < 1024,
            x < 2048,
            expand.count < 8 * self.pixel_bytes,
            -0x100_0000 <= expand.addr <= 0x100_0000,
        ensures
            set == expand_bit(
                *self,
                fed(system),
                BlitState { vram: vram@, expand: *expand },
                y as int,
                x as int,
            ),
    {
        proof {
            lemma_component(x as int, self.pixel_bytes as int);
        }
        let pixel: usize = x / self.pixel_bytes;
        if self.pattern {
            return test_msb_bit(read_or_zero(vram, self.src_start + y % 8), pixel % 8);
        }
        match system {
            Some(data) => {
                proof {
                    lemma_row_offset(y as int, self.system_pitch as int);
                }
                test_msb_bit(read_or_zero(data, y * self.system_pitch + pixel / 8), pixel % 8)
            },
            None => {
                let place: usize = expand.count / self.pixel_bytes;
                assert(expand.count / self.pixel_bytes < 8) by (nonlinear_arith)
                    requires
                        expand.count < 8 * self.pixel_bytes,
                        self.pixel_bytes >= 1,
                ;
                let byte: u8 = if expand.addr < 0 {
                    0
                } else {
                    read_or_zero(vram, expand.addr as usize)
                };
                test_msb_bit(byte, place)
            },
        }
    }
}

impl BlitSetup {
    /// Whether byte `x` of row `y`, of a transfer that is neither expanded
    /// nor a pattern, belongs to a pixel of the transparency colour.
    fn pixel_is_transparent(
        &self,
        gr: &[u8; 64],
        vram: &[u8],
        system: Option<&[u8]>,
        y: usize,
        x: usize,
    ) -> (all: bool)
        requires
            self.bounded(),
            y < 1024,
            x < 2048,
        ensures
            all == (forall|c: int|
                0 <= c < self.pixel_bytes ==> #[trigger] component_matches(
                    gr@,
                    *self,
                    fed(system),
                    vram@,
                    y as int,
                    x - x as int % self.pixel_bytes as int,
                    c,
                )),
    {
        proof {
            lemma_component(x as int, self.pixel_bytes as int);
        }
        let base: usize = x - x % self.pixel_bytes;
        let mut c: usize = 0;
        while c < self.pixel_bytes
            invariant
                c <= self.pixel_bytes,
                self.bounded(),
                y < 1024,
                base == x - x as int % self.pixel_bytes as int,
                base <= x,
                x < 2048,
                forall|i: int|
                    0 <= i < c ==> #[trigger] component_matches(
                        gr@,
                        *self,
                        fed(system),
                        vram@,
                        y as int,
                        base as int,
                        i,
                    ),
            decreases self.pixel_bytes - c,
        {
            let source: u8 = self.linear_blit_source(vram, system, false, y, base + c);
            let mask: u8 = gr[idx::GR_BLIT_TRANSPARENT_MASK as usize + c];
            if (source & !mask) != (gr[idx::GR_BLIT_TRANSPARENT_COMPARE as usize + c] & !mask) {
                assert(!component_matches(
                    gr@,
                    *self,
                    fed(system),
                    vram@,
                    y as int,
                    base as int,
                    c as int,
                ));
                return false;
            }
            c += 1;
        }
        true
    }

    /// Process byte `x` of row `y`.
    fn blit_byte(
        &self,
        gr: &[u8; 64],
        vram: &mut [u8],
        system: Option<&[u8]>,
        expand: &mut ExpandCursor,
        y: usize,
        x: usize,
    )
        requires
            self.bounded(),
            y < 1024,
            x < 2048,
            old(expand).count < 8 * self.pixel_bytes,
            -0xFF_FFFF <= old(expand).addr <= 0xFF_FFFF,
        ensures
            final(vram)@.len() == old(vram)@.len(),
            final(expand).count < 8 * self.pixel_bytes,
            old(expand).addr - 1 <= final(expand).addr <= old(expand).addr + 1,
            (BlitState { vram: final(vram)@, expand: *final(expand) }) == after_byte(
                gr@,
                *self,
                fed(system),
                BlitState { vram: old(vram)@, expand: *old(expand) },
                y as int,
                x as int,
            ),
    {
        let ghost s = BlitState { vram: vram@, expand: *expand };
        let bit: bool = self.color_expand && self.expand_source(vram, system, expand, y, x);
        if self.color_expand && !self.pattern && system.is_none() {
            if expand.count + 1 == 8 * self.pixel_bytes {
                expand.count = 0;
                expand.addr = if self.backwards {
                    expand.addr - 1
                } else {
                    expand.addr + 1
                };
            } else {
                expand.count = expand.count + 1;
            }
        }
        let line: usize = self.line_start(self.dst_start, self.dst_pitch, y);
        match self.step_along(line, x) {
            None => {},
            Some(dst) => {
                if dst < vram.len() {
                    proof {
                        lemma_component(x as int, self.pixel_bytes as int);
                    }
                    let component: usize = x % self.pixel_bytes;
                    let source: u8 = if self.solid_fill {
                        blit_fg_component(gr, component)
                    } else if self.color_expand {
                        if bit {
                            blit_fg_component(gr, component)
                        } else {
                            blit_bg_component(gr, component)
                        }
                    } else {
                        self.linear_blit_source(vram, system, self.pattern, y, x)
                    };
                    let skip: bool = if !self.transparent {
                        false
                    } else if self.color_expand {
                        bit == self.invert
                    } else if self.pattern {
                        false
                    } else {
                        self.pixel_is_transparent(gr, vram, system, y, x)
                    };
                    assert(source == source_byte(gr@, *self, fed(system), s, y as int, x as int));
                    assert(skip == skips(gr@, *self, fed(system), s, y as int, x as int));
                    if !skip {
                        vram[dst] = apply_rop(self.rop, source, vram[dst]);
                    }
                }
            },
        }
    }
}

/// The counter `span` bytes on from `start`, in the 21 bits it has.
fn advance(backwards: bool, start: usize, span: usize) -> (end: usize)
    requires
        start < 0x20_0000,
        span < 0x80_0000,
    ensures
        end < 0x20_0000,
        backwards ==> end == (start - span) % 0x20_0000,
        !backwards ==> end == (start + span) % 0x20_0000,
{
    if backwards {
        (start + 0x80_0000 - span) % 0x20_0000
    } else {
        (start + span) % 0x20_0000
    }
}

proof fn lemma_addr_registers(gr: Seq<u8>, low: u8, a: int, b: int)
    requires
        a % 0x20_0000 == b % 0x20_0000,
    ensures
        with_blit_addr(gr, low, a) == with_blit_addr(gr, low, b),
{
}

/// Run one BitBLT transfer against VRAM. `system` is the host-fed data of a
/// completed system-source transfer; every other mode reads its source out
/// of `vram`.
#[verifier::rlimit(60)]
#[verifier::spinoff_prover]
pub(crate) fn execute_blit(gr: &mut [u8; 64], vram: &mut [u8], system: Option<&[u8]>)
    ensures
        (final(gr)@, final(vram)@) == blit_result(old(gr)@, old(vram)@, fed(system)),
        final(vram)@.len() == old(vram)@.len(),
{
    let b: BlitSetup = read_setup(gr, vram.len());
    let ghost start = blit_start(b, vram@);
    let streams: bool = b.color_expand && !b.pattern && system.is_none();
    let mut expand = ExpandCursor { addr: b.src_start as i64, count: 0 };
    let mut y: usize = 0;
    while y < b.height
        invariant
            y <= b.height,
            b.bounded(),
            gr@ == old(gr)@,
            vram@.len() == old(vram)@.len(),
            streams == b.streams(fed(system)),
            expand.count < 8 * b.pixel_bytes,
            b.src_start - y * 2049 <= expand.addr <= b.src_start + y * 2049,
            (BlitState { vram: vram@, expand }) == after_rows(
                gr@,
                b,
                fed(system),
                start,
                y as nat,
            ),
        decreases b.height - y,
    {
        let ghost before = BlitState { vram: vram@, expand };
        let mut x: usize = 0;
        while x < b.width
            invariant
                x <= b.width,
                y < b.height,
                b.bounded(),
                gr@ == old(gr)@,
                vram@.len() == old(vram)@.len(),
                expand.count < 8 * b.pixel_bytes,
                b.src_start - y * 2049 - x <= expand.addr <= b.src_start + y * 2049 + x,
                (BlitState { vram: vram@, expand }) == after_bytes(
                    gr@,
                    b,
                    fed(system),
                    before,
                    y as int,
                    x as nat,
                ),
            decreases b.width - x,
        {
            b.blit_byte(gr, vram, system, &mut expand, y, x);
            x += 1;
        }
        if streams && expand.count != 0 {
            expand.count = 0;
            expand.addr = if b.backwards {
                expand.addr - 1
            } else {
                expand.addr + 1
            };
        }
        y += 1;
        assert(after_rows(gr@, b, fed(system), start, y as nat) == after_row(
            gr@,
            b,
            fed(system),
            before,
            y - 1,
        ));
    }

    proof {
        lemma_row_offset(b.height - 1, b.dst_pitch as int);
        lemma_row_offset(b.height - 1, b.src_pitch as int);
    }
    let dst_end: usize = advance(b.backwards, b.dst_start, (b.height - 1) * b.dst_pitch + b.width);
    let src_end: usize = if b.pattern || system.is_some() {
        b.src_start
    } else if b.color_expand {
        ((expand.addr + 0x100_0000) % 0x20_0000) as usize
    } else {
        advance(b.backwards, b.src_start, (b.height - 1) * b.src_pitch + b.width)
    };
    let ghost s = after_rows(gr@, b, fed(system), start, b.height as nat);
    let ghost exact = if b.pattern || system is Some {
        b.src_start as int
    } else if b.color_expand {
        s.expand.addr as int
    } else {
        counter_end(b, b.src_start, b.src_pitch)
    };
    proof {
        let dst_exact = counter_end(b, b.dst_start, b.dst_pitch);
        assert(exact % 0x20_0000 == src_end as int % 0x20_0000);
        lemma_addr_registers(gr@, idx::GR_BLIT_DST_ADDR_LO, dst_end as int, dst_exact);
        lemma_addr_registers(
            with_blit_addr(gr@, idx::GR_BLIT_DST_ADDR_LO, dst_exact),
            idx::GR_BLIT_SRC_ADDR_LO,
            src_end as int,
            exact,
        );
    }
    set_blit_addr(gr, idx::GR_BLIT_DST_ADDR_LO, dst_end);
    set_blit_addr(gr, idx::GR_BLIT_SRC_ADDR_LO, src_end);
}

} // verus!
