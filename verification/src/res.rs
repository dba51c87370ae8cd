//! Walking the records of a resource file, and taking the bitmaps out of
//! it in the parts that a bitmap file is made of.
//!
//! A record is two 32-bit sizes (of the data and of the header, the two
//! sizes included), the rest of the header (a type and a name, each either
//! the marker `0xFFFF` and a number, or a string of 16-bit units up to a
//! zero), and the data. Header and data are each filled up to a multiple
//! of four bytes.

use vstd::prelude::*;
use crate::bmp::{
    dib_at, le_byte, le_u16, le_u32, low_32, parse_dib, read_u16_le, read_u32_le, BmpInfo,
};

verus! {

/// The type number of bitmap records.
pub const RT_BITMAP: u16 = 2;

/// Marker that a number follows in place of a string.
pub const ORDINAL_MARK: u16 = 0xFFFF;

/// Where a record lies, and what its header says.
#[derive(Copy, Clone, Debug, PartialEq, Eq)]
pub struct ResRecord {
    /// The type number; 0 where the type is given by a string.
    pub type_id: u16,
    /// The name number, where the name is given by a number.
    pub name_id: Option<u16>,
    /// Where the data begin.
    pub data_off: usize,
    /// Bytes of data.
    pub data_size: usize,
    /// Where the next record begins; the end of the file at most.
    pub next_off: usize,
}

/// What lies at a place in a resource file.
#[derive(Copy, Clone, Debug, PartialEq, Eq)]
pub enum ResStep {
    /// No record lies here or later.
    End,
    /// No record lies here; the search goes on with the next byte.
    Skip,
    /// A record.
    Record(ResRecord),
}

/// A type or a name in the header of a record.
pub enum Label {
    /// A number after the marker.
    Number(u16),
    /// A string.
    Text,
    /// The marker without room for a number.
    Broken,
}

/// `n` raised to the next multiple of four.
pub open spec fn round_up_4(n: int) -> int {
    (n + 3) / 4 * 4
}

/// Where a string ends that begins at `p` and lies before `limit`: behind
/// its closing zero, or where no 16-bit unit is left.
pub open spec fn after_text(data: Seq<u8>, p: int, limit: int) -> int
    decreases limit - p,
{
    if p < 0 || p + 2 > limit {
        p
    } else if le_u16(data, p) == 0 {
        p + 2
    } else {
        after_text(data, p + 2, limit)
    }
}

/// The type or name that begins at `p` and lies before `limit`.
pub open spec fn label_at(data: Seq<u8>, p: int, limit: int) -> Label {
    if p + 2 <= limit && le_u16(data, p) == 0xFFFF {
        if p + 4 <= limit {
            Label::Number(le_u16(data, p + 2) as u16)
        } else {
            Label::Broken
        }
    } else {
        Label::Text
    }
}

/// Where the type or name ends that begins at `p`.
pub open spec fn after_label(data: Seq<u8>, p: int, limit: int) -> int {
    match label_at(data, p, limit) {
        Label::Number(_) => p + 4,
        Label::Text => after_text(data, p, limit),
        Label::Broken => p,
    }
}

/// What lies at `off` in the resource file `data`.
///
/// The file ends where no two sizes are left, where both sizes are zero,
/// and where the header or the data would reach past the end. A record
/// whose type or name is a marker without its number is skipped.
pub open spec fn step_at(data: Seq<u8>, off: int) -> ResStep {
    if off + 8 > data.len() {
        ResStep::End
    } else {
        let data_size = le_u32(data, off);
        let header_size = le_u32(data, off + 4);
        let base = off + 8;
        let limit = base + header_size;
        let name_at = after_label(data, base, limit);
        let data_off = off + round_up_4(8 + header_size);
        let next = data_off + round_up_4(data_size);
        if (data_size == 0 && header_size == 0) || limit > data.len() {
            ResStep::End
        } else if label_at(data, base, limit) is Broken || label_at(data, name_at, limit)
            is Broken {
            ResStep::Skip
        } else if data_off + data_size > data.len() {
            ResStep::End
        } else {
            ResStep::Record(
                ResRecord {
                    type_id: match label_at(data, base, limit) {
                        Label::Number(id) => id,
                        _ => 0,
                    },
                    name_id: match label_at(data, name_at, limit) {
                        Label::Number(id) => Some(id),
                        _ => None,
                    },
                    data_off: data_off as usize,
                    data_size: data_size as usize,
                    next_off: if next > data.len() {
                        data.len() as usize
                    } else {
                        next as usize
                    },
                },
            )
        }
    }
}

/// Reads the 16-bit unit at `p`.
fn unit_at(data: &[u8], p: usize) -> (w: u16)
    requires
        p + 2 <= data@.len(),
    ensures
        w == le_u16(data@, p as int),
{
    read_u16_le(data, p).unwrap()
}

/// Reads the type or name at `p` and returns it with the place behind it.
fn read_label(data: &[u8], p: usize, limit: usize) -> (r: (Label, usize))
    requires
        p <= limit <= data@.len(),
    ensures
        r.0 == label_at(data@, p as int, limit as int),
        r.1 == after_label(data@, p as int, limit as int),
        p <= r.1 <= limit,
{
    if limit - p >= 2 && unit_at(data, p) == 0xFFFF {
        if limit - p >= 4 {
            return (Label::Number(unit_at(data, p + 2)), p + 4);
        }
        return (Label::Broken, p);
    }
    let mut q: usize = p;
    while limit - q >= 2
        invariant
            p <= q <= limit <= data@.len(),
            label_at(data@, p as int, limit as int) is Text,
            after_text(data@, q as int, limit as int) == after_text(
                data@,
                p as int,
                limit as int,
            ),
        decreases limit - q,
    {
        let w = unit_at(data, q);
        q += 2;
        if w == 0 {
            return (Label::Text, q);
        }
    }
    (Label::Text, q)
}

/// Raises `n` to the next multiple of four.
fn round_up(n: u128) -> (r: u128)
    requires
        n <= 0x2_0000_0000,
    ensures
        r == round_up_4(n as int),
        n <= r <= n + 3,
{
    (n + 3) / 4 * 4
}

/// Reads what lies at `off` in a resource file: a record, a place to skip,
/// or the end.
pub fn read_record(data: &[u8], off: usize) -> (step: ResStep)
    ensures
        step == step_at(data@, off as int),
        step matches ResStep::Record(rec) ==> {
            &&& off + 8 <= rec.data_off
            &&& rec.data_off + rec.data_size <= data@.len()
            &&& rec.data_off + rec.data_size <= rec.next_off <= data@.len()
        },
{
    let len = data.len();
    if off > len || len - off < 8 {
        return ResStep::End;
    }
    let data_size: u32 = read_u32_le(data, off).unwrap();
    let header_size: u32 = read_u32_le(data, off + 4).unwrap();
    if data_size == 0 && header_size == 0 {
        return ResStep::End;
    }
    let room: u128 = (len - off) as u128;
    if 8 + (header_size as u128) > room {
        return ResStep::End;
    }
    let base: usize = off + 8;
    let limit: usize = base + (header_size as usize);
    let (type_label, name_at) = read_label(data, base, limit);
    let type_id: u16 = match type_label {
        Label::Number(id) => id,
        Label::Text => 0,
        Label::Broken => {
            return ResStep::Skip;
        },
    };
    let (name_label, _) = read_label(data, name_at, limit);
    let name_id: Option<u16> = match name_label {
        Label::Number(id) => Some(id),
        Label::Text => None,
        Label::Broken => {
            return ResStep::Skip;
        },
    };
    let header_rounded: u128 = round_up(8 + (header_size as u128));
    if header_rounded + (data_size as u128) > room {
        return ResStep::End;
    }
    let data_off: usize = off + (header_rounded as usize);
    let data_rounded: u128 = round_up(data_size as u128);
    let next_off: usize = if header_rounded + data_rounded > room {
        len
    } else {
        data_off + (data_rounded as usize)
    };
    ResStep::Record(
        ResRecord { type_id, name_id, data_off, data_size: data_size as usize, next_off },
    )
}

/// The parts of a bitmap as a bitmap file holds them behind its file
/// header.
#[derive(Clone, Debug)]
pub struct BitmapParts {
    pub info: BmpInfo,
    /// The 40-byte info header.
    pub header: Vec<u8>,
    /// The colour masks, if the header asks for them.
    pub masks: Vec<u8>,
    /// The palette, four bytes a colour.
    pub palette: Vec<u8>,
    /// The pixel data.
    pub pixels: Vec<u8>,
}

/// The 40-byte info header that says what a core header said: the size 40,
/// width and height, one plane, the bits per pixel, no compression and the
/// size of the pixel data, each low byte first; the rest of it zero.
pub open spec fn info_header_for(info: BmpInfo) -> Seq<u8> {
    Seq::new(
        40,
        |k: int|
            if k == 0 {
                40u8
            } else if 4 <= k < 8 {
                le_byte(info.width as int, k - 4)
            } else if 8 <= k < 12 {
                le_byte(info.height as int, k - 8)
            } else if k == 12 {
                1u8
            } else if 14 <= k < 16 {
                le_byte(info.bpp as int, k - 14)
            } else if 20 <= k < 24 {
                le_byte(low_32(info.data_size as int), k - 20)
            } else {
                0u8
            },
    )
}

/// A palette of three bytes a colour widened to four bytes a colour, the
/// fourth being zero.
pub open spec fn widened_palette(core: Seq<u8>) -> Seq<u8> {
    Seq::new(
        (core.len() / 3 * 4) as nat,
        |k: int|
            if k % 4 == 3 {
                0u8
            } else {
                core[k / 4 * 3 + k % 4]
            },
    )
}

/// Whether `parts` are the parts of the bitmap that `info` describes at
/// `off`. A bitmap with an info header is cut up as it lies; one with a
/// core header gets an info header and a palette of four bytes a colour.
pub open spec fn parts_of(data: Seq<u8>, off: int, info: BmpInfo, parts: BitmapParts) -> bool {
    let masks_at = off + info.header_size;
    let palette_at = masks_at + info.masks_size;
    let pixels_at = palette_at + info.palette_size;
    &&& parts.info == info
    &&& parts.pixels@ == data.subrange(pixels_at, pixels_at + info.data_size)
    &&& if info.header_size == 40 {
        &&& parts.header@ == data.subrange(off, off + 40)
        &&& parts.masks@ == data.subrange(masks_at, palette_at)
        &&& parts.palette@ == data.subrange(palette_at, pixels_at)
    } else {
        &&& parts.header@ == info_header_for(info)
        &&& parts.masks@.len() == 0
        &&& parts.palette@ == widened_palette(data.subrange(palette_at, pixels_at))
    }
}

/// Copies the bytes from `from` up to `to`.
fn copy_range(data: &[u8], from: usize, to: usize) -> (out: Vec<u8>)
    requires
        from <= to <= data@.len(),
    ensures
        out@ == data@.subrange(from as int, to as int),
{
    let mut out: Vec<u8> = Vec::new();
    let mut i: usize = from;
    while i < to
        invariant
            from <= i <= to <= data@.len(),
            out@ == data@.subrange(from as int, i as int),
        decreases to - i,
    {
        out.push(data[i]);
        assert(out@ =~= data@.subrange(from as int, i as int + 1));
        i += 1;
    }
    out
}

/// Writes the four bytes of `v`, low byte first, at `at`.
fn put_le(out: &mut Vec<u8>, at: usize, v: u32)
    requires
        at + 4 <= old(out)@.len(),
    ensures
        final(out)@.len() == old(out)@.len(),
        forall|k: int|
            0 <= k < old(out)@.len() ==> final(out)@[k] == if at <= k < at + 4 {
                le_byte(v as int, k - at)
            } else {
                old(out)@[k]
            },
{
    let n = out.len();
    let second: usize = at + 1;
    let third: usize = at + 2;
    let fourth: usize = at + 3;
    out[at] = (v % 256) as u8;
    out[second] = (v / 256 % 256) as u8;
    out[third] = (v / 65536 % 256) as u8;
    out[fourth] = (v / 16777216 % 256) as u8;
}

/// Builds the info header for a bitmap that came with a core header.
fn build_info_header(info: &BmpInfo) -> (hdr: Vec<u8>)
    requires
        0 <= info.width,
        0 <= info.height,
    ensures
        hdr@ == info_header_for(*info),
{
    let mut hdr: Vec<u8> = Vec::new();
    let mut i: usize = 0;
    while i < 40
        invariant
            i <= 40,
            hdr@.len() == i,
            forall|k: int| 0 <= k < i ==> hdr@[k] == 0,
        decreases 40 - i,
    {
        hdr.push(0);
        i += 1;
    }
    put_le(&mut hdr, 0, 40);
    put_le(&mut hdr, 4, info.width as u32);
    put_le(&mut hdr, 8, info.height as u32);
    put_le(&mut hdr, 12, 1);
    put_le(&mut hdr, 14, info.bpp as u32);
    let size: u32 = ((info.data_size as u64) % 0x1_0000_0000) as u32;
    put_le(&mut hdr, 20, size);
    assert(hdr@ =~= info_header_for(*info));
    hdr
}

/// Widens a palette of three bytes a colour to four bytes a colour.
fn widen_palette(data: &[u8], from: usize, to: usize) -> (out: Vec<u8>)
    requires
        from <= to <= data@.len(),
    ensures
        out@ == widened_palette(data@.subrange(from as int, to as int)),
{
    let ghost core = data@.subrange(from as int, to as int);
    let colors: usize = (to - from) / 3;
    let mut out: Vec<u8> = Vec::new();
    let mut c: usize = 0;
    while c < colors
        invariant
            from <= to <= data@.len(),
            colors == (to - from) / 3,
            c <= colors,
            core == data@.subrange(from as int, to as int),
            out@.len() == 4 * c,
            forall|k: int| 0 <= k < 4 * c ==> out@[k] == widened_palette(core)[k],
        decreases colors - c,
    {
        let at: usize = from + 3 * c;
        out.push(data[at]);
        out.push(data[at + 1]);
        out.push(data[at + 2]);
        out.push(0);
        assert forall|k: int| 4 * c <= k < 4 * c + 4 implies out@[k] == widened_palette(core)[k] by {
            assert(k / 4 == c);
        }
        c += 1;
    }
    assert(out@ =~= widened_palette(core));
    out
}

/// Takes the bitmap at `off` apart into the parts of a bitmap file: the
/// info header, the colour masks, the palette and the pixel data. `None`
/// where `parse_dib` finds no bitmap at `off`.
pub fn extract_bitmap(data: &[u8], off: usize) -> (r: Option<BitmapParts>)
    ensures
        r is Some <==> dib_at(data@, off as int) is Some,
        r matches Some(parts) ==> dib_at(data@, off as int) matches Some(found) && parts_of(
            data@,
            off as int,
            found.0,
            parts,
        ),
{
    let found = parse_dib(data, off);
    if found.is_none() {
        return None;
    }
    let (info, total) = found.unwrap();
    let len = data.len();
    assert(off + info.header_size + info.masks_size + info.palette_size + info.data_size <= len);
    let masks_at: usize = off + info.header_size;
    let palette_at: usize = masks_at + info.masks_size;
    let pixels_at: usize = palette_at + info.palette_size;
    let pixels = copy_range(data, pixels_at, pixels_at + info.data_size);
    if info.header_size == 40 {
        let header = copy_range(data, off, off + 40);
        let masks = copy_range(data, masks_at, palette_at);
        let palette = copy_range(data, palette_at, pixels_at);
        Some(BitmapParts { info, header, masks, palette, pixels })
    } else {
        let header = build_info_header(&info);
        let palette = widen_palette(data, palette_at, pixels_at);
        Some(BitmapParts { info, header, masks: Vec::new(), palette, pixels })
    }
}

/// What a bitmap of the card game is, by its size.
#[derive(Copy, Clone, Debug, PartialEq, Eq, Structural)]
pub enum BitmapKind {
    /// A playing card, 71 by 96.
    Card,
    /// A small symbol, 31 by 31.
    Small,
    /// Anything else.
    Other,
}

/// The kind of a bitmap of the given width and height; the height counts
/// without its sign.
pub open spec fn kind_of(width: i32, height: i32) -> BitmapKind {
    if width == 71 && (height == 96 || height == -96) {
        BitmapKind::Card
    } else if width == 31 && (height == 31 || height == -31) {
        BitmapKind::Small
    } else {
        BitmapKind::Other
    }
}

/// Tells what a bitmap is by its size.
pub fn bitmap_kind(info: &BmpInfo) -> (kind: BitmapKind)
    ensures
        kind == kind_of(info.width, info.height),
{
    if info.width == 71 && (info.height == 96 || info.height == -96) {
        BitmapKind::Card
    } else if info.width == 31 && (info.height == 31 || info.height == -31) {
        BitmapKind::Small
    } else {
        BitmapKind::Other
    }
}

} // verus!
