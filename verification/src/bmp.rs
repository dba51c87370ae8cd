//! Reading the header of a device-independent bitmap, as it lies in a
//! resource file, and writing the file header that turns it into a bitmap
//! file.

use vstd::prelude::*;

verus! {

/// What the header of a bitmap says of it, and the sizes of its parts.
#[derive(Debug, Clone, Copy, PartialEq, Eq)]
pub struct BmpInfo {
    pub width: i32,
    pub height: i32,
    /// Bits per pixel.
    pub bpp: u16,
    pub compression: u32,
    /// Size of the pixel data as the header gives it.
    pub size_image: u32,
    /// Number of palette entries.
    pub colors_used: u32,
    /// Bytes of the header: 12 or 40.
    pub header_size: usize,
    /// Bytes of the palette.
    pub palette_size: usize,
    /// Bytes of the colour masks that follow a header with bit fields.
    pub masks_size: usize,
    /// Bytes of the pixel data.
    pub data_size: usize,
}

/// The 16-bit number that lies at `off`, low byte first.
pub open spec fn le_u16(buf: Seq<u8>, off: int) -> int {
    buf[off] + 256 * buf[off + 1]
}

/// The 32-bit number that lies at `off`, low byte first.
pub open spec fn le_u32(buf: Seq<u8>, off: int) -> int {
    buf[off] + 256 * buf[off + 1] + 65536 * buf[off + 2] + 16777216 * buf[off + 3]
}

/// The signed 32-bit number that lies at `off`, low byte first, in two's
/// complement.
pub open spec fn le_i32(buf: Seq<u8>, off: int) -> int {
    if le_u32(buf, off) >= 0x8000_0000 {
        le_u32(buf, off) - 0x1_0000_0000
    } else {
        le_u32(buf, off)
    }
}

/// Bytes of a row of `width` pixels of `bpp` bits, filled up to a multiple
/// of four.
pub open spec fn row_bytes(width: int, bpp: int) -> int {
    ((width * bpp + 31) / 32) * 4
}

/// Entries of the full palette for `bpp` bits per pixel; none above 8 bits.
pub open spec fn full_palette(bpp: int) -> int {
    if bpp == 1 {
        2
    } else if bpp == 4 {
        16
    } else if bpp == 8 {
        256
    } else {
        0
    }
}

/// `x` without its sign.
pub open spec fn magnitude(x: int) -> int {
    if x < 0 {
        -x
    } else {
        x
    }
}

/// What a 12-byte core header at `off` describes, and the bytes that the
/// bitmap takes up; `None` where the header is not in the buffer, does not
/// have one plane and 1, 4, 8 or 24 bits per pixel, or the bitmap does not
/// end within the buffer.
pub open spec fn core_dib(buf: Seq<u8>, off: int) -> Option<(BmpInfo, int)> {
    if off + 12 > buf.len() {
        None
    } else {
        let w = le_u16(buf, off + 4);
        let h = le_u16(buf, off + 6);
        let planes = le_u16(buf, off + 8);
        let bpp = le_u16(buf, off + 10);
        let palette = full_palette(bpp) * 3;
        let data = row_bytes(w, bpp) * h;
        let total = 12 + palette + data;
        if planes != 1 || !(bpp == 1 || bpp == 4 || bpp == 8 || bpp == 24) || off + total
            > buf.len() {
            None
        } else {
            Some(
                (
                    BmpInfo {
                        width: w as i32,
                        height: h as i32,
                        bpp: bpp as u16,
                        compression: 0,
                        size_image: (data % 0x1_0000_0000) as u32,
                        colors_used: full_palette(bpp) as u32,
                        header_size: 12,
                        palette_size: palette as usize,
                        masks_size: 0,
                        data_size: data as usize,
                    },
                    total,
                ),
            )
        }
    }
}

/// What a 40-byte info header at `off` describes, and the bytes that the
/// bitmap takes up; `None` where the header is not in the buffer, does not
/// have one plane and 1, 4, 8, 24 or 32 bits per pixel, has no width or no
/// height, or the bitmap does not end within the buffer.
pub open spec fn info_dib(buf: Seq<u8>, off: int) -> Option<(BmpInfo, int)> {
    if off + 40 > buf.len() {
        None
    } else {
        let width = le_i32(buf, off + 4);
        let height = le_i32(buf, off + 8);
        let planes = le_u16(buf, off + 12);
        let bpp = le_u16(buf, off + 14);
        let compression = le_u32(buf, off + 16);
        let size_image = le_u32(buf, off + 20);
        let colors_used = le_u32(buf, off + 32);
        let masks: int = if compression == 3 {
            12
        } else {
            0
        };
        let entries = if bpp <= 8 {
            if colors_used != 0 {
                colors_used
            } else {
                full_palette(bpp)
            }
        } else {
            0
        };
        let palette = entries * 4;
        let data = if size_image != 0 {
            size_image
        } else {
            row_bytes(width, bpp) * magnitude(height)
        };
        let total = 40 + masks + palette + data;
        if planes != 1 || !(bpp == 1 || bpp == 4 || bpp == 8 || bpp == 24 || bpp == 32) || width
            <= 0 || height == 0 || off + total > buf.len() {
            None
        } else {
            Some(
                (
                    BmpInfo {
                        width: width as i32,
                        height: height as i32,
                        bpp: bpp as u16,
                        compression: compression as u32,
                        size_image: size_image as u32,
                        colors_used: entries as u32,
                        header_size: 40,
                        palette_size: palette as usize,
                        masks_size: masks as usize,
                        data_size: data as usize,
                    },
                    total,
                ),
            )
        }
    }
}

/// What the bitmap header at `off` describes: that of a core header where
/// the header gives its size as 12, that of an info header where it gives
/// 40, and nothing for any other size.
pub open spec fn dib_at(buf: Seq<u8>, off: int) -> Option<(BmpInfo, int)> {
    if off + 4 > buf.len() {
        None
    } else if le_u32(buf, off) == 12 {
        core_dib(buf, off)
    } else if le_u32(buf, off) == 40 {
        info_dib(buf, off)
    } else {
        None
    }
}

/// Reads the 16-bit number at `off`, low byte first; `None` where it does
/// not lie within the buffer.
pub fn read_u16_le(buf: &[u8], off: usize) -> (r: Option<u16>)
    ensures
        r is Some <==> off + 2 <= buf@.len(),
        r matches Some(v) ==> v == le_u16(buf@, off as int),
{
    if off <= buf.len() && buf.len() - off >= 2 {
        Some((buf[off] as u16) + 256 * (buf[off + 1] as u16))
    } else {
        None
    }
}

/// Reads the 32-bit number at `off`, low byte first; `None` where it does
/// not lie within the buffer.
pub fn read_u32_le(buf: &[u8], off: usize) -> (r: Option<u32>)
    ensures
        r is Some <==> off + 4 <= buf@.len(),
        r matches Some(v) ==> v == le_u32(buf@, off as int),
{
    if off <= buf.len() && buf.len() - off >= 4 {
        Some(
            (buf[off] as u32) + 256 * (buf[off + 1] as u32) + 65536 * (buf[off + 2] as u32)
                + 16777216 * (buf[off + 3] as u32),
        )
    } else {
        None
    }
}

/// Reads the signed 32-bit number at `off`, low byte first, in two's
/// complement; `None` where it does not lie within the buffer.
pub fn read_i32_le(buf: &[u8], off: usize) -> (r: Option<i32>)
    ensures
        r is Some <==> off + 4 <= buf@.len(),
        r matches Some(v) ==> v == le_i32(buf@, off as int),
{
    match read_u32_le(buf, off) {
        Some(v) => {
            if v >= 0x8000_0000 {
                Some(((v - 0x8000_0000) as i32) + i32::MIN)
            } else {
                Some(v as i32)
            }
        },
        None => None,
    }
}

/// Entries of the full palette for `bpp` bits per pixel.
fn palette_entries(bpp: u16) -> (n: u32)
    ensures
        n == full_palette(bpp as int),
{
    if bpp == 1 {
        2
    } else if bpp == 4 {
        16
    } else if bpp == 8 {
        256
    } else {
        0
    }
}

/// Bytes of `rows` rows of `width` pixels of `bpp` bits.
fn pixel_bytes(width: u32, bpp: u16, rows: u32) -> (n: u128)
    requires
        width <= 0x8000_0000,
        bpp <= 32,
        rows <= 0x8000_0000,
    ensures
        n == row_bytes(width as int, bpp as int) * rows,
        n <= 0x2_0000_0002_0000_0000,
{
    assert(width * bpp <= 0x8000_0000 * 32) by (nonlinear_arith)
        requires
            0 <= width <= 0x8000_0000,
            0 <= bpp <= 32,
    ;
    let bits: u128 = (width as u128) * (bpp as u128);
    let per_row: u128 = ((bits + 31) / 32) * 4;
    assert(per_row * rows <= 0x4_0000_0004 * 0x8000_0000) by (nonlinear_arith)
        requires
            0 <= per_row <= 0x4_0000_0004,
            0 <= rows <= 0x8000_0000,
    ;
    per_row * (rows as u128)
}

/// Reads a 12-byte core header at `off`.
fn parse_core_dib(buf: &[u8], off: usize) -> (r: Option<(BmpInfo, usize)>)
    requires
        off + 12 <= buf@.len(),
    ensures
        r is Some <==> core_dib(buf@, off as int) is Some,
        r matches Some((info, total)) ==> core_dib(buf@, off as int) == Some((info, total as int)),
        r matches Some((info, total)) ==> off + total <= buf@.len() && total == info.header_size
            + info.masks_size + info.palette_size + info.data_size,
{
    let room: u128 = (buf.len() - off) as u128;
    let w = read_u16_le(buf, off + 4).unwrap();
    let h = read_u16_le(buf, off + 6).unwrap();
    let planes = read_u16_le(buf, off + 8).unwrap();
    let bpp = read_u16_le(buf, off + 10).unwrap();
    if planes != 1 {
        return None;
    }
    if !(bpp == 1 || bpp == 4 || bpp == 8 || bpp == 24) {
        return None;
    }
    let entries = palette_entries(bpp);
    let palette: u128 = (entries as u128) * 3;
    let data: u128 = pixel_bytes(w as u32, bpp, h as u32);
    let total: u128 = 12 + palette + data;
    if total > room {
        return None;
    }
    Some(
        (
            BmpInfo {
                width: w as i32,
                height: h as i32,
                bpp,
                compression: 0,
                size_image: (data % 0x1_0000_0000) as u32,
                colors_used: entries,
                header_size: 12,
                palette_size: palette as usize,
                masks_size: 0,
                data_size: data as usize,
            },
            total as usize,
        ),
    )
}

/// Reads a 40-byte info header at `off`.
fn parse_info_dib(buf: &[u8], off: usize) -> (r: Option<(BmpInfo, usize)>)
    requires
        off + 40 <= buf@.len(),
    ensures
        r is Some <==> info_dib(buf@, off as int) is Some,
        r matches Some((info, total)) ==> info_dib(buf@, off as int) == Some((info, total as int)),
        r matches Some((info, total)) ==> off + total <= buf@.len() && total == info.header_size
            + info.masks_size + info.palette_size + info.data_size,
{
    let room: u128 = (buf.len() - off) as u128;
    let width = read_i32_le(buf, off + 4).unwrap();
    let height = read_i32_le(buf, off + 8).unwrap();
    let planes = read_u16_le(buf, off + 12).unwrap();
    let bpp = read_u16_le(buf, off + 14).unwrap();
    let compression = read_u32_le(buf, off + 16).unwrap();
    let size_image = read_u32_le(buf, off + 20).unwrap();
    let colors_used = read_u32_le(buf, off + 32).unwrap();
    if planes != 1 {
        return None;
    }
    if !(bpp == 1 || bpp == 4 || bpp == 8 || bpp == 24 || bpp == 32) {
        return None;
    }
    if width <= 0 || height == 0 {
        return None;
    }
    let masks: u128 = if compression == 3 {
        12
    } else {
        0
    };
    let entries: u32 = if bpp <= 8 {
        if colors_used != 0 {
            colors_used
        } else {
            palette_entries(bpp)
        }
    } else {
        0
    };
    let palette: u128 = (entries as u128) * 4;
    let rows: u32 = if height < 0 {
        if height == i32::MIN {
            0x8000_0000
        } else {
            (-height) as u32
        }
    } else {
        height as u32
    };
    let data: u128 = if size_image != 0 {
        size_image as u128
    } else {
        pixel_bytes(width as u32, bpp, rows)
    };
    let total: u128 = 40 + masks + palette + data;
    if total > room {
        return None;
    }
    Some(
        (
            BmpInfo {
                width,
                height,
                bpp,
                compression,
                size_image,
                colors_used: entries,
                header_size: 40,
                palette_size: palette as usize,
                masks_size: masks as usize,
                data_size: data as usize,
            },
            total as usize,
        ),
    )
}

/// Reads the header of the bitmap at `off`, either a 12-byte core header
/// or a 40-byte info header, and returns what it describes together with
/// the number of bytes that the bitmap takes up: header, colour masks,
/// palette and pixel data. `None` where the header is of another kind or
/// does not describe a bitmap that lies within the buffer.
pub fn parse_dib(buf: &[u8], off: usize) -> (r: Option<(BmpInfo, usize)>)
    ensures
        r is Some <==> dib_at(buf@, off as int) is Some,
        r matches Some((info, total)) ==> dib_at(buf@, off as int) == Some((info, total as int)),
        r matches Some((info, total)) ==> off + total <= buf@.len() && total == info.header_size
            + info.masks_size + info.palette_size + info.data_size,
{
    let size = match read_u32_le(buf, off) {
        Some(v) => v,
        None => {
            return None;
        },
    };
    if size == 12 {
        if buf.len() - off < 12 {
            return None;
        }
        parse_core_dib(buf, off)
    } else if size == 40 {
        if buf.len() - off < 40 {
            return None;
        }
        parse_info_dib(buf, off)
    } else {
        None
    }
}

/// The byte at place `k` of a 32-bit number written low byte first.
pub open spec fn le_byte(v: int, k: int) -> u8 {
    if k == 0 {
        (v % 256) as u8
    } else if k == 1 {
        (v / 256 % 256) as u8
    } else if k == 2 {
        (v / 65536 % 256) as u8
    } else {
        (v / 16777216 % 256) as u8
    }
}

/// `n` as it is written into 32 bits: its remainder modulo 2^32.
pub open spec fn low_32(n: int) -> int {
    n % 0x1_0000_0000
}

/// The header of a bitmap file whose parts have the given lengths: the
/// letters `BM`, the size of the file, two reserved words of zero, and the
/// place where the pixel data begin; the two numbers as 32 bits written low
/// byte first.
pub open spec fn file_header(
    header_len: int,
    masks_len: int,
    palette_len: int,
    pixels_len: int,
) -> Seq<u8> {
    let data_at = low_32(14 + low_32(header_len) + low_32(masks_len) + low_32(palette_len));
    let file_size = low_32(data_at + low_32(pixels_len));
    seq![
        0x42u8,
        0x4Du8,
        le_byte(file_size, 0),
        le_byte(file_size, 1),
        le_byte(file_size, 2),
        le_byte(file_size, 3),
        0u8,
        0u8,
        0u8,
        0u8,
        le_byte(data_at, 0),
        le_byte(data_at, 1),
        le_byte(data_at, 2),
        le_byte(data_at, 3),
    ]
}

/// Writes a 32-bit number as four bytes, low byte first.
fn le_bytes_of(v: u32) -> (b: [u8; 4])
    ensures
        forall|k: int| 0 <= k < 4 ==> b@[k] == le_byte(v as int, k),
{
    [
        (v % 256) as u8,
        (v / 256 % 256) as u8,
        (v / 65536 % 256) as u8,
        (v / 16777216 % 256) as u8,
    ]
}

/// Keeps the low 32 bits of a length.
fn low_32_of(n: usize) -> (r: u32)
    ensures
        r == low_32(n as int),
{
    ((n as u64) % 0x1_0000_0000) as u32
}

/// Builds the 14-byte header that stands before the bitmap header in a
/// bitmap file, from the lengths of the parts that follow it. Lengths and
/// sums count in 32 bits and wrap round beyond.
pub fn bmp_file_header(
    header_len: usize,
    masks_len: usize,
    palette_len: usize,
    pixels_len: usize,
) -> (bf: [u8; 14])
    ensures
        bf@ == file_header(
            header_len as int,
            masks_len as int,
            palette_len as int,
            pixels_len as int,
        ),
{
    let header_part = low_32_of(header_len) as u64;
    let masks_part = low_32_of(masks_len) as u64;
    let palette_part = low_32_of(palette_len) as u64;
    let pixels_part = low_32_of(pixels_len) as u64;
    let data_at: u32 = ((14 + header_part + masks_part + palette_part) % 0x1_0000_0000) as u32;
    let file_size: u32 = (((data_at as u64) + pixels_part) % 0x1_0000_0000) as u32;
    let size_bytes = le_bytes_of(file_size);
    let at_bytes = le_bytes_of(data_at);
    let bf: [u8; 14] = [
        0x42,
        0x4D,
        size_bytes[0],
        size_bytes[1],
        size_bytes[2],
        size_bytes[3],
        0,
        0,
        0,
        0,
        at_bytes[0],
        at_bytes[1],
        at_bytes[2],
        at_bytes[3],
    ];
    assert(bf@ =~= file_header(
        header_len as int,
        masks_len as int,
        palette_len as int,
        pixels_len as int,
    ));
    bf
}

} // verus!
