//! The off-screen pixel buffer: a contiguous block of bytes holding a
//! 32-bit-per-pixel top-down image, together with the format descriptor that a
//! stretch-blit uses to interpret those bytes.

use vstd::prelude::*;

verus! {

/// Size in bytes of the fixed-length bitmap header that the descriptor mirrors.
pub const BITMAP_INFO_HEADER_SIZE: u32 = 40;

/// Descriptor value meaning "raw uncompressed pixels".
pub const COMPRESSION_UNCOMPRESSED: u32 = 0;

/// Bytes that one pixel occupies: 32-bit pixels.
pub const BYTES_PER_PIXEL: i32 = 4;

/// The format descriptor stored alongside the pixel memory. It mirrors a
/// platform bitmap header: the `height` field is kept negated to declare a
/// top-down row order (row 0 is the visual top row).
#[derive(Clone, Copy, Debug, PartialEq, Eq, Structural)]
pub struct BitmapInfo {
    pub header_size: u32,
    pub width: i32,
    pub height: i32,
    pub planes: u16,
    pub bit_count: u16,
    pub compression: u32,
}

/// An off-screen image: owned pixel memory plus its declared dimensions and
/// the descriptor a presentation routine relies on bit-exactly.
#[derive(Debug)]
pub struct PixelBuffer {
    pub info: BitmapInfo,
    pub memory: Vec<u8>,
    pub width: i32,
    pub height: i32,
    pub bytes_per_pixel: i32,
}

/// Byte offset of the first byte of pixel `(x, y)` in a row-major top-down
/// image of the given width.
pub open spec fn byte_index(x: int, y: int, width: int) -> int {
    (y * width + x) * 4
}

/// The 32-bit value denoted by four bytes in little-endian order.
pub open spec fn u32_from_le_bytes(b0: u8, b1: u8, b2: u8, b3: u8) -> u32 {
    (b0 as u32) | ((b1 as u32) << 8) | ((b2 as u32) << 16) | ((b3 as u32) << 24)
}

impl PixelBuffer {
    /// Well-formedness: the memory is exactly `width * height * 4` bytes, and
    /// the descriptor describes the current dimensions with the row count
    /// negated (top-down), one plane, 32 bits per pixel, uncompressed.
    pub open spec fn wf(&self) -> bool {
        &&& self.bytes_per_pixel == BYTES_PER_PIXEL
        &&& 0 <= self.width
        &&& 0 <= self.height
        &&& self.memory@.len() == self.width * self.height * 4
        &&& self.info.header_size == BITMAP_INFO_HEADER_SIZE
        &&& self.info.width == self.width
        &&& self.info.height == -self.height
        &&& self.info.planes == 1
        &&& self.info.bit_count == 32
        &&& self.info.compression == COMPRESSION_UNCOMPRESSED
    }

    /// The pixel stored at `(x, y)`, read as a little-endian 32-bit value.
    pub open spec fn pixel_value(&self, x: int, y: int) -> u32 {
        u32_from_le_bytes(
            self.memory@[byte_index(x, y, self.width as int)],
            self.memory@[byte_index(x, y, self.width as int) + 1],
            self.memory@[byte_index(x, y, self.width as int) + 2],
            self.memory@[byte_index(x, y, self.width as int) + 3],
        )
    }
}

impl Default for PixelBuffer {
    /// A buffer with no backing memory yet: zero by zero, descriptor already
    /// in the fixed top-down 32-bit shape.
    fn default() -> (b: Self)
        ensures
            b.wf(),
            b.width == 0,
            b.height == 0,
            b.memory@.len() == 0,
    {
        PixelBuffer {
            info: BitmapInfo {
                header_size: BITMAP_INFO_HEADER_SIZE,
                width: 0,
                height: 0,
                planes: 1,
                bit_count: 32,
                compression: COMPRESSION_UNCOMPRESSED,
            },
            memory: Vec::new(),
            width: 0,
            height: 0,
            bytes_per_pixel: BYTES_PER_PIXEL,
        }
    }
}

/// (Re)allocate the process-wide buffer slot at the requested dimensions.
///
/// Whatever backing block existed before is released (the old memory is
/// dropped when the slot is overwritten), and afterwards the slot holds
/// exactly one zeroed block of `width * height * 4` bytes: the post-state does
/// not depend on what was allocated before.
pub fn resize_dib_section(screen_buffer: &mut Option<PixelBuffer>, width: i32, height: i32)
    requires
        0 < width,
        0 < height,
        width * height * 4 <= usize::MAX,
    ensures
        (*final(screen_buffer)) matches Some(b) && b.wf() && b.width == width && b.height
            == height && b.memory@.len() == width * height * 4 && (forall|i: int|
            0 <= i < b.memory@.len() ==> b.memory@[i] == 0u8),
{
    proof {
        assert(0 < width * height) by (nonlinear_arith)
            requires
                0 < width,
                0 < height,
        ;
    }
    let w: usize = width as usize;
    let h: usize = height as usize;
    let len: usize = w * h * 4;
    let mut memory: Vec<u8> = Vec::new();
    while memory.len() < len
        invariant
            memory@.len() <= len,
            forall|i: int| 0 <= i < memory@.len() ==> memory@[i] == 0u8,
        decreases len - memory@.len(),
    {
        memory.push(0u8);
    }
    let buffer = PixelBuffer {
        info: BitmapInfo {
            header_size: BITMAP_INFO_HEADER_SIZE,
            width,
            height: -height,
            planes: 1,
            bit_count: 32,
            compression: COMPRESSION_UNCOMPRESSED,
        },
        memory,
        width,
        height,
        bytes_per_pixel: BYTES_PER_PIXEL,
    };
    *screen_buffer = Some(buffer);
}

/// Top-down invariant: for every well-formed buffer, the descriptor's
/// row-count field equals the negation of the declared height.
pub proof fn lemma_top_down_row_order(b: &PixelBuffer)
    requires
        b.wf(),
    ensures
        b.info.height == -b.height,
{
}

/// A row-major pixel coordinate stays inside the grid: its flat index lies in
/// `[0, w * h)`.
pub proof fn lemma_row_major_index_bounds(x: int, y: int, w: int, h: int)
    by (nonlinear_arith)
    requires
        0 <= x < w,
        0 <= y < h,
    ensures
        0 <= y * w + x,
        y * w + x < w * h,
        y * w + x < h * w,
{
}

/// Distinct pixel coordinates of one grid have distinct row-major indices.
pub proof fn lemma_row_major_injective(x1: int, y1: int, x2: int, y2: int, w: int)
    by (nonlinear_arith)
    requires
        0 <= x1 < w,
        0 <= x2 < w,
        0 <= y1,
        0 <= y2,
        !(x1 == x2 && y1 == y2),
    ensures
        y1 * w + x1 != y2 * w + x2,
{
}

/// Split a 32-bit pixel into its four little-endian bytes.
fn le_bytes_of_u32(c: u32) -> (r: (u8, u8, u8, u8))
    ensures
        u32_from_le_bytes(r.0, r.1, r.2, r.3) == c,
{
    let b0: u8 = (c & 0xff) as u8;
    let b1: u8 = ((c >> 8) & 0xff) as u8;
    let b2: u8 = ((c >> 16) & 0xff) as u8;
    let b3: u8 = ((c >> 24) & 0xff) as u8;
    proof {
        assert(((b0 as u32) | ((b1 as u32) << 8) | ((b2 as u32) << 16) | ((b3 as u32) << 24))
            == c) by (bit_vector)
            requires
                b0 == (c & 0xff) as u8,
                b1 == ((c >> 8) & 0xff) as u8,
                b2 == ((c >> 16) & 0xff) as u8,
                b3 == ((c >> 24) & 0xff) as u8,
        ;
    }
    (b0, b1, b2, b3)
}

impl PixelBuffer {
    /// Byte offset of pixel `(x, y)`, with four bytes of room before the end
    /// of the memory block.
    fn byte_offset(&self, x: i32, y: i32) -> (r: usize)
        requires
            self.wf(),
            0 <= x < self.width,
            0 <= y < self.height,
        ensures
            r == byte_index(x as int, y as int, self.width as int),
            r + 4 <= self.memory@.len(),
    {
        proof {
            lemma_row_major_index_bounds(
                x as int,
                y as int,
                self.width as int,
                self.height as int,
            );
            assert(self.memory.len() <= usize::MAX);
        }
        let yy: usize = y as usize;
        let xx: usize = x as usize;
        let w: usize = self.width as usize;
        (yy * w + xx) * 4
    }

    /// Read the pixel at `(x, y)` as a little-endian 32-bit value.
    pub fn read_pixel(&self, x: i32, y: i32) -> (r: u32)
        requires
            self.wf(),
            0 <= x < self.width,
            0 <= y < self.height,
        ensures
            r == self.pixel_value(x as int, y as int),
    {
        let idx: usize = self.byte_offset(x, y);
        let b0: u8 = self.memory[idx];
        let b1: u8 = self.memory[idx + 1];
        let b2: u8 = self.memory[idx + 2];
        let b3: u8 = self.memory[idx + 3];
        (b0 as u32) | ((b1 as u32) << 8) | ((b2 as u32) << 16) | ((b3 as u32) << 24)
    }

    /// Write `color` to the pixel at `(x, y)`; every other pixel keeps its
    /// value and the buffer stays well formed.
    pub fn write_pixel(&mut self, x: i32, y: i32, color: u32)
        requires
            old(self).wf(),
            0 <= x < old(self).width,
            0 <= y < old(self).height,
        ensures
            final(self).wf(),
            final(self).width == old(self).width,
            final(self).height == old(self).height,
            final(self).info == old(self).info,
            final(self).memory@.len() == old(self).memory@.len(),
            final(self).pixel_value(x as int, y as int) == color,
            forall|px: int, py: int|
                0 <= px < old(self).width && 0 <= py < old(self).height && !(px == x && py
                    == y) ==> final(self).pixel_value(px, py) == old(self).pixel_value(px, py),
    {
        let idx: usize = self.byte_offset(x, y);
        let bytes: (u8, u8, u8, u8) = le_bytes_of_u32(color);
        self.memory[idx] = bytes.0;
        self.memory[idx + 1] = bytes.1;
        self.memory[idx + 2] = bytes.2;
        self.memory[idx + 3] = bytes.3;
        proof {
            let w = self.width as int;
            let h = self.height as int;
            assert forall|px: int, py: int|
                0 <= px < w && 0 <= py < h && !(px == x && py == y) implies self.pixel_value(
                px,
                py,
            ) == old(self).pixel_value(px, py) by {
                lemma_row_major_injective(px, py, x as int, y as int, w);
                lemma_row_major_index_bounds(px, py, w, h);
            }
        }
    }

    /// Fill every pixel with one color.
    pub fn fill(&mut self, color: u32)
        requires
            old(self).wf(),
        ensures
            final(self).wf(),
            final(self).width == old(self).width,
            final(self).height == old(self).height,
            final(self).info == old(self).info,
            final(self).memory@.len() == old(self).memory@.len(),
            forall|px: int, py: int|
                0 <= px < old(self).width && 0 <= py < old(self).height
                    ==> final(self).pixel_value(px, py) == color,
    {
        let height: i32 = self.height;
        let width: i32 = self.width;
        let mut y: i32 = 0;
        while y < height
            invariant
                self.wf(),
                0 <= y <= height,
                self.width == width,
                self.height == height,
                self.info == old(self).info,
                self.memory@.len() == old(self).memory@.len(),
                forall|px: int, py: int|
                    0 <= px < width && 0 <= py < y ==> self.pixel_value(px, py) == color,
            decreases height - y,
        {
            let mut x: i32 = 0;
            while x < width
                invariant
                    self.wf(),
                    0 <= y < height,
                    0 <= x <= width,
                    self.width == width,
                    self.height == height,
                    self.info == old(self).info,
                    self.memory@.len() == old(self).memory@.len(),
                    forall|px: int, py: int|
                        0 <= px < width && 0 <= py < y ==> self.pixel_value(px, py) == color,
                    forall|px: int| 0 <= px < x ==> self.pixel_value(px, y as int) == color,
                decreases width - x,
            {
                self.write_pixel(x, y, color);
                x = x + 1;
            }
            y = y + 1;
        }
    }
}

} // verus!
