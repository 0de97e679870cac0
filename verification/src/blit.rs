//! The presenter: a stretching copy from the off-screen buffer onto a
//! destination surface sized to the current client area. The copy samples the
//! source with nearest-neighbour scaling; when source and destination have the
//! same dimensions it degenerates to a lossless identity copy.

use vstd::prelude::*;

verus! {

use crate::buffer::PixelBuffer;
use crate::buffer::byte_index;
use crate::buffer::lemma_row_major_index_bounds;
use vstd::arithmetic::div_mod::lemma_div_by_multiple;
use vstd::arithmetic::div_mod::lemma_div_pos_is_pos;
use vstd::arithmetic::div_mod::lemma_multiply_divide_lt;

/// A destination pixel grid standing for a window's client drawing area: the
/// presenter writes into it, never into the source buffer.
#[derive(Debug)]
pub struct Surface {
    pub width: i32,
    pub height: i32,
    pub pixels: Vec<u32>,
}

/// The source coordinate a stretching copy samples for destination coordinate
/// `d`, when `dest_extent` destination pixels cover `src_extent` source pixels.
pub open spec fn source_index(d: int, dest_extent: int, src_extent: int) -> int {
    (d * src_extent) / dest_extent
}

impl Surface {
    /// Well-formedness: the grid holds exactly `width * height` pixels.
    pub open spec fn wf(&self) -> bool {
        &&& 0 <= self.width
        &&& 0 <= self.height
        &&& self.pixels@.len() == self.width * self.height
    }

    /// The pixel at `(x, y)` in row-major order.
    pub open spec fn pixel(&self, x: int, y: int) -> u32 {
        self.pixels@[y * self.width + x]
    }

    /// A surface of the given size with every pixel zeroed.
    pub fn new(width: i32, height: i32) -> (s: Surface)
        requires
            0 <= width,
            0 <= height,
            width * height <= usize::MAX,
        ensures
            s.wf(),
            s.width == width,
            s.height == height,
            forall|x: int, y: int|
                0 <= x < width && 0 <= y < height ==> s.pixel(x, y) == 0,
    {
        let len: usize = (width as usize) * (height as usize);
        let mut pixels: Vec<u32> = Vec::new();
        while pixels.len() < len
            invariant
                pixels@.len() <= len,
                forall|i: int| 0 <= i < pixels@.len() ==> pixels@[i] == 0u32,
            decreases len - pixels@.len(),
        {
            pixels.push(0u32);
        }
        let s = Surface { width, height, pixels };
        proof {
            assert forall|x: int, y: int|
                0 <= x < width && 0 <= y < height implies s.pixel(x, y) == 0 by {
                lemma_row_major_index_bounds(x, y, width as int, height as int);
            }
        }
        s
    }

    /// Read the pixel at `(x, y)`.
    pub fn get_pixel(&self, x: i32, y: i32) -> (r: u32)
        requires
            self.wf(),
            0 <= x < self.width,
            0 <= y < self.height,
        ensures
            r == self.pixel(x as int, y as int),
    {
        proof {
            lemma_row_major_index_bounds(
                x as int,
                y as int,
                self.width as int,
                self.height as int,
            );
            assert(self.pixels.len() <= usize::MAX);
        }
        let idx: usize = (y as usize) * (self.width as usize) + (x as usize);
        self.pixels[idx]
    }
}

/// The sampled source coordinate stays inside the source extent: presenting
/// never reads a source coordinate outside `[0, src_extent)`, whatever the
/// destination size.
pub proof fn lemma_source_index_in_range(d: int, dest_extent: int, src_extent: int)
    requires
        0 <= d < dest_extent,
        0 < src_extent,
    ensures
        0 <= source_index(d, dest_extent, src_extent) < src_extent,
{
    assert(0 <= d * src_extent) by (nonlinear_arith)
        requires
            0 <= d,
            0 < src_extent,
    ;
    assert(d * src_extent < dest_extent * src_extent) by (nonlinear_arith)
        requires
            d < dest_extent,
            0 < src_extent,
    ;
    lemma_div_pos_is_pos(d * src_extent, dest_extent);
    lemma_multiply_divide_lt(d * src_extent, dest_extent, src_extent);
}

/// When destination and source extents agree, the sampled coordinate is the
/// destination coordinate itself: a same-size present is an identity copy.
pub proof fn lemma_source_index_identity(d: int, extent: int)
    requires
        0 <= d < extent,
    ensures
        source_index(d, extent, extent) == d,
{
    lemma_div_by_multiple(d, extent);
}

/// Every byte the presenter reads for destination pixel `(dx, dy)` lies inside
/// `[0, src_w * src_h * 4)`: no read strays outside the source memory.
pub proof fn lemma_present_reads_in_source(
    dx: int,
    dy: int,
    dest_w: int,
    dest_h: int,
    src_w: int,
    src_h: int,
)
    requires
        0 <= dx < dest_w,
        0 <= dy < dest_h,
        0 < src_w,
        0 < src_h,
    ensures
        0 <= byte_index(
            source_index(dx, dest_w, src_w),
            source_index(dy, dest_h, src_h),
            src_w,
        ),
        byte_index(source_index(dx, dest_w, src_w), source_index(dy, dest_h, src_h), src_w) + 4
            <= src_w * src_h * 4,
{
    lemma_source_index_in_range(dx, dest_w, src_w);
    lemma_source_index_in_range(dy, dest_h, src_h);
    lemma_row_major_index_bounds(
        source_index(dx, dest_w, src_w),
        source_index(dy, dest_h, src_h),
        src_w,
        src_h,
    );
}

/// Stretch-copy the buffer's source rectangle `(0, 0, width, height)` onto the
/// destination rectangle `(0, 0, surface.width, surface.height)`. The buffer
/// is only read; the destination pixel at `(dx, dy)` receives the source pixel
/// sampled by nearest-neighbour scaling, and a same-size present copies every
/// pixel unchanged.
pub fn present(surface: &mut Surface, screen_buffer: &PixelBuffer)
    requires
        old(surface).wf(),
        screen_buffer.wf(),
        0 < screen_buffer.width,
        0 < screen_buffer.height,
    ensures
        final(surface).wf(),
        final(surface).width == old(surface).width,
        final(surface).height == old(surface).height,
        forall|dx: int, dy: int|
            0 <= dx < old(surface).width && 0 <= dy < old(surface).height
                ==> final(surface).pixel(dx, dy) == screen_buffer.pixel_value(
                source_index(dx, old(surface).width as int, screen_buffer.width as int),
                source_index(dy, old(surface).height as int, screen_buffer.height as int),
            ),
        old(surface).width == screen_buffer.width && old(surface).height == screen_buffer.height
            ==> forall|dx: int, dy: int|
            0 <= dx < screen_buffer.width && 0 <= dy < screen_buffer.height
                ==> final(surface).pixel(dx, dy) == screen_buffer.pixel_value(dx, dy),
{
    let dest_w: i32 = surface.width;
    let dest_h: i32 = surface.height;
    let src_w: i32 = screen_buffer.width;
    let src_h: i32 = screen_buffer.height;
    let mut pixels: Vec<u32> = Vec::new();
    let mut dy: i32 = 0;
    while dy < dest_h
        invariant
            screen_buffer.wf(),
            src_w == screen_buffer.width,
            src_h == screen_buffer.height,
            0 < src_w,
            0 < src_h,
            0 <= dest_w,
            0 <= dy <= dest_h,
            pixels@.len() == dy * dest_w,
            forall|qx: int, qy: int|
                0 <= qx < dest_w && 0 <= qy < dy ==> pixels@[qy * dest_w + qx]
                    == screen_buffer.pixel_value(
                    source_index(qx, dest_w as int, src_w as int),
                    source_index(qy, dest_h as int, src_h as int),
                ),
        decreases dest_h - dy,
    {
        let mut dx: i32 = 0;
        while dx < dest_w
            invariant
                screen_buffer.wf(),
                src_w == screen_buffer.width,
                src_h == screen_buffer.height,
                0 < src_w,
                0 < src_h,
                0 <= dy < dest_h,
                0 <= dx <= dest_w,
                0 <= dest_w,
                pixels@.len() == dy * dest_w + dx,
                forall|qx: int, qy: int|
                    0 <= qx < dest_w && 0 <= qy < dy ==> pixels@[qy * dest_w + qx]
                        == screen_buffer.pixel_value(
                        source_index(qx, dest_w as int, src_w as int),
                        source_index(qy, dest_h as int, src_h as int),
                    ),
                forall|qx: int|
                    0 <= qx < dx ==> pixels@[dy * dest_w + qx] == screen_buffer.pixel_value(
                        source_index(qx, dest_w as int, src_w as int),
                        source_index(dy as int, dest_h as int, src_h as int),
                    ),
            decreases dest_w - dx,
        {
            proof {
                lemma_source_index_in_range(dx as int, dest_w as int, src_w as int);
                lemma_source_index_in_range(dy as int, dest_h as int, src_h as int);
                assert((dx as int) * (src_w as int) < 0x4000_0000_0000_0000)
                    by (nonlinear_arith)
                    requires
                        0 <= dx < 0x8000_0000,
                        0 <= src_w < 0x8000_0000,
                ;
                assert((dy as int) * (src_h as int) < 0x4000_0000_0000_0000)
                    by (nonlinear_arith)
                    requires
                        0 <= dy < 0x8000_0000,
                        0 <= src_h < 0x8000_0000,
                ;
            }
            let sx: i32 = (((dx as u64) * (src_w as u64)) / (dest_w as u64)) as i32;
            let sy: i32 = (((dy as u64) * (src_h as u64)) / (dest_h as u64)) as i32;
            let p: u32 = screen_buffer.read_pixel(sx, sy);
            pixels.push(p);
            proof {
                let dwi = dest_w as int;
                assert forall|qx: int, qy: int|
                    0 <= qx < dwi && 0 <= qy < dy implies pixels@[qy * dwi + qx]
                    == screen_buffer.pixel_value(
                    source_index(qx, dwi, src_w as int),
                    source_index(qy, dest_h as int, src_h as int),
                ) by {
                    lemma_row_major_index_bounds(qx, qy, dwi, dy as int);
                }
            }
            dx = dx + 1;
        }
        proof {
            assert((dy + 1) * dest_w == dy * dest_w + dest_w) by (nonlinear_arith);
            let dwi = dest_w as int;
            assert forall|qx: int, qy: int|
                0 <= qx < dwi && 0 <= qy < dy + 1 implies pixels@[qy * dwi + qx]
                == screen_buffer.pixel_value(
                source_index(qx, dwi, src_w as int),
                source_index(qy, dest_h as int, src_h as int),
            ) by {
                if qy < dy {
                    lemma_row_major_index_bounds(qx, qy, dwi, dy as int);
                }
            }
        }
        dy = dy + 1;
    }
    proof {
        assert(dest_h * dest_w == dest_w * dest_h) by (nonlinear_arith);
    }
    surface.pixels = pixels;
    proof {
        if surface.width == screen_buffer.width && surface.height == screen_buffer.height {
            assert forall|dx: int, dy: int|
                0 <= dx < screen_buffer.width && 0 <= dy
                    < screen_buffer.height implies surface.pixel(dx, dy)
                == screen_buffer.pixel_value(dx, dy) by {
                lemma_source_index_identity(dx, screen_buffer.width as int);
                lemma_source_index_identity(dy, screen_buffer.height as int);
            }
        }
    }
}

/// The client-area size a window reports, as a `(width, height)` pair computed
/// from the rectangle's edges.
pub fn client_dimension(left: i32, top: i32, right: i32, bottom: i32) -> (r: (i32, i32))
    requires
        left <= right,
        top <= bottom,
        right - left <= i32::MAX,
        bottom - top <= i32::MAX,
    ensures
        r.0 == right - left,
        r.1 == bottom - top,
        0 <= r.0,
        0 <= r.1,
{
    (right - left, bottom - top)
}

} // verus!
