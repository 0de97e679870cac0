use framepump::blit::{client_dimension, present, Surface};
use framepump::buffer::{resize_dib_section, PixelBuffer};

fn checkerboard(width: i32, height: i32) -> PixelBuffer {
    let mut slot: Option<PixelBuffer> = None;
    resize_dib_section(&mut slot, width, height);
    let mut buffer = slot.unwrap();
    for y in 0..height {
        for x in 0..width {
            let color = if (x + y) % 2 == 0 { 0xFFFFFFFF } else { 0xFF000000 };
            buffer.write_pixel(x, y, color);
        }
    }
    buffer
}

#[test]
fn same_size_present_is_identity_for_checkerboard() {
    let buffer = checkerboard(4, 3);
    let mut surface = Surface::new(4, 3);
    present(&mut surface, &buffer);
    for y in 0..3 {
        for x in 0..4 {
            assert_eq!(surface.get_pixel(x, y), buffer.read_pixel(x, y));
        }
    }
}

#[test]
fn same_size_present_is_identity_for_gradient() {
    let mut slot: Option<PixelBuffer> = None;
    resize_dib_section(&mut slot, 8, 8);
    let mut buffer = slot.unwrap();
    for y in 0..8 {
        for x in 0..8 {
            buffer.write_pixel(x, y, (x as u32) << 16 | (y as u32));
        }
    }
    let mut surface = Surface::new(8, 8);
    present(&mut surface, &buffer);
    for y in 0..8 {
        for x in 0..8 {
            assert_eq!(surface.get_pixel(x, y), (x as u32) << 16 | (y as u32));
        }
    }
}

#[test]
fn different_size_present_samples_nearest_and_does_not_crash() {
    let buffer = checkerboard(4, 3);
    // Upscale in one axis, downscale in the other.
    let mut surface = Surface::new(2, 5);
    present(&mut surface, &buffer);
    for dy in 0..5i32 {
        for dx in 0..2i32 {
            let sx = (dx as i64 * 4 / 2) as i32;
            let sy = (dy as i64 * 3 / 5) as i32;
            assert_eq!(surface.get_pixel(dx, dy), buffer.read_pixel(sx, sy));
        }
    }
    // Degenerate destinations must be tolerated too.
    let mut empty_wide = Surface::new(0, 9);
    present(&mut empty_wide, &buffer);
    let mut empty_tall = Surface::new(9, 0);
    present(&mut empty_tall, &buffer);
    let mut single = Surface::new(1, 1);
    present(&mut single, &buffer);
    assert_eq!(single.get_pixel(0, 0), buffer.read_pixel(0, 0));
}

#[test]
fn solid_color_present_fills_destination() {
    let mut slot: Option<PixelBuffer> = None;
    resize_dib_section(&mut slot, 1280, 720);
    let mut buffer = slot.unwrap();
    buffer.fill(0x00FF7F3F);
    let mut surface = Surface::new(1280, 720);
    present(&mut surface, &buffer);
    for y in 0..720 {
        for x in 0..1280 {
            assert_eq!(surface.get_pixel(x, y), 0x00FF7F3F);
        }
    }
}

#[test]
fn surface_new_is_zeroed() {
    let surface = Surface::new(3, 2);
    assert_eq!(surface.width, 3);
    assert_eq!(surface.height, 2);
    assert_eq!(surface.pixels.len(), 6);
    for y in 0..2 {
        for x in 0..3 {
            assert_eq!(surface.get_pixel(x, y), 0);
        }
    }
}

#[test]
fn client_dimension_subtracts_edges() {
    assert_eq!(client_dimension(0, 0, 1280, 720), (1280, 720));
    assert_eq!(client_dimension(-10, -20, 10, 20), (20, 40));
    assert_eq!(client_dimension(5, 5, 5, 5), (0, 0));
}
