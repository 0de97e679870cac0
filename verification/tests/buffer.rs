use framepump::buffer::{resize_dib_section, PixelBuffer};

#[test]
fn resize_allocates_exact_size() {
    let mut slot: Option<PixelBuffer> = None;
    resize_dib_section(&mut slot, 4, 3);
    let buffer = slot.unwrap();
    assert_eq!(buffer.width, 4);
    assert_eq!(buffer.height, 3);
    assert_eq!(buffer.bytes_per_pixel, 4);
    assert_eq!(buffer.memory.len(), 4 * 3 * 4);
    assert!(buffer.memory.iter().all(|b| *b == 0));
}

#[test]
fn resize_fills_format_descriptor() {
    let mut slot: Option<PixelBuffer> = None;
    resize_dib_section(&mut slot, 7, 5);
    let buffer = slot.unwrap();
    assert_eq!(buffer.info.header_size, 40);
    assert_eq!(buffer.info.width, 7);
    assert_eq!(buffer.info.height, -5);
    assert_eq!(buffer.info.planes, 1);
    assert_eq!(buffer.info.bit_count, 32);
    assert_eq!(buffer.info.compression, 0);
}

#[test]
fn realloc_leaves_single_allocation_of_new_size() {
    let mut slot: Option<PixelBuffer> = None;
    resize_dib_section(&mut slot, 1280, 720);
    assert_eq!(slot.as_ref().unwrap().memory.len(), 1280 * 720 * 4);
    resize_dib_section(&mut slot, 5, 2);
    let buffer = slot.unwrap();
    assert_eq!(buffer.memory.len(), 5 * 2 * 4);
    assert_eq!(buffer.width, 5);
    assert_eq!(buffer.height, 2);
}

#[test]
fn top_down_row_count_is_negated_height() {
    for h in [1i32, 2, 3, 16, 720, 1080] {
        let mut slot: Option<PixelBuffer> = None;
        resize_dib_section(&mut slot, 2, h);
        let buffer = slot.unwrap();
        assert_eq!(buffer.info.height, -h);
        assert_eq!(buffer.height, h);
    }
}

#[test]
fn write_then_read_pixel_round_trips() {
    let mut slot: Option<PixelBuffer> = None;
    resize_dib_section(&mut slot, 4, 3);
    let mut buffer = slot.unwrap();
    buffer.write_pixel(2, 1, 0xDEADBEEF);
    assert_eq!(buffer.read_pixel(2, 1), 0xDEADBEEF);
    assert_eq!(buffer.read_pixel(1, 2), 0);
    assert_eq!(buffer.read_pixel(0, 0), 0);
}

#[test]
fn pixel_bytes_are_little_endian() {
    let mut slot: Option<PixelBuffer> = None;
    resize_dib_section(&mut slot, 2, 1);
    let mut buffer = slot.unwrap();
    buffer.write_pixel(1, 0, 0x0A0B0C0D);
    assert_eq!(buffer.memory[4], 0x0D);
    assert_eq!(buffer.memory[5], 0x0C);
    assert_eq!(buffer.memory[6], 0x0B);
    assert_eq!(buffer.memory[7], 0x0A);
}

#[test]
fn fill_sets_every_pixel() {
    let mut slot: Option<PixelBuffer> = None;
    resize_dib_section(&mut slot, 5, 4);
    let mut buffer = slot.unwrap();
    buffer.fill(0x11223344);
    for y in 0..4 {
        for x in 0..5 {
            assert_eq!(buffer.read_pixel(x, y), 0x11223344);
        }
    }
}

#[test]
fn default_buffer_is_empty() {
    let buffer = PixelBuffer::default();
    assert_eq!(buffer.width, 0);
    assert_eq!(buffer.height, 0);
    assert_eq!(buffer.memory.len(), 0);
    assert_eq!(buffer.bytes_per_pixel, 4);
    assert_eq!(buffer.info.height, 0);
}
