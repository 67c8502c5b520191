use rplace::canvas::{Canvas, OutOfBounds};

#[test]
fn new_canvas_is_all_zero() {
    let canvas = Canvas::new(64, 64);
    let bytes = canvas.read();
    assert_eq!(bytes.len(), 64 * 64 * 3);
    assert!(bytes.iter().all(|&b| b == 0));
}

#[test]
fn write_then_read_reflects_exactly_the_written_bytes() {
    let mut canvas = Canvas::new(64, 64);
    let before = canvas.read();
    assert_eq!(canvas.write_pixel(5, 7, (10, 20, 30)), Ok(()));
    let after = canvas.read();
    let offset = (5 + 7 * 64) * 3;
    assert_eq!(&after[offset..offset + 3], &[10, 20, 30]);
    for i in 0..after.len() {
        if i < offset || i >= offset + 3 {
            assert_eq!(after[i], before[i]);
        }
    }
}

#[test]
fn out_of_bounds_write_leaves_buffer_unchanged() {
    let mut canvas = Canvas::new(64, 64);
    assert_eq!(canvas.write_pixel(2, 3, (1, 2, 3)), Ok(()));
    let before = canvas.read();
    assert_eq!(canvas.write_pixel(64, 0, (9, 9, 9)), Err(OutOfBounds));
    assert_eq!(canvas.write_pixel(0, 64, (9, 9, 9)), Err(OutOfBounds));
    assert_eq!(canvas.write_pixel(100, 0, (9, 9, 9)), Err(OutOfBounds));
    assert_eq!(canvas.read(), before);
}

#[test]
fn boundary_coordinates_are_writable() {
    let mut canvas = Canvas::new(64, 64);
    assert_eq!(canvas.write_pixel(63, 63, (7, 8, 9)), Ok(()));
    let bytes = canvas.read();
    let offset = (63 + 63 * 64) * 3;
    assert_eq!(&bytes[offset..offset + 3], &[7, 8, 9]);
}

#[test]
fn many_writes_to_distinct_pixels_all_land() {
    let mut canvas = Canvas::new(64, 64);
    for x in 0..64usize {
        for y in 0..64usize {
            let c = ((x * 64 + y) % 251) as u8;
            assert_eq!(canvas.write_pixel(x, y, (c, c.wrapping_add(1), c.wrapping_add(2))), Ok(()));
        }
    }
    let bytes = canvas.read();
    for x in 0..64usize {
        for y in 0..64usize {
            let c = ((x * 64 + y) % 251) as u8;
            let offset = (x + y * 64) * 3;
            assert_eq!(&bytes[offset..offset + 3], &[c, c.wrapping_add(1), c.wrapping_add(2)]);
        }
    }
}

#[test]
fn interleaved_write_order_does_not_matter() {
    let mut forward = Canvas::new(8, 8);
    let mut backward = Canvas::new(8, 8);
    let writes: Vec<(usize, usize, (u8, u8, u8))> = (0..8usize)
        .flat_map(|x| (0..8usize).map(move |y| (x, y, ((x * 8 + y) as u8, x as u8, y as u8))))
        .collect();
    for &(x, y, rgb) in writes.iter() {
        assert_eq!(forward.write_pixel(x, y, rgb), Ok(()));
    }
    for &(x, y, rgb) in writes.iter().rev() {
        assert_eq!(backward.write_pixel(x, y, rgb), Ok(()));
    }
    assert_eq!(forward.read(), backward.read());
}

#[test]
fn from_bytes_keeps_matching_sized_buffer() {
    let mut source = Canvas::new(4, 4);
    source.write_pixel(1, 2, (11, 22, 33)).unwrap();
    let bytes = source.read();
    let restored = Canvas::from_bytes(4, 4, bytes.clone());
    assert_eq!(restored.read(), bytes);
}

#[test]
fn from_bytes_replaces_wrong_sized_buffer_with_zeroes() {
    let short = vec![1u8; 10];
    let canvas = Canvas::from_bytes(4, 4, short);
    let bytes = canvas.read();
    assert_eq!(bytes.len(), 4 * 4 * 3);
    assert!(bytes.iter().all(|&b| b == 0));

    let long = vec![1u8; 4 * 4 * 3 + 1];
    let canvas = Canvas::from_bytes(4, 4, long);
    let bytes = canvas.read();
    assert_eq!(bytes.len(), 4 * 4 * 3);
    assert!(bytes.iter().all(|&b| b == 0));
}
