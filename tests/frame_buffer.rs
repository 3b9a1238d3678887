use flask::error::FlaskError;
use flask::frame_buffer::{check_buffer_size, FrameBuffer};

#[test]
fn new_buffer_is_blank() {
    let fb = FrameBuffer::new(4, 3);
    assert_eq!(fb.get_width(), 4);
    assert_eq!(fb.get_height(), 3);
    assert_eq!(fb.present(), &vec![0u8; 12]);
}

#[test]
fn out_of_range_writes_are_ignored() {
    let mut fb = FrameBuffer::new(4, 3);
    fb.set_pixel(1, 1, 7);
    let before = fb.present().clone();
    fb.set_pixel(4, 0, 9);
    fb.set_pixel(0, 3, 9);
    fb.set_pixel(u32::MAX, u32::MAX, 9);
    assert_eq!(fb.present(), &before);
}

#[test]
fn clear_then_writes_present_exactly_the_writes() {
    let mut fb = FrameBuffer::new(5, 4);
    fb.set_pixel(2, 2, 3);
    fb.clear_screen();
    let writes = [(0u32, 0u32, 1u8), (4, 3, 2), (2, 1, 5), (2, 1, 6), (9, 9, 7)];
    for (x, y, c) in writes {
        fb.set_pixel(x, y, c);
    }
    let frame = fb.present();
    for y in 0..4usize {
        for x in 0..5usize {
            let expected = match (x, y) {
                (0, 0) => 1,
                (4, 3) => 2,
                (2, 1) => 6,
                _ => 0,
            };
            assert_eq!(frame[y * 5 + x], expected);
        }
    }
}

#[test]
fn buffer_sizes_are_checked() {
    assert_eq!(check_buffer_size(320, 180), Ok(()));
    assert_eq!(check_buffer_size(322, 180), Err(FlaskError::UnalignedBufferWidth(322)));
    assert_eq!(check_buffer_size(0, 180), Err(FlaskError::EmptyBuffer));
    assert_eq!(check_buffer_size(4, 0), Err(FlaskError::EmptyBuffer));
}
