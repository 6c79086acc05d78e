use fractaller::Backend;
use fractaller::Color;
use fractaller::FrameBuffer;

#[test]
fn new_buffer_is_white_and_sized() {
    let fb = FrameBuffer::new(4, 3);
    assert_eq!(fb.size(), (4, 3));
    let words = fb.raw();
    assert_eq!(words.len(), 12);
    assert!(words.iter().all(|w| *w == 0xFFFFFF));
}

#[test]
fn pos_index_round_trips() {
    let fb = FrameBuffer::new(7, 5);
    for y in 0..5 {
        for x in 0..7 {
            let index = fb.pos_to_index(x, y);
            assert_eq!(index, y * 7 + x);
            assert_eq!(fb.index_to_pos(index), (x, y));
        }
    }
    for index in 0..35 {
        let (x, y) = fb.index_to_pos(index);
        assert_eq!(fb.pos_to_index(x, y), index);
    }
}

#[test]
fn set_pixel_then_pixel_reads_it_back() {
    let mut fb = FrameBuffer::new(6, 4);
    let c = Color::new(1, 2, 3);
    fb.set_pixel(5, 3, c);
    assert_eq!(fb.pixel(5, 3), c);
    assert_eq!(fb.pixel(0, 0), Color::new(255, 255, 255));
}

#[test]
fn raw_is_row_major() {
    let mut fb = FrameBuffer::new(3, 2);
    fb.set_pixel(1, 0, Color::new(0, 0, 1));
    fb.set_pixel(0, 1, Color::new(0, 0, 2));
    let words = fb.raw();
    assert_eq!(words, vec![0xFFFFFF, 0x000001, 0xFFFFFF, 0x000002, 0xFFFFFF, 0xFFFFFF]);
}

#[test]
fn map_pixels_applies_position_function() {
    let mut fb = FrameBuffer::new(4, 4);
    fb.map_pixels(|x, y| Color::new(x as u8, y as u8, 0));
    for y in 0..4 {
        for x in 0..4 {
            assert_eq!(fb.pixel(x, y), Color::new(x as u8, y as u8, 0));
        }
    }
}

#[test]
fn parallel_map_computes_position_function() {
    let mut fb = FrameBuffer::new(5, 3);
    fb.map_pixels_parallel(|x, y| Color::new(2 * x as u8, 3 * y as u8, 9));
    for y in 0..3 {
        for x in 0..5 {
            assert_eq!(fb.pixel(x, y), Color::new(2 * x as u8, 3 * y as u8, 9));
        }
    }
}

#[test]
fn backends_produce_identical_frames() {
    let shade = |x: u32, y: u32| Color::new((x * 7 % 256) as u8, (y * 13 % 256) as u8, ((x + y) % 256) as u8);
    let mut sequential = FrameBuffer::new(33, 17);
    sequential.fill_pixels(Backend::Sequential, shade);
    let mut parallel = FrameBuffer::new(33, 17);
    parallel.fill_pixels(Backend::ParallelCpu, shade);
    assert_eq!(sequential.raw(), parallel.raw());
}

#[test]
fn crosshair_inverts_arms_only() {
    let mut fb = FrameBuffer::new(21, 21);
    fb.draw_crosshair();
    // The center pixel (10, 10) is inverted exactly once.
    assert_eq!(fb.pixel(10, 10), Color::new(0, 0, 0));
    // The ends of both arms are inverted.
    assert_eq!(fb.pixel(5, 10), Color::new(0, 0, 0));
    assert_eq!(fb.pixel(15, 10), Color::new(0, 0, 0));
    assert_eq!(fb.pixel(10, 5), Color::new(0, 0, 0));
    assert_eq!(fb.pixel(10, 15), Color::new(0, 0, 0));
    // One step beyond an arm, and off-axis pixels, are untouched.
    assert_eq!(fb.pixel(4, 10), Color::new(255, 255, 255));
    assert_eq!(fb.pixel(16, 10), Color::new(255, 255, 255));
    assert_eq!(fb.pixel(9, 9), Color::new(255, 255, 255));
    assert_eq!(fb.pixel(0, 0), Color::new(255, 255, 255));
}

#[test]
fn crosshair_is_clipped_on_a_tiny_buffer() {
    let mut fb = FrameBuffer::new(1, 1);
    fb.draw_crosshair();
    assert_eq!(fb.pixel(0, 0), Color::new(0, 0, 0));
}

#[test]
fn crosshair_twice_restores_the_frame() {
    let mut fb = FrameBuffer::new(13, 9);
    fb.map_pixels(|x, y| Color::new(x as u8, y as u8, 7));
    let before = fb.clone().raw();
    fb.draw_crosshair();
    fb.draw_crosshair();
    assert_eq!(fb.raw(), before);
}
