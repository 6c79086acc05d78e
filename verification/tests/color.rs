use fractaller::Color;

#[test]
fn new_then_channels_round_trip() {
    let c = Color::new(0x12, 0x34, 0x56);
    assert_eq!(c.red(), 0x12);
    assert_eq!(c.green(), 0x34);
    assert_eq!(c.blue(), 0x56);
}

#[test]
fn packed_word_layout_is_rgb() {
    assert_eq!(Color::new(0x12, 0x34, 0x56).packed_word(), 0x123456);
    assert_eq!(Color::new(255, 255, 255).packed_word(), 0xFFFFFF);
    assert_eq!(Color::new(0, 0, 0).packed_word(), 0x000000);
    assert_eq!(Color::new(255, 0, 0).packed_word(), 0xFF0000);
    assert_eq!(Color::new(0, 255, 0).packed_word(), 0x00FF00);
    assert_eq!(Color::new(0, 0, 255).packed_word(), 0x0000FF);
}

#[test]
fn default_color_is_white() {
    let c = Color::default();
    assert_eq!((c.red(), c.green(), c.blue()), (255, 255, 255));
}

#[test]
fn invert_flips_every_channel() {
    let c = Color::new(10, 200, 0).invert();
    assert_eq!((c.red(), c.green(), c.blue()), (245, 55, 255));
}

#[test]
fn invert_twice_is_identity() {
    let c = Color::new(1, 128, 254);
    assert_eq!(c.invert().invert(), c);
}

#[test]
fn saturating_add_caps_each_channel() {
    let a = Color::new(200, 10, 255);
    let b = Color::new(100, 20, 1);
    let c = a.saturating_add(b);
    assert_eq!((c.red(), c.green(), c.blue()), (255, 30, 255));
}

#[test]
fn saturating_add_black_is_identity() {
    let a = Color::new(7, 77, 177);
    assert_eq!(a.saturating_add(Color::new(0, 0, 0)), a);
}

#[test]
fn scale_by_half_truncates() {
    let c = Color::new(100, 51, 255).scale(1, 2);
    assert_eq!((c.red(), c.green(), c.blue()), (50, 25, 127));
}

#[test]
fn scale_by_one_is_identity() {
    let c = Color::new(3, 14, 159);
    assert_eq!(c.scale(7, 7), c);
}

#[test]
fn scale_by_zero_is_black() {
    let c = Color::new(3, 14, 159).scale(0, 255);
    assert_eq!((c.red(), c.green(), c.blue()), (0, 0, 0));
}
