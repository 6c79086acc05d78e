use fractaller::math::DEFAULT_MULTIBROT_EXPONENT;
use fractaller::math::color_histogram;
use fractaller::Color;
use fractaller::ColorType;
use fractaller::FractalType;

#[test]
fn fractal_ids_and_from_id_wrap() {
    assert_eq!(FractalType::Mandelbrot.id(), 0);
    assert_eq!(FractalType::Multibrot(123).id(), 1);
    assert_eq!(FractalType::from_id(0), FractalType::Mandelbrot);
    assert_eq!(
        FractalType::from_id(1),
        FractalType::Multibrot(DEFAULT_MULTIBROT_EXPONENT)
    );
    assert_eq!(FractalType::from_id(4), FractalType::Mandelbrot);
    assert_eq!(
        FractalType::from_id(7),
        FractalType::Multibrot(DEFAULT_MULTIBROT_EXPONENT)
    );
}

#[test]
fn fractal_cycling_alternates() {
    let m = FractalType::Mandelbrot;
    assert_eq!(m.next(), FractalType::Multibrot(DEFAULT_MULTIBROT_EXPONENT));
    assert_eq!(m.next().next(), m);
    assert_eq!(m.prev(), FractalType::Multibrot(DEFAULT_MULTIBROT_EXPONENT));
    assert_eq!(FractalType::Multibrot(999).next(), FractalType::Mandelbrot);
}

#[test]
fn multibrot_exponent_moves_by_step() {
    let mut t = FractalType::Multibrot(DEFAULT_MULTIBROT_EXPONENT);
    t.change_multi_parametr(5);
    assert_eq!(t, FractalType::Multibrot(405));
    t.change_multi_parametr(-10);
    assert_eq!(t, FractalType::Multibrot(395));
    assert_eq!(t.multi_parametr(), Some(395));
}

#[test]
fn mandelbrot_has_no_exponent() {
    let mut t = FractalType::Mandelbrot;
    t.change_multi_parametr(5);
    assert_eq!(t, FractalType::Mandelbrot);
    assert_eq!(t.multi_parametr(), None);
}

#[test]
fn exponent_step_out_of_range_is_ignored() {
    let mut t = FractalType::Multibrot(i64::MAX);
    t.change_multi_parametr(1);
    assert_eq!(t, FractalType::Multibrot(i64::MAX));
    let mut u = FractalType::Multibrot(i64::MIN);
    u.change_multi_parametr(-1);
    assert_eq!(u, FractalType::Multibrot(i64::MIN));
}

#[test]
fn color_type_cycling_is_a_three_cycle() {
    assert_eq!(ColorType::Histogram.next(), ColorType::LCH);
    assert_eq!(ColorType::LCH.next(), ColorType::OLC);
    assert_eq!(ColorType::OLC.next(), ColorType::Histogram);
    assert_eq!(ColorType::Histogram.prev(), ColorType::OLC);
    assert_eq!(ColorType::OLC.prev(), ColorType::LCH);
    for t in [ColorType::Histogram, ColorType::LCH, ColorType::OLC] {
        assert_eq!(t.next().prev(), t);
        assert_eq!(t.prev().next(), t);
    }
}

#[test]
fn color_type_ids_round_trip() {
    for t in [ColorType::Histogram, ColorType::LCH, ColorType::OLC] {
        assert_eq!(ColorType::from_id(t.id()), t);
    }
    assert_eq!(ColorType::from_id(5), ColorType::OLC);
}

#[test]
fn labels_name_the_variants() {
    assert_eq!(FractalType::Mandelbrot.label(), "Mandelbrot");
    assert_eq!(FractalType::Multibrot(400).label(), "Multibrot");
    assert_eq!(ColorType::Histogram.label(), "Histogram");
    assert_eq!(ColorType::LCH.label(), "LCH");
    assert_eq!(ColorType::OLC.label(), "OLC");
}

#[test]
fn defaults_are_mandelbrot_and_histogram() {
    assert_eq!(FractalType::default(), FractalType::Mandelbrot);
    assert_eq!(ColorType::default(), ColorType::Histogram);
}

#[test]
fn histogram_is_black_at_zero_and_blue_at_the_bound() {
    for max_iterations in [1u32, 2, 40, 1000, u32::MAX] {
        assert_eq!(color_histogram(0, max_iterations), Color::new(0, 0, 0));
        assert_eq!(
            color_histogram(max_iterations, max_iterations),
            Color::new(0, 0, 255)
        );
    }
}

#[test]
fn histogram_shades_linearly() {
    assert_eq!(color_histogram(1, 3), Color::new(0, 0, 85));
    assert_eq!(color_histogram(20, 40), Color::new(0, 0, 127));
    assert_eq!(color_histogram(1, 255), Color::new(0, 0, 1));
}
