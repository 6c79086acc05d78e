//! The fractal and coloring selections, and the one coloring scheme whose
//! arithmetic is exact.
//!
//! Both selections are closed sum types that can be cycled forwards and
//! backwards through a total numbering of their variants. The Multibrot
//! exponent is carried in fixed point, as a signed count of hundredths, so
//! that the selection stays a plain value; only the escape-time iteration
//! itself needs it as a real number.

use vstd::prelude::*;
use vstd::string::StringExecFns;

use crate::framebuffer::Color;

verus! {

/// The Multibrot exponent that cycling to the variant starts from:
/// 400 hundredths, that is an exponent of four.
pub const DEFAULT_MULTIBROT_EXPONENT: i64 = 400;

/// Which fractal of the escape-time family is rendered. The Multibrot
/// exponent is a count of hundredths of the real exponent.
#[derive(Clone, Copy, Debug, PartialEq, Eq, Structural)]
pub enum FractalType {
    Mandelbrot,
    Multibrot(i64),
}

impl FractalType {
    /// The number the variant has in the cycling order.
    pub open spec fn spec_id(self) -> u8 {
        match self {
            FractalType::Mandelbrot => 0,
            FractalType::Multibrot(_) => 1,
        }
    }

    /// The variant a number names: its remainder modulo the number of
    /// variants decides, and a fresh Multibrot starts from the default
    /// exponent.
    pub open spec fn spec_from_id(id: u8) -> FractalType {
        if id % 2 == 0 {
            FractalType::Mandelbrot
        } else {
            FractalType::Multibrot(DEFAULT_MULTIBROT_EXPONENT)
        }
    }

    /// The variant one step forward in the cycling order. A fresh
    /// Multibrot starts from the default exponent, so cycling does not
    /// bring an adjusted exponent back.
    pub open spec fn spec_next(self) -> FractalType {
        FractalType::spec_from_id((self.spec_id() + 1) as u8)
    }

    /// The variant one step backward in the cycling order; with two
    /// variants, one step backward is one step forward.
    pub open spec fn spec_prev(self) -> FractalType {
        FractalType::spec_from_id((self.spec_id() + 1) as u8)
    }

    /// The number of this variant in the cycling order.
    pub fn id(&self) -> (id: u8)
        ensures
            id == self.spec_id(),
    {
        match self {
            FractalType::Mandelbrot => 0,
            FractalType::Multibrot(_) => 1,
        }
    }

    /// The variant numbered `id`, modulo the number of variants.
    pub fn from_id(id: u8) -> (t: FractalType)
        ensures
            t == FractalType::spec_from_id(id),
    {
        if id % 2 == 0 {
            FractalType::Mandelbrot
        } else {
            FractalType::Multibrot(DEFAULT_MULTIBROT_EXPONENT)
        }
    }

    /// The next variant in the cycling order.
    pub fn next(&self) -> (t: FractalType)
        ensures
            t == self.spec_next(),
    {
        FractalType::from_id(self.id() + 1)
    }

    /// The previous variant in the cycling order.
    pub fn prev(&self) -> (t: FractalType)
        ensures
            t == self.spec_prev(),
    {
        FractalType::from_id(self.id() + 1)
    }

    /// The selection after the Multibrot exponent moves by `by`
    /// hundredths: a Mandelbrot selection, or a step that would leave the
    /// representable range, stays as it is.
    pub open spec fn spec_change(self, by: int) -> FractalType {
        match self {
            FractalType::Mandelbrot => self,
            FractalType::Multibrot(e) => if i64::MIN <= e + by <= i64::MAX {
                FractalType::Multibrot((e + by) as i64)
            } else {
                self
            },
        }
    }

    /// Adjusts the Multibrot exponent by `by` hundredths; a Mandelbrot
    /// selection, or a step that would leave the representable range, is
    /// left unchanged.
    pub fn change_multi_parametr(&mut self, by: i64)
        ensures
            *final (self) == old(self).spec_change(by as int),
    {
        match *self {
            FractalType::Multibrot(exponent) => {
                if let Some(new_exponent) = exponent.checked_add(by) {
                    *self = FractalType::Multibrot(new_exponent);
                }
            },
            FractalType::Mandelbrot => {},
        }
    }

    /// The Multibrot exponent in hundredths, if one is selected.
    pub fn multi_parametr(&self) -> (e: Option<i64>)
        ensures
            e == match *self {
                FractalType::Multibrot(exponent) => Some(exponent),
                FractalType::Mandelbrot => None::<i64>,
            },
    {
        match *self {
            FractalType::Multibrot(exponent) => Some(exponent),
            FractalType::Mandelbrot => None,
        }
    }

    /// The name of the selected fractal.
    pub fn label(&self) -> (s: String)
        ensures
            self is Mandelbrot ==> s@ == "Mandelbrot"@,
            self is Multibrot ==> s@ == "Multibrot"@,
    {
        match self {
            FractalType::Mandelbrot => String::from_str("Mandelbrot"),
            FractalType::Multibrot(_) => String::from_str("Multibrot"),
        }
    }
}

impl Default for FractalType {
    /// The default fractal is the Mandelbrot set.
    fn default() -> (t: FractalType)
        ensures
            t == FractalType::Mandelbrot,
    {
        FractalType::Mandelbrot
    }
}

/// Cycling the fractal selection forwards and then backwards (or the
/// other way round) returns to the variant it started from; only a
/// Multibrot exponent is reset to the default on the way.
pub proof fn lemma_fractal_cycle(t: FractalType)
    ensures
        t.spec_next().spec_prev().spec_id() == t.spec_id(),
        t.spec_prev().spec_next().spec_id() == t.spec_id(),
        t.spec_next().spec_prev() == FractalType::spec_from_id(t.spec_id()),
{
}

/// How an escape time is turned into a color.
#[derive(Clone, Copy, Debug, PartialEq, Eq, Structural)]
pub enum ColorType {
    Histogram,
    LCH,
    OLC,
}

impl ColorType {
    /// The number the variant has in the cycling order.
    pub open spec fn spec_id(self) -> u8 {
        match self {
            ColorType::Histogram => 0,
            ColorType::LCH => 1,
            ColorType::OLC => 2,
        }
    }

    /// The variant a number names, modulo the number of variants.
    pub open spec fn spec_from_id(id: u8) -> ColorType {
        if id % 3 == 0 {
            ColorType::Histogram
        } else if id % 3 == 1 {
            ColorType::LCH
        } else {
            ColorType::OLC
        }
    }

    /// The variant one step forward in the cycling order.
    pub open spec fn spec_next(self) -> ColorType {
        ColorType::spec_from_id((self.spec_id() + 1) as u8)
    }

    /// The variant one step backward in the cycling order.
    pub open spec fn spec_prev(self) -> ColorType {
        ColorType::spec_from_id((self.spec_id() + 2) as u8)
    }

    /// The number of this variant in the cycling order.
    pub fn id(&self) -> (id: u8)
        ensures
            id == self.spec_id(),
    {
        match self {
            ColorType::Histogram => 0,
            ColorType::LCH => 1,
            ColorType::OLC => 2,
        }
    }

    /// The variant numbered `id`, modulo the number of variants.
    pub fn from_id(id: u8) -> (t: ColorType)
        ensures
            t == ColorType::spec_from_id(id),
    {
        if id % 3 == 0 {
            ColorType::Histogram
        } else if id % 3 == 1 {
            ColorType::LCH
        } else {
            ColorType::OLC
        }
    }

    /// The next variant in the cycling order.
    pub fn next(&self) -> (t: ColorType)
        ensures
            t == self.spec_next(),
    {
        ColorType::from_id(self.id() + 1)
    }

    /// The previous variant in the cycling order.
    pub fn prev(&self) -> (t: ColorType)
        ensures
            t == self.spec_prev(),
    {
        ColorType::from_id(self.id() + 2)
    }

    /// The name of the selected coloring scheme.
    pub fn label(&self) -> (s: String)
        ensures
            self is Histogram ==> s@ == "Histogram"@,
            self is LCH ==> s@ == "LCH"@,
            self is OLC ==> s@ == "OLC"@,
    {
        match self {
            ColorType::Histogram => String::from_str("Histogram"),
            ColorType::LCH => String::from_str("LCH"),
            ColorType::OLC => String::from_str("OLC"),
        }
    }
}

impl Default for ColorType {
    /// The default coloring scheme is the histogram one.
    fn default() -> (t: ColorType)
        ensures
            t == ColorType::Histogram,
    {
        ColorType::Histogram
    }
}

/// Cycling the coloring selection forwards and then backwards, or
/// backwards and then forwards, returns the variant it started from.
pub proof fn lemma_color_cycle(t: ColorType)
    ensures
        t.spec_next().spec_prev() == t,
        t.spec_prev().spec_next() == t,
{
}

/// The blue channel of histogram coloring: the escape time's share of the
/// iteration bound, as a fraction of 255, truncated.
pub open spec fn spec_histogram_blue(n: u32, max_iterations: u32) -> int {
    255 * n / (max_iterations as int)
}

/// Histogram coloring: black shading linearly to pure blue as the escape
/// time approaches the iteration bound.
pub fn color_histogram(n: u32, max_iterations: u32) -> (c: Color)
    requires
        1 <= max_iterations,
        n <= max_iterations,
    ensures
        c == Color::spec_new(0, 0, spec_histogram_blue(n, max_iterations) as u8),
        c.rgb() == (0u8, 0u8, spec_histogram_blue(n, max_iterations) as u8),
{
    proof {
        lemma_histogram_blue_bounds(n, max_iterations);
    }
    let blue: u64 = 255u64 * (n as u64) / (max_iterations as u64);
    Color::new(0, 0, blue as u8)
}

/// The histogram shade never leaves the byte range.
pub proof fn lemma_histogram_blue_bounds(n: u32, max_iterations: u32)
    by (nonlinear_arith)
    requires
        1 <= max_iterations,
        n <= max_iterations,
    ensures
        0 <= spec_histogram_blue(n, max_iterations) <= 255,
{
}

/// Histogram coloring is black at escape time zero and pure blue at the
/// iteration bound, whatever the bound is.
pub proof fn lemma_histogram_endpoints(max_iterations: u32)
    requires
        1 <= max_iterations,
    ensures
        spec_histogram_blue(0, max_iterations) == 0,
        spec_histogram_blue(max_iterations, max_iterations) == 255,
{
    assert(255 * max_iterations / (max_iterations as int) == 255) by (nonlinear_arith)
        requires
            1 <= max_iterations,
    ;
}

} // verus!
