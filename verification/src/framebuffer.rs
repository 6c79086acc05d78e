//! The color model and the framebuffer.
//!
//! A [`Color`] is three 8-bit channels packed into one `u32` word laid out
//! as `0x00RRGGBB`, ready for presentation on a 32-bit surface. A
//! [`FrameBuffer`] owns a dense row-major grid of colors together with its
//! positive width and height.

use vstd::prelude::*;

use rayon::iter::IntoParallelIterator;
use rayon::iter::ParallelIterator;

verus! {

/// Which execution strategy computes a frame: one thread in row-major
/// order, or a CPU worker pool over the same index space. Both write by
/// position, so they fill a buffer identically.
#[derive(Clone, Copy, Debug, PartialEq, Eq, Structural)]
pub enum Backend {
    Sequential,
    ParallelCpu,
}

/// One pixel color: red, green and blue channels packed into a single
/// `u32` word as `0x00RRGGBB`. The top byte is always zero.
#[derive(Clone, Copy, Debug, PartialEq, Eq, Hash, Structural)]
pub struct Color {
    word: u32,
}

impl Color {
    /// The packed word, with the top byte zero.
    pub closed spec fn spec_word(self) -> u32 {
        self.word
    }

    /// The three channels `(red, green, blue)` of this color.
    pub closed spec fn rgb(self) -> (u8, u8, u8) {
        (
            ((self.word >> 16) & 0xFF) as u8,
            ((self.word >> 8) & 0xFF) as u8,
            (self.word & 0xFF) as u8,
        )
    }

    /// The color with every channel replaced by its distance from 255.
    pub open spec fn spec_invert(self) -> Color {
        Color::spec_new(
            (255 - self.rgb().0) as u8,
            (255 - self.rgb().1) as u8,
            (255 - self.rgb().2) as u8,
        )
    }

    /// The color whose channels are `(red, green, blue)`.
    pub closed spec fn spec_new(red: u8, green: u8, blue: u8) -> Color {
        Color { word: (blue as u32) | ((green as u32) << 8) | ((red as u32) << 16) }
    }

    /// A freshly packed word carries exactly the channels it was built from.
    pub proof fn lemma_new_rgb(red: u8, green: u8, blue: u8)
        ensures
            Color::spec_new(red, green, blue).rgb() == (red, green, blue),
            Color::spec_new(red, green, blue).spec_word() == blue + 0x100 * green + 0x10000
                * red,
            Color::spec_new(red, green, blue).spec_word() < 0x1000000,
    {
        let w = (blue as u32) | ((green as u32) << 8) | ((red as u32) << 16);
        assert((((w >> 16) & 0xFF) as u8) == red && (((w >> 8) & 0xFF) as u8) == green && ((w
            & 0xFF) as u8) == blue && w == blue + 0x100 * green + 0x10000 * red && w < 0x1000000)
            by (bit_vector)
            requires
                w == (blue as u32) | ((green as u32) << 8) | ((red as u32) << 16),
        ;
    }

    /// Two packed colors with the same channels are the same color.
    pub proof fn lemma_rgb_injective(a: Color, b: Color)
        requires
            a.packed(),
            b.packed(),
            a.rgb() == b.rgb(),
        ensures
            a == b,
    {
        let (wa, wb) = (a.word, b.word);
        assert(wa == wb) by (bit_vector)
            requires
                wa < 0x1000000,
                wb < 0x1000000,
                (((wa >> 16) & 0xFF) as u8) == (((wb >> 16) & 0xFF) as u8),
                (((wa >> 8) & 0xFF) as u8) == (((wb >> 8) & 0xFF) as u8),
                ((wa & 0xFF) as u8) == ((wb & 0xFF) as u8),
        ;
    }

    /// The top byte of the word is zero. This holds of every color the
    /// crate hands out; of a ghost value it has to be stated explicitly.
    #[verifier::type_invariant]
    pub closed spec fn packed(self) -> bool {
        self.word < 0x1000000
    }

    pub fn new(red: u8, green: u8, blue: u8) -> (c: Color)
        ensures
            c == Color::spec_new(red, green, blue),
            c.rgb() == (red, green, blue),
    {
        proof {
            Color::lemma_new_rgb(red, green, blue);
        }
        Color { word: (blue as u32) | ((green as u32) << 8) | ((red as u32) << 16) }
    }

    pub fn red(&self) -> (r: u8)
        ensures
            r == self.rgb().0,
    {
        proof {
            let w = self.word;
            assert((((w & 0xFF0000) >> 16) as u8) == (((w >> 16) & 0xFF) as u8)) by (bit_vector);
        }
        #[verifier::truncate]
        (((self.word & 0xFF0000) >> 16) as u8)
    }

    pub fn green(&self) -> (g: u8)
        ensures
            g == self.rgb().1,
    {
        proof {
            let w = self.word;
            assert((((w & 0xFF00) >> 8) as u8) == (((w >> 8) & 0xFF) as u8)) by (bit_vector);
        }
        #[verifier::truncate]
        (((self.word & 0xFF00) >> 8) as u8)
    }

    pub fn blue(&self) -> (b: u8)
        ensures
            b == self.rgb().2,
    {
        #[verifier::truncate]
        ((self.word & 0xFF) as u8)
    }

    /// The packed `0x00RRGGBB` word of this color.
    pub fn packed_word(&self) -> (w: u32)
        ensures
            w == self.spec_word(),
            w == self.rgb().2 + 0x100 * self.rgb().1 + 0x10000 * self.rgb().0,
    {
        proof {
            use_type_invariant(self);
            let w = self.word;
            assert(w == (w & 0xFF) + 0x100 * ((w >> 8) & 0xFF) + 0x10000 * ((w >> 16) & 0xFF) && (w
                & 0xFF) < 0x100 && ((w >> 8) & 0xFF) < 0x100 && ((w >> 16) & 0xFF) < 0x100)
                by (bit_vector)
                requires
                    w < 0x1000000,
            ;
        }
        self.word
    }

    /// Channel-wise saturating addition of two colors.
    pub fn saturating_add(self, rhs: Color) -> (c: Color)
        ensures
            c.rgb().0 == if self.rgb().0 + rhs.rgb().0 <= 255 {
                self.rgb().0 + rhs.rgb().0
            } else {
                255int
            },
            c.rgb().1 == if self.rgb().1 + rhs.rgb().1 <= 255 {
                self.rgb().1 + rhs.rgb().1
            } else {
                255int
            },
            c.rgb().2 == if self.rgb().2 + rhs.rgb().2 <= 255 {
                self.rgb().2 + rhs.rgb().2
            } else {
                255int
            },
    {
        Color::new(
            saturating_add_u8(self.red(), rhs.red()),
            saturating_add_u8(self.green(), rhs.green()),
            saturating_add_u8(self.blue(), rhs.blue()),
        )
    }

    /// Linear intensity scaling: each channel is multiplied by
    /// `numer / denom` and truncated. The factor must not exceed one.
    pub fn scale(&self, numer: u32, denom: u32) -> (c: Color)
        requires
            0 < denom,
            numer <= denom,
        ensures
            c.rgb().0 == self.rgb().0 as int * numer as int / denom as int,
            c.rgb().1 == self.rgb().1 as int * numer as int / denom as int,
            c.rgb().2 == self.rgb().2 as int * numer as int / denom as int,
    {
        Color::new(
            scale_channel(self.red(), numer, denom),
            scale_channel(self.green(), numer, denom),
            scale_channel(self.blue(), numer, denom),
        )
    }

    /// The color with every channel replaced by its distance from 255.
    pub fn invert(&self) -> (c: Color)
        ensures
            c == self.spec_invert(),
            c.rgb().0 == 255 - self.rgb().0,
            c.rgb().1 == 255 - self.rgb().1,
            c.rgb().2 == 255 - self.rgb().2,
    {
        Color::new(255 - self.red(), 255 - self.green(), 255 - self.blue())
    }

    /// Inverting twice gives the original color back.
    pub proof fn lemma_invert_involution(c: Color)
        requires
            c.packed(),
        ensures
            c.spec_invert().spec_invert() == c,
    {
        let (r, g, b) = c.rgb();
        Color::lemma_new_rgb((255 - r) as u8, (255 - g) as u8, (255 - b) as u8);
        Color::lemma_new_rgb(r, g, b);
        Color::lemma_rgb_injective(c.spec_invert().spec_invert(), c);
    }
}

impl Default for Color {
    /// The default color is white.
    fn default() -> (c: Color)
        ensures
            c.rgb() == (255u8, 255u8, 255u8),
    {
        Color::new(255, 255, 255)
    }
}

fn saturating_add_u8(a: u8, b: u8) -> (c: u8)
    ensures
        c == if a + b <= 255 {
            a + b
        } else {
            255int
        },
{
    if a <= 255 - b {
        a + b
    } else {
        255
    }
}

/// A dense row-major grid of [`Color`] with a positive width and height.
/// The pixel at `(x, y)` sits at linear index `y * width + x`.
#[derive(Clone, Debug)]
pub struct FrameBuffer {
    data: Vec<Color>,
    width: u32,
    height: u32,
}

impl View for FrameBuffer {
    type V = Seq<Color>;

    closed spec fn view(&self) -> Seq<Color> {
        self.data@
    }
}

/// Whether `(x, y)` lies on the centered crosshair: a vertical and a
/// horizontal arm of five pixels to each side of the center pixel
/// `(w / 2, h / 2)`.
pub open spec fn on_crosshair(x: int, y: int, w: int, h: int) -> bool {
    let cx = w / 2;
    let cy = h / 2;
    (x == cx && cy - 5 <= y <= cy + 5) || (y == cy && cx - 5 <= x <= cx + 5)
}

/// Mapping a position to its row-major index and back returns the position.
pub proof fn lemma_pos_index_roundtrip(x: u32, y: u32, w: u32, h: u32)
    by (nonlinear_arith)
    requires
        x < w,
        y < h,
    ensures
        (y * w + x) as int % (w as int) == x,
        (y * w + x) as int / (w as int) == y,
        y * w + x < w * h,
{
}

/// Mapping a row-major index to its position and back returns the index.
pub proof fn lemma_index_pos_roundtrip(index: u32, w: u32, h: u32)
    by (nonlinear_arith)
    requires
        0 < w,
        index < w * h,
    ensures
        index as int % (w as int) < w,
        index as int / (w as int) < h,
        (index as int / (w as int)) * w + index as int % (w as int) == index,
{
}

/// A row-major index below `w * h` decomposes into a column below `w` and
/// a row below `h`.
proof fn lemma_linear_index(i: int, w: int, h: int)
    by (nonlinear_arith)
    requires
        0 < w,
        0 <= i < w * h,
    ensures
        0 <= i % w < w,
        0 <= i / w < h,
        i == (i / w) * w + i % w,
{
}

impl FrameBuffer {
    /// The width of the buffer in pixels.
    pub closed spec fn spec_width(self) -> u32 {
        self.width
    }

    /// The height of the buffer in pixels.
    pub closed spec fn spec_height(self) -> u32 {
        self.height
    }

    /// Both dimensions are positive, the pixel count fits in a `u32`, and
    /// the data holds exactly one color per pixel.
    pub closed spec fn wf(self) -> bool {
        1 <= self.width && 1 <= self.height && self.width * self.height <= u32::MAX && self.data@.len()
            == self.width * self.height
    }

    /// A buffer of the given positive size with every pixel set to the
    /// default (white) color.
    pub fn new(width: u32, height: u32) -> (fb: FrameBuffer)
        requires
            1 <= width,
            1 <= height,
            width * height <= u32::MAX,
        ensures
            fb.wf(),
            fb.spec_width() == width,
            fb.spec_height() == height,
            fb@.len() == width * height,
            forall|i: int| 0 <= i < fb@.len() ==> fb@[i].rgb() == (255u8, 255u8, 255u8),
    {
        let total: u32 = width * height;
        let mut data: Vec<Color> = Vec::new();
        let mut i: u32 = 0;
        while i < total
            invariant
                i <= total,
                data@.len() == i,
                forall|j: int| 0 <= j < i ==> data@[j].rgb() == (255u8, 255u8, 255u8),
            decreases total - i,
        {
            data.push(Color::default());
            i = i + 1;
        }
        FrameBuffer { data, width, height }
    }

    /// The `(width, height)` of the buffer.
    pub fn size(&self) -> (s: (u32, u32))
        ensures
            s.0 == self.spec_width(),
            s.1 == self.spec_height(),
    {
        (self.width, self.height)
    }

    /// The row-major linear index of the position `(x, y)`.
    pub fn pos_to_index(&self, x: u32, y: u32) -> (index: u32)
        requires
            self.wf(),
            x < self.spec_width(),
            y < self.spec_height(),
        ensures
            index == y * self.spec_width() + x,
            index < self@.len(),
    {
        proof {
            lemma_pos_index_roundtrip(x, y, self.width, self.height);
        }
        y * self.width + x
    }

    /// The position `(x, y)` of a row-major linear index.
    pub fn index_to_pos(&self, index: u32) -> (pos: (u32, u32))
        requires
            self.wf(),
            index < self@.len(),
        ensures
            pos.0 == index as int % (self.spec_width() as int),
            pos.1 == index as int / (self.spec_width() as int),
            pos.0 < self.spec_width(),
            pos.1 < self.spec_height(),
            pos.1 * self.spec_width() + pos.0 == index,
    {
        proof {
            lemma_index_pos_roundtrip(index, self.width, self.height);
            vstd::arithmetic::div_mod::lemma_fundamental_div_mod(
                index as int,
                self.width as int,
            );
            vstd::arithmetic::div_mod::lemma_fundamental_div_mod_converse(
                index as int - index as int % (self.width as int),
                self.width as int,
                index as int / (self.width as int),
                0,
            );
        }
        let x = index % self.width;
        let y = (index - x) / self.width;
        (x, y)
    }

    /// The color of the pixel at `(x, y)`.
    pub fn pixel(&self, x: u32, y: u32) -> (c: Color)
        requires
            self.wf(),
            x < self.spec_width(),
            y < self.spec_height(),
        ensures
            c == self@[y * self.spec_width() + x],
    {
        let index = self.pos_to_index(x, y);
        self.data[index as usize]
    }

    /// Replaces the color of the pixel at `(x, y)`.
    pub fn set_pixel(&mut self, x: u32, y: u32, c: Color)
        requires
            old(self).wf(),
            x < old(self).spec_width(),
            y < old(self).spec_height(),
        ensures
            final (self).wf(),
            final (self).spec_width() == old(self).spec_width(),
            final (self).spec_height() == old(self).spec_height(),
            final (self)@ == old(self)@.update((y * old(self).spec_width() + x) as int, c),
    {
        let index = self.pos_to_index(x, y);
        self.data[index as usize] = c;
    }

    /// Recomputes every pixel as `f(x, y)` of its position, in row-major
    /// order.
    pub fn map_pixels<F: Fn(u32, u32) -> Color>(&mut self, f: F)
        requires
            old(self).wf(),
            forall|x: u32, y: u32|
                x < old(self).spec_width() && y < old(self).spec_height() ==> call_requires(
                    f,
                    (x, y),
                ),
        ensures
            final (self).wf(),
            final (self).spec_width() == old(self).spec_width(),
            final (self).spec_height() == old(self).spec_height(),
            final (self)@.len() == old(self)@.len(),
            forall|i: int|
                0 <= i < final (self)@.len() ==> call_ensures(
                    f,
                    (
                        (i % (old(self).spec_width() as int)) as u32,
                        (i / (old(self).spec_width() as int)) as u32,
                    ),
                    #[trigger] final (self)@[i],
                ),
    {
        let w = self.width;
        let h = self.height;
        let total: u32 = w * h;
        let mut data: Vec<Color> = Vec::new();
        let mut i: u32 = 0;
        while i < total
            invariant
                i <= total,
                total == w * h,
                0 < w,
                data@.len() == i,
                forall|x: u32, y: u32| x < w && y < h ==> call_requires(f, (x, y)),
                forall|j: int|
                    0 <= j < i ==> call_ensures(
                        f,
                        ((j % (w as int)) as u32, (j / (w as int)) as u32),
                        #[trigger] data@[j],
                    ),
            decreases total - i,
        {
            proof {
                lemma_index_pos_roundtrip(i, w, h);
            }
            let x = i % w;
            let y = i / w;
            data.push(f(x, y));
            i = i + 1;
        }
        self.data = data;
    }

    /// Recomputes every pixel as `f(x, y)` of its position, partitioning
    /// the index space across a CPU worker pool. Results land by position,
    /// so the frame is the same one the sequential traversal produces.
    pub fn map_pixels_parallel<F: Fn(u32, u32) -> Color + Send + Sync>(&mut self, f: F)
        requires
            old(self).wf(),
            forall|x: u32, y: u32|
                x < old(self).spec_width() && y < old(self).spec_height() ==> call_requires(
                    f,
                    (x, y),
                ),
        ensures
            final (self).wf(),
            final (self).spec_width() == old(self).spec_width(),
            final (self).spec_height() == old(self).spec_height(),
            final (self)@.len() == old(self)@.len(),
            forall|i: int|
                0 <= i < final (self)@.len() ==> call_ensures(
                    f,
                    (
                        (i % (old(self).spec_width() as int)) as u32,
                        (i / (old(self).spec_width() as int)) as u32,
                    ),
                    #[trigger] final (self)@[i],
                ),
    {
        let total: u32 = self.width * self.height;
        let data = par_map_positions(total, self.width, self.height, f);
        self.data = data;
    }

    /// Recomputes every pixel as `f(x, y)` of its position under the
    /// chosen strategy. The contract is the same whichever backend runs:
    /// the strategies are interchangeable.
    pub fn fill_pixels<F: Fn(u32, u32) -> Color + Send + Sync>(&mut self, backend: Backend, f: F)
        requires
            old(self).wf(),
            forall|x: u32, y: u32|
                x < old(self).spec_width() && y < old(self).spec_height() ==> call_requires(
                    f,
                    (x, y),
                ),
        ensures
            final (self).wf(),
            final (self).spec_width() == old(self).spec_width(),
            final (self).spec_height() == old(self).spec_height(),
            final (self)@.len() == old(self)@.len(),
            forall|i: int|
                0 <= i < final (self)@.len() ==> call_ensures(
                    f,
                    (
                        (i % (old(self).spec_width() as int)) as u32,
                        (i / (old(self).spec_width() as int)) as u32,
                    ),
                    #[trigger] final (self)@[i],
                ),
    {
        match backend {
            Backend::Sequential => self.map_pixels(f),
            Backend::ParallelCpu => self.map_pixels_parallel(f),
        }
    }

    /// The buffer as one packed `0x00RRGGBB` word per pixel, row-major.
    pub fn raw(self) -> (r: Vec<u32>)
        ensures
            r@.len() == self@.len(),
            forall|i: int|
                0 <= i < r@.len() ==> #[trigger] r@[i] == self@[i].rgb().2
                    + 0x100 * self@[i].rgb().1 + 0x10000 * self@[i].rgb().0,
    {
        let mut words: Vec<u32> = Vec::new();
        let mut i: usize = 0;
        let n = self.data.len();
        while i < n
            invariant
                i <= n,
                n == self@.len(),
                words@.len() == i,
                forall|j: int|
                    0 <= j < i ==> #[trigger] words@[j] == self@[j].rgb().2
                        + 0x100 * self@[j].rgb().1 + 0x10000 * self@[j].rgb().0,
            decreases n - i,
        {
            words.push(self.data[i].packed_word());
            i = i + 1;
        }
        words
    }

    /// Inverts the pixels on the centered crosshair, leaving every other
    /// pixel unchanged. Arms that stick out of a small buffer are clipped.
    pub fn draw_crosshair(&mut self)
        requires
            old(self).wf(),
        ensures
            final (self).wf(),
            final (self).spec_width() == old(self).spec_width(),
            final (self).spec_height() == old(self).spec_height(),
            final (self)@.len() == old(self)@.len(),
            forall|i: int|
                0 <= i < final (self)@.len() ==> #[trigger] final (self)@[i] == if on_crosshair(
                    i % (old(self).spec_width() as int),
                    i / (old(self).spec_width() as int),
                    old(self).spec_width() as int,
                    old(self).spec_height() as int,
                ) {
                    old(self)@[i].spec_invert()
                } else {
                    old(self)@[i]
                },
    {
        let w = self.width;
        let h = self.height;
        let cx = w / 2;
        let cy = h / 2;
        let ghost w_i = w as int;
        let ghost h_i = h as int;
        let ghost orig = self@;
        let mut k: u32 = 0;
        while k < 11
            invariant
                k <= 11,
                self.wf(),
                self.spec_width() == w,
                self.spec_height() == h,
                cx == w_i / 2,
                cy == h_i / 2,
                w_i == w as int,
                h_i == h as int,
                orig.len() == self@.len(),
                forall|i: int|
                    0 <= i < self@.len() ==> #[trigger] self@[i] == if i % w_i == cx && h_i / 2 - 5
                        <= i / w_i < h_i / 2 + (k as int) - 5 {
                        orig[i].spec_invert()
                    } else {
                        orig[i]
                    },
            decreases 11 - k,
        {
            let ghost yy_i = h_i / 2 + k as int - 5;
            let yy: i64 = cy as i64 + k as i64 - 5;
            if 0 <= yy && yy < h as i64 {
                let y = yy as u32;
                proof {
                    lemma_pos_index_roundtrip(cx, y, w, h);
                }
                let c = self.pixel(cx, y);
                self.set_pixel(cx, y, c.invert());
                proof {
                    let ghost idx = yy_i * w_i + cx;
                    assert forall|i: int| 0 <= i < self@.len() implies #[trigger] self@[i] == (
                    if i % w_i == cx && h_i / 2 - 5 <= i / w_i < h_i / 2 + (k + 1) - 5 {
                        orig[i].spec_invert()
                    } else {
                        orig[i]
                    }) by {
                        lemma_linear_index(i, w_i, h_i);
                        if i != idx && i % w_i == cx && i / w_i == yy_i {
                            assert(i == (i / w_i) * w_i + i % w_i);
                        }
                    }
                }
            } else {
                proof {
                    assert forall|i: int| 0 <= i < self@.len() implies #[trigger] self@[i] == (
                    if i % w_i == cx && h_i / 2 - 5 <= i / w_i < h_i / 2 + (k + 1) - 5 {
                        orig[i].spec_invert()
                    } else {
                        orig[i]
                    }) by {
                        lemma_linear_index(i, w_i, h_i);
                    }
                }
            }
            k = k + 1;
        }
        let mut m: u32 = 0;
        while m < 11
            invariant
                m <= 11,
                self.wf(),
                self.spec_width() == w,
                self.spec_height() == h,
                cx == w_i / 2,
                cy == h_i / 2,
                w_i == w as int,
                h_i == h as int,
                orig.len() == self@.len(),
                forall|i: int|
                    0 <= i < self@.len() ==> #[trigger] self@[i] == if (i % w_i == cx && h_i / 2 - 5
                        <= i / w_i <= h_i / 2 + 5) || (i / w_i == cy && i % w_i != cx && w_i / 2 - 5
                        <= i % w_i < w_i / 2 + (m as int) - 5) {
                        orig[i].spec_invert()
                    } else {
                        orig[i]
                    },
            decreases 11 - m,
        {
            let ghost xx_i = w_i / 2 + m as int - 5;
            let xx: i64 = cx as i64 + m as i64 - 5;
            if 0 <= xx && xx < w as i64 && xx != cx as i64 {
                let x = xx as u32;
                proof {
                    lemma_pos_index_roundtrip(x, cy, w, h);
                }
                let c = self.pixel(x, cy);
                self.set_pixel(x, cy, c.invert());
                proof {
                    let ghost idx = cy as int * w_i + xx_i;
                    assert forall|i: int| 0 <= i < self@.len() implies #[trigger] self@[i] == (
                    if (i % w_i == cx && h_i / 2 - 5 <= i / w_i <= h_i / 2 + 5) || (i / w_i == cy
                        && i % w_i != cx && w_i / 2 - 5 <= i % w_i < w_i / 2 + (m + 1) - 5) {
                        orig[i].spec_invert()
                    } else {
                        orig[i]
                    }) by {
                        lemma_linear_index(i, w_i, h_i);
                        if i != idx && i % w_i == xx_i && i / w_i == cy {
                            assert(i == (i / w_i) * w_i + i % w_i);
                        }
                    }
                }
            } else {
                proof {
                    assert forall|i: int| 0 <= i < self@.len() implies #[trigger] self@[i] == (
                    if (i % w_i == cx && h_i / 2 - 5 <= i / w_i <= h_i / 2 + 5) || (i / w_i == cy
                        && i % w_i != cx && w_i / 2 - 5 <= i % w_i < w_i / 2 + (m + 1) - 5) {
                        orig[i].spec_invert()
                    } else {
                        orig[i]
                    }) by {
                        lemma_linear_index(i, w_i, h_i);
                    }
                }
            }
            m = m + 1;
        }
    }
}

/// One pixel of a frame: `f` applied to the position of `index`.
fn pixel_at<F: Fn(u32, u32) -> Color>(f: &F, w: u32, h: u32, index: u32) -> (c: Color)
    requires
        0 < w,
        index < w * h,
        forall|x: u32, y: u32| x < w && y < h ==> call_requires(*f, (x, y)),
    ensures
        call_ensures(
            *f,
            ((index as int % (w as int)) as u32, (index as int / (w as int)) as u32),
            c,
        ),
{
    proof {
        lemma_index_pos_roundtrip(index, w, h);
    }
    f(index % w, index / w)
}

/// Relies on rayon's `into_par_iter`, `map` and `collect` over an integer
/// range: a range is an indexed parallel iterator, `map` keeps the
/// indexing, and `collect` writes each result at its own index, so the
/// vector holds one `pixel_at` result per index, in index order.
#[verifier::external_body]
fn par_map_positions<F: Fn(u32, u32) -> Color + Send + Sync>(
    total: u32,
    w: u32,
    h: u32,
    f: F,
) -> (r: Vec<Color>)
    requires
        0 < w,
        total == w * h,
        forall|x: u32, y: u32| x < w && y < h ==> call_requires(f, (x, y)),
    ensures
        r@.len() == total,
        forall|i: int|
            0 <= i < r@.len() ==> call_ensures(
                f,
                ((i % (w as int)) as u32, (i / (w as int)) as u32),
                #[trigger] r@[i],
            ),
{
    (0..total).into_par_iter().map(|index| pixel_at(&f, w, h, index)).collect()
}

/// Whatever order a strategy visits the pixels in, two frames whose every
/// slot holds an output of the same deterministic per-pixel function are
/// the same frame.
pub proof fn lemma_backends_agree<F: Fn(u32, u32) -> Color>(
    f: F,
    a: Seq<Color>,
    b: Seq<Color>,
    w: u32,
)
    requires
        0 < w,
        a.len() == b.len(),
        forall|i: int|
            0 <= i < a.len() ==> call_ensures(
                f,
                ((i % (w as int)) as u32, (i / (w as int)) as u32),
                #[trigger] a[i],
            ),
        forall|i: int|
            0 <= i < b.len() ==> call_ensures(
                f,
                ((i % (w as int)) as u32, (i / (w as int)) as u32),
                #[trigger] b[i],
            ),
        forall|x: u32, y: u32, c1: Color, c2: Color|
            #[trigger] call_ensures(f, (x, y), c1) && #[trigger] call_ensures(f, (x, y), c2)
                ==> c1 == c2,
    ensures
        a == b,
{
    assert forall|i: int| 0 <= i < a.len() implies a[i] == b[i] by {
        let pos = ((i % (w as int)) as u32, (i / (w as int)) as u32);
        assert(call_ensures(f, pos, a[i]));
        assert(call_ensures(f, pos, b[i]));
    }
    assert(a =~= b);
}

fn scale_channel(channel: u8, numer: u32, denom: u32) -> (c: u8)
    requires
        0 < denom,
        numer <= denom,
    ensures
        c == channel as int * numer as int / denom as int,
{
    proof {
        assert((channel as int) * (numer as int) <= 255 * 0xFFFF_FFFFint) by (nonlinear_arith)
            requires
                channel <= 255,
                numer <= 0xFFFF_FFFF,
        ;
    }
    let wide: u64 = (channel as u64) * (numer as u64) / (denom as u64);
    proof {
        assert(channel as int * numer as int / denom as int <= channel) by (nonlinear_arith)
            requires
                0 < denom,
                numer <= denom,
                channel <= 255,
        ;
    }
    wide as u8
}

} // verus!
