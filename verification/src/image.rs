//! The frame buffer: displayable colours, their place in the buffer and the
//! byte and word layouts in which a finished frame leaves the renderer.

use vstd::arithmetic::div_mod::{lemma_fundamental_div_mod_converse};
use vstd::prelude::*;

verus! {

/// A displayable colour: red, green and blue, each from 0 to 255.
#[derive(Debug, Clone, Copy, PartialEq, Eq, Structural)]
pub struct Rgb {
    pub r: u8,
    pub g: u8,
    pub b: u8,
}

impl Rgb {
    /// The colour as one number: red above green above blue, eight bits each.
    pub open spec fn packed(self) -> u32 {
        (self.r as u32 * 0x10000 + self.g as u32 * 0x100 + self.b as u32) as u32
    }

    /// The channel with the given number: 0 is red, 1 green, 2 blue.
    pub open spec fn channel(self, k: int) -> u8 {
        if k == 0 {
            self.r
        } else if k == 1 {
            self.g
        } else {
            self.b
        }
    }

    /// Black.
    pub fn black() -> (c: Rgb)
        ensures
            c == (Rgb { r: 0, g: 0, b: 0 }),
    {
        Rgb { r: 0, g: 0, b: 0 }
    }

    /// Packs the colour into the low 24 bits of a word, as `0RGB`.
    pub fn to_u32(&self) -> (p: u32)
        ensures
            p == self.packed(),
            p <= 0xFF_FFFF,
            (p >> 16) & 0xFF == self.r,
            (p >> 8) & 0xFF == self.g,
            p & 0xFF == self.b,
    {
        let r: u32 = self.r as u32;
        let g: u32 = self.g as u32;
        let b: u32 = self.b as u32;
        let p: u32 = (r << 16) | (g << 8) | b;
        proof {
            assert(p == r * 0x10000 + g * 0x100 + b && p <= 0xFF_FFFF && (p >> 16) & 0xFF == r && (p
                >> 8) & 0xFF == g && p & 0xFF == b) by (bit_vector)
                requires
                    p == (r << 16) | (g << 8) | b,
                    r <= 0xFF,
                    g <= 0xFF,
                    b <= 0xFF,
            ;
        }
        p
    }
}

/// A frame of `width` by `height` pixels. Pixel `(i, j)` is the one in column
/// `i`, counted from the left, of row `j`, counted from the bottom.
pub struct Image {
    pixels: Vec<Rgb>,
    width: usize,
    height: usize,
}

impl View for Image {
    type V = Seq<Rgb>;

    /// The pixels row by row, bottom row first.
    closed spec fn view(&self) -> Seq<Rgb> {
        self.pixels@
    }
}

impl Image {
    #[verifier::type_invariant]
    spec fn sized(self) -> bool {
        self.pixels.len() == self.width * self.height
    }

    /// Number of columns.
    pub closed spec fn spec_width(&self) -> usize {
        self.width
    }

    /// Number of rows.
    pub closed spec fn spec_height(&self) -> usize {
        self.height
    }

    /// The pixel in column `i` of row `j`, rows counted from the bottom.
    pub open spec fn pixel(&self, i: int, j: int) -> Rgb {
        self@[j * self.width() + i]
    }

    /// The pixels row by row, top row first.
    pub open spec fn scanlines(&self) -> Seq<Rgb> {
        Seq::new(
            (self.width() * self.height()) as nat,
            |k: int| self.pixel(k % (self.width() as int), self.height() - 1 - k / (self.width() as int)),
        )
    }

    /// Number of columns.
    #[verifier::when_used_as_spec(spec_width)]
    pub fn width(&self) -> (w: usize)
        ensures
            w == self.width(),
            self@.len() == self.width() * self.height(),
    {
        proof {
            use_type_invariant(self);
        }
        self.width
    }

    /// Number of rows.
    #[verifier::when_used_as_spec(spec_height)]
    pub fn height(&self) -> (h: usize)
        ensures
            h == self.height(),
            self@.len() == self.width() * self.height(),
    {
        proof {
            use_type_invariant(self);
        }
        self.height
    }

    /// A black frame of the given size.
    pub fn new(width: usize, height: usize) -> (image: Image)
        requires
            width * height <= usize::MAX,
        ensures
            image.width() == width,
            image.height() == height,
            image@.len() == width * height,
            forall|k: int| 0 <= k < image@.len() ==> image@[k] == (Rgb { r: 0, g: 0, b: 0 }),
    {
        Image { pixels: vec![Rgb::black(); width * height], width, height }
    }

    /// The pixel in column `i` of row `j`, to read or to overwrite.
    pub fn at(&mut self, i: usize, j: usize) -> (pixel: &mut Rgb)
        requires
            j * old(self).width() + i < old(self).width() * old(self).height(),
        ensures
            *pixel == old(self).pixel(i as int, j as int),
            final(self)@ == old(self)@.update(j * old(self).width() + i, *final(pixel)),
            final(self).width() == old(self).width(),
            final(self).height() == old(self).height(),
    {
        proof {
            use_type_invariant(&*self);
        }
        let k: usize = j * self.width + i;
        &mut self.pixels[k]
    }

    /// The pixel in column `i` of row `j`.
    pub fn get(&self, i: usize, j: usize) -> (pixel: Rgb)
        requires
            j * self.width() + i < self.width() * self.height(),
        ensures
            pixel == self.pixel(i as int, j as int),
    {
        proof {
            use_type_invariant(self);
        }
        self.pixels[j * self.width + i]
    }

    /// The pixels row by row, top row first: the order in which a frame is
    /// stored and shown.
    pub fn top_down(&self) -> (out: Vec<Rgb>)
        ensures
            out@ == self.scanlines(),
    {
        proof {
            use_type_invariant(self);
        }
        let w = self.width;
        let h = self.height;
        let ghost goal = self.scanlines();
        let mut out: Vec<Rgb> = Vec::new();
        let mut row: usize = 0;
        while row < h
            invariant
                row <= h,
                w == self.width(),
                h == self.height(),
                self.pixels.len() == w * h,
                self@ == self.pixels@,
                goal == self.scanlines(),
                out@ == goal.take(row * w),
            decreases h - row,
        {
            let j: usize = h - 1 - row;
            let mut col: usize = 0;
            proof {
                assert(row * w + w <= w * h && 0 <= row * w && 0 <= j * w && j * w + w <= w * h)
                    by (nonlinear_arith)
                    requires
                        row < h,
                        j == h - 1 - row,
                ;
            }
            while col < w
                invariant
                    col <= w,
                    row < h,
                    j == h - 1 - row,
                    w == self.width(),
                    h == self.height(),
                    self.pixels.len() == w * h,
                    self@ == self.pixels@,
                    goal == self.scanlines(),
                    row * w + w <= w * h,
                    0 <= row * w,
                    0 <= j * w,
                    j * w + w <= w * h,
                    out@ == goal.take(row * w + col),
                decreases w - col,
            {
                let p = self.pixels[j * w + col];
                out.push(p);
                proof {
                    let k = row * w + col;
                    lemma_fundamental_div_mod_converse(k, w as int, row as int, col as int);
                    assert(goal[k] == p);
                    assert(goal.take(k + 1) == goal.take(k).push(goal[k]));
                }
                col = col + 1;
            }
            proof {
                assert((row + 1) * w == row * w + w) by (nonlinear_arith);
            }
            row = row + 1;
        }
        proof {
            assert(goal.take(h * w) == goal);
        }
        out
    }

    /// The frame as bytes: three per pixel, red first, top row first.
    pub fn rgb8(&self) -> (out: Vec<u8>)
        ensures
            out@ == bytes_of(self.scanlines()),
    {
        let pixels = self.top_down();
        let ghost goal = bytes_of(pixels@);
        let mut out: Vec<u8> = Vec::new();
        let mut k: usize = 0;
        while k < pixels.len()
            invariant
                k <= pixels.len(),
                goal == bytes_of(pixels@),
                out@ == goal.take(3 * k),
            decreases pixels.len() - k,
        {
            let p = pixels[k];
            out.push(p.r);
            out.push(p.g);
            out.push(p.b);
            proof {
                assert(goal.take(3 * (k + 1)) == goal.take(3 * k).push(goal[3 * k]).push(
                    goal[3 * k + 1],
                ).push(goal[3 * k + 2]));
            }
            k = k + 1;
        }
        proof {
            assert(goal.take(3 * pixels.len()) == goal);
        }
        out
    }

    /// Shows the frame in `buffer`: one word per pixel, top row first. What
    /// the buffer held before is dropped.
    pub fn blit(&self, buffer: &mut Vec<u32>)
        ensures
            final(buffer)@ == words_of(self.scanlines()),
    {
        let pixels = self.top_down();
        let ghost goal = words_of(pixels@);
        buffer.clear();
        let mut k: usize = 0;
        while k < pixels.len()
            invariant
                k <= pixels.len(),
                goal == words_of(pixels@),
                buffer@ == goal.take(k as int),
            decreases pixels.len() - k,
        {
            let p = pixels[k];
            buffer.push(p.to_u32());
            proof {
                assert(goal.take(k + 1) == goal.take(k as int).push(goal[k as int]));
            }
            k = k + 1;
        }
        proof {
            assert(goal.take(pixels.len() as int) == goal);
        }
    }
}

/// The channels of a row of pixels: three bytes for each, red, green, blue.
pub open spec fn bytes_of(s: Seq<Rgb>) -> Seq<u8> {
    Seq::new(3 * s.len(), |k: int| s[k / 3].channel(k % 3))
}

/// A row of pixels with each packed into a word.
pub open spec fn words_of(s: Seq<Rgb>) -> Seq<u32> {
    s.map_values(|c: Rgb| c.packed())
}

/// Where a pixel goes: the pixel in column `i` of row `j`, rows counted from
/// the bottom, is the one in column `i` of scanline `height - 1 - j`, and its
/// three channels are the bytes from three times its place in the scanlines
/// on.
pub proof fn lemma_pixel_place(image: &Image, i: int, j: int)
    requires
        0 <= i < image.width(),
        0 <= j < image.height(),
    ensures
        ({
            let k = (image.height() - 1 - j) * image.width() + i;
            &&& 0 <= k < image.scanlines().len()
            &&& image.scanlines()[k] == image.pixel(i, j)
            &&& bytes_of(image.scanlines()).len() == 3 * image.scanlines().len()
            &&& bytes_of(image.scanlines())[3 * k] == image.pixel(i, j).r
            &&& bytes_of(image.scanlines())[3 * k + 1] == image.pixel(i, j).g
            &&& bytes_of(image.scanlines())[3 * k + 2] == image.pixel(i, j).b
            &&& words_of(image.scanlines())[k] == image.pixel(i, j).packed()
        }),
{
    let w = image.width() as int;
    let h = image.height() as int;
    let row = h - 1 - j;
    let k = row * w + i;
    assert(0 <= row * w && row * w + w <= w * h) by (nonlinear_arith)
        requires
            0 <= row < h,
            0 < w,
    ;
    lemma_fundamental_div_mod_converse(k, w, row, i);
}

/// Turning the rows over twice gives the frame back: the scanline that holds
/// row `j` of the frame is the one that row `j` of the scanlines holds.
pub proof fn lemma_scanlines_mirror(image: &Image, i: int, j: int)
    requires
        0 <= i < image.width(),
        0 <= j < image.height(),
    ensures
        image.scanlines()[j * image.width() + i] == image.pixel(i, image.height() - 1 - j),
{
    lemma_pixel_place(image, i, image.height() - 1 - j);
}

} // verus!
