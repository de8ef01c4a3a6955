//! The plain-text PPM form of pixels and images.

use vstd::prelude::*;
use vstd::string::*;
use crate::decimal::{decimal, digit_char, push_decimal};
use crate::image::{Image, Pixel, Raster};

verus! {

/// The header of a plain PPM file: the magic number, the dimensions and the
/// largest channel value, one line each.
pub open spec fn ppm_header(width: nat, height: nat) -> Seq<char> {
    seq!['P', '3', '\n'] + decimal(width) + seq![' '] + decimal(height) + seq![
        '\n',
        '2',
        '5',
        '5',
        '\n',
    ]
}

/// One line per pixel, each closed by a line feed, in the order of `pixels`.
pub open spec fn ppm_body(pixels: Seq<Pixel>) -> Seq<char>
    decreases pixels.len(),
{
    if pixels.len() == 0 {
        Seq::empty()
    } else {
        ppm_body(pixels.drop_last()) + pixels.last().ppm_text().push('\n')
    }
}

/// The number of line feeds in `text`: the number of lines of a text in
/// which every line is closed by one.
pub open spec fn line_count(text: Seq<char>) -> nat
    decreases text.len(),
{
    if text.len() == 0 {
        0
    } else if text.last() == '\n' {
        line_count(text.drop_last()) + 1
    } else {
        line_count(text.drop_last())
    }
}

impl Pixel {
    /// The three channels in base ten, separated by single spaces.
    pub open spec fn ppm_text(self) -> Seq<char> {
        decimal(self.r as nat) + seq![' '] + decimal(self.g as nat) + seq![' '] + decimal(
            self.b as nat,
        )
    }

    /// The pixel as it stands on its line of a plain PPM file.
    pub fn ppm_string(&self) -> (s: String)
        ensures
            s@ == self.ppm_text(),
    {
        let mut s = String::new();
        push_pixel(&mut s, self);
        s
    }
}

impl Raster {
    /// The whole plain PPM file: header, then one line per pixel.
    pub open spec fn ppm_text(self) -> Seq<char> {
        ppm_header(self.width, self.height) + ppm_body(self.pixels)
    }
}

impl Image {
    /// The image as a plain PPM file.
    pub fn ppm_string(self) -> (s: String)
        ensures
            s@ == self@.ppm_text(),
            line_count(s@) == 3 + self@.width * self@.height,
    {
        let width = self.get_width();
        let height = self.get_height();
        let pixels = self.get_pixels();
        let mut s = String::new();
        proof {
            reveal_strlit("P3\n");
            reveal_strlit(" ");
            reveal_strlit("\n255\n");
            assert("P3\n"@ =~= seq!['P', '3', '\n']);
            assert(" "@ =~= seq![' ']);
            assert("\n255\n"@ =~= seq!['\n', '2', '5', '5', '\n']);
        }
        s.append("P3\n");
        push_decimal(&mut s, width);
        s.append(" ");
        push_decimal(&mut s, height);
        s.append("\n255\n");
        assert(s@ =~= ppm_header(width as nat, height as nat));
        let mut i: usize = 0;
        while i < pixels.len()
            invariant
                i <= pixels.len(),
                s@ == ppm_header(width as nat, height as nat) + ppm_body(pixels@.take(i as int)),
            decreases pixels.len() - i,
        {
            push_pixel(&mut s, &pixels[i]);
            proof {
                reveal_strlit("\n");
                assert("\n"@ =~= seq!['\n']);
            }
            s.append("\n");
            proof {
                let done = pixels@.take(i as int);
                let next = pixels@.take(i + 1);
                assert(next.drop_last() =~= done);
                assert(next.last() == pixels@[i as int]);
                assert(s@ =~= ppm_header(width as nat, height as nat) + ppm_body(next));
            }
            i += 1;
        }
        proof {
            assert(pixels@.take(i as int) =~= pixels@);
            lemma_ppm_line_count(self@);
        }
        s
    }
}

/// Appends the line of `pixel`, without the line feed, to `out`.
fn push_pixel(out: &mut String, pixel: &Pixel)
    ensures
        final(out)@ == old(out)@ + pixel.ppm_text(),
{
    proof {
        reveal_strlit(" ");
        assert(" "@ =~= seq![' ']);
    }
    push_decimal(out, pixel.r as usize);
    out.append(" ");
    push_decimal(out, pixel.g as usize);
    out.append(" ");
    push_decimal(out, pixel.b as usize);
    assert(out@ =~= old(out)@ + pixel.ppm_text());
}

/// Counting lines distributes over concatenation.
pub proof fn lemma_line_count_concat(a: Seq<char>, b: Seq<char>)
    ensures
        line_count(a + b) == line_count(a) + line_count(b),
    decreases b.len(),
{
    if b.len() == 0 {
        assert(a + b =~= a);
    } else {
        assert((a + b).drop_last() =~= a + b.drop_last());
        lemma_line_count_concat(a, b.drop_last());
    }
}

/// A number in base ten holds no line feed.
pub proof fn lemma_decimal_one_line(n: nat)
    ensures
        line_count(decimal(n)) == 0,
    decreases n,
{
    if n < 10 {
        assert(decimal(n).last() == digit_char(n));
        assert(decimal(n).drop_last() =~= Seq::<char>::empty());
        assert(line_count(decimal(n).drop_last()) == 0);
    } else {
        lemma_decimal_one_line(n / 10);
        assert(decimal(n).last() == digit_char(n % 10));
        assert(decimal(n).drop_last() =~= decimal(n / 10));
    }
}

/// The text of a raster has three header lines and then one line for each
/// pixel; for a well-formed raster that is `3 + width * height` lines.
pub proof fn lemma_ppm_line_count(raster: Raster)
    ensures
        line_count(raster.ppm_text()) == 3 + raster.pixels.len(),
        raster.wf() ==> line_count(raster.ppm_text()) == 3 + raster.width * raster.height,
{
    lemma_header_lines(raster.width, raster.height);
    lemma_body_lines(raster.pixels);
    lemma_line_count_concat(ppm_header(raster.width, raster.height), ppm_body(raster.pixels));
}

proof fn lemma_header_lines(width: nat, height: nat)
    ensures
        line_count(ppm_header(width, height)) == 3,
{
    let magic = seq!['P', '3', '\n'];
    let space = seq![' '];
    let depth = seq!['\n', '2', '5', '5', '\n'];
    assert(line_count(magic) == 1) by {
        reveal_with_fuel(line_count, 4);
    }
    assert(line_count(space) == 0) by {
        reveal_with_fuel(line_count, 2);
    }
    assert(line_count(depth) == 2) by {
        reveal_with_fuel(line_count, 6);
    }
    lemma_decimal_one_line(width);
    lemma_decimal_one_line(height);
    lemma_line_count_concat(magic, decimal(width));
    lemma_line_count_concat(magic + decimal(width), space);
    lemma_line_count_concat(magic + decimal(width) + space, decimal(height));
    lemma_line_count_concat(magic + decimal(width) + space + decimal(height), depth);
}

proof fn lemma_pixel_one_line(pixel: Pixel)
    ensures
        line_count(pixel.ppm_text()) == 0,
{
    let space = seq![' '];
    let r = decimal(pixel.r as nat);
    let g = decimal(pixel.g as nat);
    let b = decimal(pixel.b as nat);
    assert(line_count(space) == 0) by {
        reveal_with_fuel(line_count, 2);
    }
    lemma_decimal_one_line(pixel.r as nat);
    lemma_decimal_one_line(pixel.g as nat);
    lemma_decimal_one_line(pixel.b as nat);
    lemma_line_count_concat(r, space);
    lemma_line_count_concat(r + space, g);
    lemma_line_count_concat(r + space + g, space);
    lemma_line_count_concat(r + space + g + space, b);
}

proof fn lemma_body_lines(pixels: Seq<Pixel>)
    ensures
        line_count(ppm_body(pixels)) == pixels.len(),
    decreases pixels.len(),
{
    if pixels.len() > 0 {
        let line = pixels.last().ppm_text().push('\n');
        lemma_body_lines(pixels.drop_last());
        lemma_pixel_one_line(pixels.last());
        assert(line.drop_last() =~= pixels.last().ppm_text());
        lemma_line_count_concat(ppm_body(pixels.drop_last()), line);
    }
}

} // verus!
