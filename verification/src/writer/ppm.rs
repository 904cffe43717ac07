//! The plain-text portable pixmap: a header of magic number, size and largest
//! channel value, then one line of three decimal numbers for each pixel.
use crate::pixel::Pixel;
use crate::RenderingResult;
use vstd::prelude::*;

verus! {

/// The byte of a line feed.
pub const LINE_FEED: u8 = 10;

/// The byte of a space.
pub const SPACE: u8 = 32;

/// The byte of a minus sign.
pub const MINUS: u8 = 45;

/// The byte of the digit zero.
pub const ZERO: u8 = 48;

/// The decimal digits of `n`, the most significant first, without leading
/// zeros; zero is the single digit `0`.
pub open spec fn digits(n: nat) -> Seq<u8>
    decreases n,
{
    if n < 10 {
        seq![(ZERO + n) as u8]
    } else {
        digits(n / 10).push((ZERO + n % 10) as u8)
    }
}

/// `n` in decimal, with a minus sign in front where it is negative.
pub open spec fn decimal(n: int) -> Seq<u8> {
    if n < 0 {
        seq![MINUS] + digits((-n) as nat)
    } else {
        digits(n as nat)
    }
}

/// The line of one pixel: red, green and blue, a space between them and a
/// line feed behind.
pub open spec fn pixel_line(p: Pixel) -> Seq<u8> {
    decimal(p@.0) + seq![SPACE] + decimal(p@.1) + seq![SPACE] + decimal(p@.2) + seq![LINE_FEED]
}

/// The lines of the pixels, in their order.
pub open spec fn pixel_lines(pixels: Seq<Pixel>) -> Seq<u8>
    decreases pixels.len(),
{
    if pixels.len() == 0 {
        Seq::<u8>::empty()
    } else {
        pixel_lines(pixels.drop_last()) + pixel_line(pixels.last())
    }
}

/// The three header lines: the magic number, width and height, and the
/// largest channel value.
pub open spec fn header(magic: Seq<u8>, width: int, height: int, max_color: int) -> Seq<u8> {
    magic + seq![LINE_FEED] + decimal(width) + seq![SPACE] + decimal(height) + seq![LINE_FEED]
        + decimal(max_color) + seq![LINE_FEED]
}

/// The kind of portable pixmap.
enum MagicNumber {
    /// Pixels as decimal text.
    P3,
}

impl MagicNumber {
    /// The two bytes that open a file of this kind.
    spec fn text(&self) -> Seq<u8> {
        match self {
            MagicNumber::P3 => seq![80u8, 51u8],
        }
    }

    fn push_to(&self, out: &mut Vec<u8>)
        ensures
            final(out)@ == old(out)@ + self.text(),
    {
        match self {
            MagicNumber::P3 => {
                out.push(80u8);
                out.push(51u8);
            },
        }
        assert(out@ =~= old(out)@ + self.text());
    }
}

/// Writes images as plain-text portable pixmaps to one path.
pub struct PPMWriter {
    path: String,
    magic_number: MagicNumber,
    max_color: i32,
}

fn push_digits(out: &mut Vec<u8>, n: u32)
    ensures
        final(out)@ == old(out)@ + digits(n as nat),
    decreases n,
{
    if n >= 10 {
        push_digits(out, n / 10);
    }
    out.push(ZERO + (n % 10) as u8);
    assert(out@ =~= old(out)@ + digits(n as nat));
}

fn push_decimal(out: &mut Vec<u8>, n: i32)
    ensures
        final(out)@ == old(out)@ + decimal(n as int),
{
    if n < 0 {
        out.push(MINUS);
        push_digits(out, (-(n as i64)) as u32);
    } else {
        push_digits(out, n as u32);
    }
    assert(out@ =~= old(out)@ + decimal(n as int));
}

fn push_pixel_line(out: &mut Vec<u8>, p: &Pixel)
    ensures
        final(out)@ == old(out)@ + pixel_line(*p),
{
    push_decimal(out, p.r());
    out.push(SPACE);
    push_decimal(out, p.g());
    out.push(SPACE);
    push_decimal(out, p.b());
    out.push(LINE_FEED);
    assert(out@ =~= old(out)@ + pixel_line(*p));
}

impl PPMWriter {
    /// The path that the writer was made for.
    pub closed spec fn path_spec(&self) -> Seq<char> {
        self.path@
    }

    /// The largest channel value that the header announces.
    pub closed spec fn max_color_spec(&self) -> int {
        self.max_color as int
    }

    /// The bytes that open every file of this writer.
    pub closed spec fn magic(&self) -> Seq<u8> {
        self.magic_number.text()
    }

    /// The whole file for an image: the header, then the pixel lines.
    pub open spec fn text(&self, width: int, height: int, pixels: Seq<Pixel>) -> Seq<u8> {
        header(self.magic(), width, height, self.max_color_spec()) + pixel_lines(pixels)
    }

    /// A writer of `P3` files with channels up to 255.
    pub fn new(path: &str) -> (writer: Self)
        ensures
            writer.path_spec() == path@,
            writer.max_color_spec() == 255,
            writer.magic() == seq![80u8, 51u8],
    {
        Self { path: path.to_owned(), magic_number: MagicNumber::P3, max_color: 255 }
    }

    /// The path that the writer was made for.
    pub fn path(&self) -> (path: &str)
        ensures
            path@ == self.path_spec(),
    {
        self.path.as_str()
    }

    /// The bytes of the file for `result`: the pixels are written in the order
    /// in which the buffer holds them, whatever the width and height say.
    pub fn encode(&self, result: &RenderingResult) -> (bytes: Vec<u8>)
        ensures
            bytes@ == self.text(result.width as int, result.height as int, result.pixels@),
    {
        let mut out: Vec<u8> = Vec::new();
        self.magic_number.push_to(&mut out);
        out.push(LINE_FEED);
        push_decimal(&mut out, result.width);
        out.push(SPACE);
        push_decimal(&mut out, result.height);
        out.push(LINE_FEED);
        push_decimal(&mut out, self.max_color);
        out.push(LINE_FEED);
        assert(out@ =~= header(
            self.magic(),
            result.width as int,
            result.height as int,
            self.max_color_spec(),
        ));
        let ghost head = out@;
        let mut k: usize = 0;
        while k < result.pixels.len()
            invariant
                0 <= k <= result.pixels@.len(),
                out@ == head + pixel_lines(result.pixels@.take(k as int)),
            decreases result.pixels@.len() - k,
        {
            push_pixel_line(&mut out, &result.pixels[k]);
            proof {
                let before = result.pixels@.take(k as int);
                let after = result.pixels@.take(k as int + 1);
                assert(after.drop_last() =~= before);
                assert(after.last() == result.pixels@[k as int]);
                assert(out@ =~= head + pixel_lines(after));
            }
            k = k + 1;
        }
        assert(result.pixels@.take(k as int) =~= result.pixels@);
        out
    }
}

} // verus!
