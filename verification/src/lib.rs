//! The integer and decision core of a Monte Carlo path tracer for scenes of
//! spheres: the pixel buffer and its raster order, the estimate of a pixel
//! from its samples, the rules by which rays are accepted, scattered and
//! followed, the closest-hit scan over a scene, and the textual image format.
//!
//! Radiance arithmetic is carried by type parameters: the library fixes what
//! is decided, and in which order, for any ray, colour and ray-parameter type
//! that a caller brings.
use vstd::prelude::*;

pub mod math;
pub mod pixel;
pub mod rendering;
pub mod sampling;
pub mod scene;
pub mod settings;
pub mod utils;
pub mod writer;

pub use pixel::Pixel;
pub use scene::Scene;
pub use settings::{Antialiasing, ConfigError, ImageSettings};
pub use writer::PPMWriter;

verus! {

/// A rendered image: `pixels` holds the rows from the top one down, each row
/// from left to right.
pub struct RenderingResult {
    pub width: i32,
    pub height: i32,
    pub pixels: Vec<Pixel>,
}

/// The place in the buffer of the pixel of column `i` in row `j`, for rows
/// that are `width` wide.
pub open spec fn place(i: int, j: int, width: int) -> int {
    j * width + i
}

/// `result` is a rendering of an image of the given size by `shade`: it has
/// the size of the image, one pixel for every column of every row, and the
/// pixel of column `i` in row `j` is what `shade` answered for `i` and `j`.
pub open spec fn rendered<F: Fn(i32, i32) -> Pixel>(
    image: ImageSettings,
    shade: F,
    result: RenderingResult,
) -> bool {
    &&& result.width == image.width
    &&& result.height == image.height
    &&& result.pixels@.len() == image.width * image.height
    &&& forall|i: i32, j: i32|
        0 <= i < image.width && 0 <= j < image.height ==> call_ensures(
            shade,
            (i, j),
            #[trigger] result.pixels@[place(i as int, j as int, image.width as int)],
        )
}

/// Renders an image of the given size: `shade` is asked once for every pixel,
/// with its column and its row, row by row from the top and from left to
/// right within a row, and what it answers is the pixel at that place.
///
/// A size that is not valid is refused before `shade` is asked anything.
pub fn render<F: Fn(i32, i32) -> Pixel>(image: &ImageSettings, shade: F) -> (res: Result<
    RenderingResult,
    ConfigError,
>)
    requires
        forall|i: i32, j: i32|
            0 <= i < image.width && 0 <= j < image.height ==> call_requires(shade, (i, j)),
    ensures
        image.width <= 0 ==> res == Err::<RenderingResult, ConfigError>(
            ConfigError::NonPositiveWidth,
        ),
        image.width > 0 && image.height <= 0 ==> res == Err::<RenderingResult, ConfigError>(
            ConfigError::NonPositiveHeight,
        ),
        image.valid() ==> (res matches Ok(result) && rendered(*image, shade, result)),
{
    match image.validate() {
        Err(e) => {
            return Err(e);
        },
        Ok(_) => {},
    }
    let width = image.width;
    let height = image.height;
    let mut pixels: Vec<Pixel> = Vec::new();
    let mut j: i32 = 0;
    while j < height
        invariant
            0 < width == image.width,
            0 < height == image.height,
            0 <= j <= height,
            pixels@.len() == place(0, j as int, width as int),
            forall|a: i32, b: i32|
                0 <= a < width && 0 <= b < j ==> call_ensures(
                    shade,
                    (a, b),
                    #[trigger] pixels@[place(a as int, b as int, width as int)],
                ),
            forall|i: i32, j: i32|
                0 <= i < image.width && 0 <= j < image.height ==> call_requires(shade, (i, j)),
        decreases height - j,
    {
        let mut i: i32 = 0;
        while i < width
            invariant
                0 < width == image.width,
                0 < height == image.height,
                0 <= j < height,
                0 <= i <= width,
                pixels@.len() == place(i as int, j as int, width as int),
                forall|a: i32, b: i32|
                    0 <= a < width && (0 <= b < j || (b == j && a < i)) ==> call_ensures(
                        shade,
                        (a, b),
                        #[trigger] pixels@[place(a as int, b as int, width as int)],
                    ),
                forall|i: i32, j: i32|
                    0 <= i < image.width && 0 <= j < image.height ==> call_requires(
                        shade,
                        (i, j),
                    ),
            decreases width - i,
        {
            let pixel = shade(i, j);
            proof {
                assert forall|a: i32, b: i32|
                    0 <= a < width && (0 <= b < j || (b == j && a < i)) implies place(
                    a as int,
                    b as int,
                    width as int,
                ) < place(i as int, j as int, width as int) by {
                    lemma_place_grows(a as int, b as int, i as int, j as int, width as int);
                }
            }
            pixels.push(pixel);
            i = i + 1;
        }
        proof {
            assert(place(width as int, j as int, width as int) == place(
                0,
                j as int + 1,
                width as int,
            )) by (nonlinear_arith);
        }
        j = j + 1;
    }
    proof {
        assert(place(0, height as int, width as int) == width * height) by (nonlinear_arith);
    }
    Ok(RenderingResult { width, height, pixels })
}

/// Every pixel of a rendering is an answer of `shade`: the one at place `k`
/// is its answer for column `k % width` and row `k / width`.
pub proof fn lemma_every_pixel_shaded<F: Fn(i32, i32) -> Pixel>(
    image: ImageSettings,
    shade: F,
    result: RenderingResult,
    k: int,
)
    requires
        image.valid(),
        rendered(image, shade, result),
        0 <= k < result.pixels@.len(),
    ensures
        0 <= k % (image.width as int) < image.width,
        0 <= k / (image.width as int) < image.height,
        call_ensures(
            shade,
            ((k % (image.width as int)) as i32, (k / (image.width as int)) as i32),
            result.pixels@[k],
        ),
{
    let width = image.width as int;
    lemma_place_of(k, width, image.height as int);
    let i = (k % width) as i32;
    let j = (k / width) as i32;
    assert(result.pixels@[place(i as int, j as int, width)] == result.pixels@[k]);
}

/// A rendering by a shader that answers with displayable pixels only holds
/// displayable pixels only, one for every column of every row.
pub proof fn lemma_rendering_displayable<F: Fn(i32, i32) -> Pixel>(
    image: ImageSettings,
    shade: F,
    result: RenderingResult,
)
    requires
        image.valid(),
        rendered(image, shade, result),
        forall|i: i32, j: i32, p: Pixel| call_ensures(shade, (i, j), p) ==> p.displayable(),
    ensures
        result.pixels@.len() == image.width * image.height,
        forall|k: int| 0 <= k < result.pixels@.len() ==> (#[trigger] result.pixels@[k]).displayable(),
{
    assert forall|k: int| 0 <= k < result.pixels@.len() implies (#[trigger] result.pixels@[
        k
    ]).displayable() by {
        lemma_every_pixel_shaded(image, shade, result, k);
    }
}

/// Every place of a full buffer is that of one pixel: of column
/// `k % width` in row `k / width`.
pub proof fn lemma_place_of(k: int, width: int, height: int)
    requires
        0 < width,
        0 <= k < width * height,
    ensures
        0 <= k % width < width,
        0 <= k / width < height,
        place(k % width, k / width, width) == k,
{
    vstd::arithmetic::div_mod::lemma_fundamental_div_mod(k, width);
    vstd::arithmetic::div_mod::lemma_mod_bound(k, width);
    assert(width * (k / width) == (k / width) * width) by (nonlinear_arith);
    assert(0 <= k / width < height) by (nonlinear_arith)
        requires
            0 < width,
            0 <= k < width * height,
            k == width * (k / width) + k % width,
            0 <= k % width < width,
    ;
}

/// Places follow the order in which the pixels are rendered: a pixel of an
/// earlier row, or of the same row and an earlier column, has the earlier
/// place.
pub proof fn lemma_place_grows(a: int, b: int, i: int, j: int, width: int)
    requires
        0 <= a < width,
        0 <= i <= width,
        0 <= b,
        b < j || (b == j && a < i),
    ensures
        0 <= place(a, b, width) < place(i, j, width),
{
    assert(0 <= b * width) by (nonlinear_arith)
        requires
            0 <= b,
            0 < width,
    ;
    if b < j {
        assert(b * width + width <= j * width) by (nonlinear_arith)
            requires
                b < j,
                0 < width,
        ;
    }
}

} // verus!
