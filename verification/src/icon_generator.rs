//! Turns small images into Rust source, or into bytes, for icons and
//! stencils.
//!
//! An icon keeps the colour of each pixel. A pixel whose alpha is not above
//! one half is black. A stencil keeps one cell per pixel. The cell is
//! opaque where the pixel's alpha is above one half and none of its colour
//! channels is at its maximum.
//!
//! The text form is a constant for the canvas module, one bracketed row of
//! cells per row of pixels. The binary form is the cells alone, row by row:
//! three bytes per pixel for an icon, one byte per pixel for a stencil.
//!
//! Images are taken with samples of 8 or of 16 bits. An image with floating
//! point samples is not: a sample that is not a number has no colour. The
//! `generate_*` functions ask for integer samples; `try_generate_bin` and
//! `try_generate_txt` take any image and say when there is no result.

use crate::canvas::{decimal_digits, digit_to_char};
use image::{DynamicImage, GenericImageView};
use vstd::prelude::*;

verus! {

/// An image of any pixel format, as the `image` crate holds it.
#[verifier::external_type_specification]
#[verifier::external_body]
pub struct ExDynamicImage(image::DynamicImage);

/// The pixels of an image, as red, green, blue and alpha of eight bits
/// each: the rows from top to bottom, the pixels of a row from left to
/// right.
pub uninterp spec fn image_pixels(image: DynamicImage) -> Seq<Seq<[u8; 4]>>;

/// The width of an image in pixels.
pub uninterp spec fn image_width(image: DynamicImage) -> nat;

/// `GenericImageView::dimensions` of a `DynamicImage`: the width and the
/// height of the image. The image has that many rows, each of that many
/// pixels.
#[verifier::external_body]
fn dimensions(image: &DynamicImage) -> (size: (u32, u32))
    ensures
        size.0 == image_width(*image),
        size.1 == image_pixels(*image).len(),
        forall|y: int| 0 <= y < size.1 ==> (#[trigger] image_pixels(*image)[y]).len() == size.0,
{
    image.dimensions()
}

/// Whether the samples of an image are integers, of 8 or of 16 bits, and not
/// floating point numbers.
pub uninterp spec fn image_has_integer_samples(image: DynamicImage) -> bool;

/// Tells the variants of `DynamicImage` apart: the eight with samples of 8
/// or 16 bits from the others.
#[verifier::external_body]
fn has_integer_samples(image: &DynamicImage) -> (integer: bool)
    ensures
        integer == image_has_integer_samples(*image),
{
    match image {
        DynamicImage::ImageLuma8(_) => true,
        DynamicImage::ImageLumaA8(_) => true,
        DynamicImage::ImageRgb8(_) => true,
        DynamicImage::ImageRgba8(_) => true,
        DynamicImage::ImageLuma16(_) => true,
        DynamicImage::ImageLumaA16(_) => true,
        DynamicImage::ImageRgb16(_) => true,
        DynamicImage::ImageRgba16(_) => true,
        _ => false,
    }
}

/// `GenericImageView::get_pixel` of a `DynamicImage`: the pixel in column
/// `x` of row `y`, in eight bits per channel whatever the format of the
/// image. It panics outside the image, so `(x, y)` must lie inside. It
/// panics as well where it has to convert a floating point sample that is
/// not a number, so the samples must be integers.
#[verifier::external_body]
fn get_pixel(image: &DynamicImage, x: u32, y: u32) -> (pixel: [u8; 4])
    requires
        image_has_integer_samples(*image),
        y < image_pixels(*image).len(),
        x < image_width(*image),
    ensures
        pixel == image_pixels(*image)[y as int][x as int],
{
    image.get_pixel(x, y).0
}

/// `String::push_str` appends a string slice to a string.
pub assume_specification[ String::push_str ](text: &mut String, string: &str)
    ensures
        final(text)@ == old(text)@ + string@,
;

/// `String::push` appends one character to a string.
pub assume_specification[ String::push ](text: &mut String, ch: char)
    ensures
        final(text)@ == old(text)@.push(ch),
;

/// What is made of an image.
#[derive(Clone, Copy, Debug, PartialEq, Eq, Structural)]
pub enum Mode {
    /// A canvas of colours.
    Icon,
    /// A stencil of one colour.
    Stencil,
}

/// Whether a pixel is there at all: its alpha is above one half.
pub open spec fn is_visible(pixel: [u8; 4]) -> bool {
    pixel[3] > 127
}

/// Whether a pixel makes an opaque stencil cell.
pub open spec fn is_stencil_cell(pixel: [u8; 4]) -> bool {
    is_visible(pixel) && pixel[0] < 255 && pixel[1] < 255 && pixel[2] < 255
}

/// The bytes that stand for one pixel.
pub open spec fn cell_bytes(mode: Mode, pixel: [u8; 4]) -> Seq<u8> {
    match mode {
        Mode::Icon => if is_visible(pixel) {
            seq![pixel[0], pixel[1], pixel[2]]
        } else {
            seq![0u8, 0u8, 0u8]
        },
        Mode::Stencil => if is_stencil_cell(pixel) {
            seq![1u8]
        } else {
            seq![0u8]
        },
    }
}

/// The text that stands for one pixel.
pub open spec fn cell_text(mode: Mode, pixel: [u8; 4]) -> Seq<char> {
    match mode {
        Mode::Icon => if is_visible(pixel) {
            "Color::new("@ + decimal_digits(pixel[0] as nat) + ","@ + decimal_digits(
                pixel[1] as nat,
            ) + ","@ + decimal_digits(pixel[2] as nat) + "),"@
        } else {
            "Color::BLACK,"@
        },
        Mode::Stencil => if is_stencil_cell(pixel) {
            "1,"@
        } else {
            "0,"@
        },
    }
}

/// The bytes of the pixels of `row`, from left to right.
pub open spec fn cells_bytes(mode: Mode, row: Seq<[u8; 4]>) -> Seq<u8>
    decreases row.len(),
{
    if row.len() == 0 {
        Seq::empty()
    } else {
        cells_bytes(mode, row.drop_last()) + cell_bytes(mode, row.last())
    }
}

/// The bytes of the pixels of `rows`, row by row.
pub open spec fn image_bytes(mode: Mode, rows: Seq<Seq<[u8; 4]>>) -> Seq<u8>
    decreases rows.len(),
{
    if rows.len() == 0 {
        Seq::empty()
    } else {
        image_bytes(mode, rows.drop_last()) + cells_bytes(mode, rows.last())
    }
}

/// The text of the pixels of `row`, from left to right.
pub open spec fn cells_text(mode: Mode, row: Seq<[u8; 4]>) -> Seq<char>
    decreases row.len(),
{
    if row.len() == 0 {
        Seq::empty()
    } else {
        cells_text(mode, row.drop_last()) + cell_text(mode, row.last())
    }
}

/// The text of the pixels of `rows`: each row in brackets, with a comma
/// behind it.
pub open spec fn rows_text(mode: Mode, rows: Seq<Seq<[u8; 4]>>) -> Seq<char>
    decreases rows.len(),
{
    if rows.len() == 0 {
        Seq::empty()
    } else {
        rows_text(mode, rows.drop_last()) + "["@ + cells_text(mode, rows.last()) + "],"@
    }
}

/// The source text for an image of `width` columns whose pixels are
/// `rows`: a constant of the name `element_name`.
pub open spec fn image_text(
    mode: Mode,
    rows: Seq<Seq<[u8; 4]>>,
    width: nat,
    element_name: Seq<char>,
) -> Seq<char> {
    match mode {
        Mode::Icon => "use crate::canvas::{Canvas, Color};\npub const "@ + element_name
            + ": Canvas<"@ + decimal_digits(width) + ", "@ + decimal_digits(rows.len())
            + "> = Canvas([\n"@ + rows_text(mode, rows) + "\n]);"@,
        Mode::Stencil => "use crate::canvas::Stencil;\npub const "@ + element_name
            + ": Stencil<"@ + decimal_digits(width) + ", "@ + decimal_digits(rows.len())
            + "> = Stencil([\n"@ + rows_text(mode, rows) + "\n]);"@,
    }
}

/// Appends the decimal digits of `n`.
fn push_decimal(text: &mut String, n: u32)
    ensures
        final(text)@ == old(text)@ + decimal_digits(n as nat),
    decreases n,
{
    if n >= 10 {
        push_decimal(text, n / 10);
    }
    text.push(digit_to_char(n % 10));
    assert(text@ =~= old(text)@ + decimal_digits(n as nat));
}

/// Appends the bytes that stand for `pixel`.
pub fn push_cell_bytes(data: &mut Vec<u8>, mode: Mode, pixel: [u8; 4])
    ensures
        final(data)@ == old(data)@ + cell_bytes(mode, pixel),
{
    let r = pixel[0];
    let g = pixel[1];
    let b = pixel[2];
    let a = pixel[3];
    match mode {
        Mode::Icon => {
            if a > u8::MAX / 2 {
                data.push(r);
                data.push(g);
                data.push(b);
            } else {
                data.push(0);
                data.push(0);
                data.push(0);
            }
        },
        Mode::Stencil => {
            if a > u8::MAX / 2 && r < u8::MAX && g < u8::MAX && b < u8::MAX {
                data.push(1);
            } else {
                data.push(0);
            }
        },
    }
    assert(data@ =~= old(data)@ + cell_bytes(mode, pixel));
}

/// Appends the text that stands for `pixel`.
pub fn push_cell_text(text: &mut String, mode: Mode, pixel: [u8; 4])
    ensures
        final(text)@ == old(text)@ + cell_text(mode, pixel),
{
    let r = pixel[0];
    let g = pixel[1];
    let b = pixel[2];
    let a = pixel[3];
    match mode {
        Mode::Icon => {
            if a > u8::MAX / 2 {
                text.push_str("Color::new(");
                push_decimal(text, r as u32);
                text.push_str(",");
                push_decimal(text, g as u32);
                text.push_str(",");
                push_decimal(text, b as u32);
                text.push_str("),");
            } else {
                text.push_str("Color::BLACK,");
            }
        },
        Mode::Stencil => {
            if a > u8::MAX / 2 && r < u8::MAX && g < u8::MAX && b < u8::MAX {
                text.push_str("1,");
            } else {
                text.push_str("0,");
            }
        },
    }
    assert(text@ =~= old(text)@ + cell_text(mode, pixel));
}

/// The binary form of `image`, whose samples must be integers.
pub fn generate_bin(image: &DynamicImage, mode: Mode) -> (data: Vec<u8>)
    requires
        image_has_integer_samples(*image),
    ensures
        data@ == image_bytes(mode, image_pixels(*image)),
{
    let ghost rows = image_pixels(*image);
    let (width, height) = dimensions(image);
    let mut data = Vec::<u8>::new();
    let mut y: u32 = 0;
    while y < height
        invariant
            image_has_integer_samples(*image),
            y <= height == rows.len(),
            width == image_width(*image),
            rows == image_pixels(*image),
            forall|row: int| 0 <= row < height ==> (#[trigger] rows[row]).len() == width,
            data@ == image_bytes(mode, rows.take(y as int)),
        decreases height - y,
    {
        let ghost done = data@;
        let mut x: u32 = 0;
        while x < width
            invariant
                image_has_integer_samples(*image),
                y < height == rows.len(),
                x <= width == rows[y as int].len(),
                width == image_width(*image),
                rows == image_pixels(*image),
                data@ == done + cells_bytes(mode, rows[y as int].take(x as int)),
            decreases width - x,
        {
            let pixel = get_pixel(image, x, y);
            push_cell_bytes(&mut data, mode, pixel);
            proof {
                let cells = rows[y as int].take(x + 1);
                assert(cells.drop_last() =~= rows[y as int].take(x as int));
                assert(data@ =~= done + cells_bytes(mode, cells));
            }
            x += 1;
        }
        proof {
            let taken = rows.take(y + 1);
            assert(taken.drop_last() =~= rows.take(y as int));
            assert(rows[y as int].take(width as int) =~= rows[y as int]);
        }
        y += 1;
    }
    assert(rows.take(height as int) =~= rows);
    data
}

/// The text form of `image`, whose samples must be integers: the source
/// of a constant named `element_name`.
pub fn generate_txt(image: &DynamicImage, element_name: &str, mode: Mode) -> (text: String)
    requires
        image_has_integer_samples(*image),
    ensures
        text@ == image_text(mode, image_pixels(*image), image_width(*image), element_name@),
{
    let ghost rows = image_pixels(*image);
    let (width, height) = dimensions(image);
    let mut array_rows = String::new();
    let mut y: u32 = 0;
    while y < height
        invariant
            image_has_integer_samples(*image),
            y <= height == rows.len(),
            width == image_width(*image),
            rows == image_pixels(*image),
            forall|row: int| 0 <= row < height ==> (#[trigger] rows[row]).len() == width,
            array_rows@ == rows_text(mode, rows.take(y as int)),
        decreases height - y,
    {
        let ghost done = array_rows@;
        array_rows.push_str("[");
        let mut x: u32 = 0;
        while x < width
            invariant
                image_has_integer_samples(*image),
                y < height == rows.len(),
                x <= width == rows[y as int].len(),
                width == image_width(*image),
                rows == image_pixels(*image),
                array_rows@ == done + "["@ + cells_text(mode, rows[y as int].take(x as int)),
            decreases width - x,
        {
            let pixel = get_pixel(image, x, y);
            push_cell_text(&mut array_rows, mode, pixel);
            proof {
                let cells = rows[y as int].take(x + 1);
                assert(cells.drop_last() =~= rows[y as int].take(x as int));
                assert(array_rows@ =~= done + "["@ + cells_text(mode, cells));
            }
            x += 1;
        }
        array_rows.push_str("],");
        proof {
            let taken = rows.take(y + 1);
            assert(taken.drop_last() =~= rows.take(y as int));
            assert(rows[y as int].take(width as int) =~= rows[y as int]);
        }
        y += 1;
    }
    assert(rows.take(height as int) =~= rows);
    let mut text = String::new();
    match mode {
        Mode::Icon => {
            text.push_str("use crate::canvas::{Canvas, Color};\npub const ");
            text.push_str(element_name);
            text.push_str(": Canvas<");
            push_decimal(&mut text, width);
            text.push_str(", ");
            push_decimal(&mut text, height);
            text.push_str("> = Canvas([\n");
        },
        Mode::Stencil => {
            text.push_str("use crate::canvas::Stencil;\npub const ");
            text.push_str(element_name);
            text.push_str(": Stencil<");
            push_decimal(&mut text, width);
            text.push_str(", ");
            push_decimal(&mut text, height);
            text.push_str("> = Stencil([\n");
        },
    }
    text.push_str(array_rows.as_str());
    text.push_str("\n]);");
    assert(text@ =~= image_text(mode, rows, width as nat, element_name@));
    text
}

/// The source of a canvas constant named `element_name` that holds
/// `image`, whose samples must be integers.
pub fn generate_icon_txt(image: &DynamicImage, element_name: &str) -> (text: String)
    requires
        image_has_integer_samples(*image),
    ensures
        text@ == image_text(
            Mode::Icon,
            image_pixels(*image),
            image_width(*image),
            element_name@,
        ),
{
    generate_txt(image, element_name, Mode::Icon)
}

/// The colours of `image`, whose samples must be integers: three bytes per
/// pixel, row by row.
pub fn generate_icon_bin(image: &DynamicImage) -> (data: Vec<u8>)
    requires
        image_has_integer_samples(*image),
    ensures
        data@ == image_bytes(Mode::Icon, image_pixels(*image)),
{
    generate_bin(image, Mode::Icon)
}

/// The source of a stencil constant named `element_name` that holds the
/// shape of `image`, whose samples must be integers.
pub fn generate_stencil_txt(image: &DynamicImage, element_name: &str) -> (text: String)
    requires
        image_has_integer_samples(*image),
    ensures
        text@ == image_text(
            Mode::Stencil,
            image_pixels(*image),
            image_width(*image),
            element_name@,
        ),
{
    generate_txt(image, element_name, Mode::Stencil)
}

/// The shape of `image`, whose samples must be integers: one byte per
/// pixel, row by row.
pub fn generate_stencil_bin(image: &DynamicImage) -> (data: Vec<u8>)
    requires
        image_has_integer_samples(*image),
    ensures
        data@ == image_bytes(Mode::Stencil, image_pixels(*image)),
{
    generate_bin(image, Mode::Stencil)
}

/// The binary form of any image: there is none for an image whose samples
/// are floating point numbers.
pub fn try_generate_bin(image: &DynamicImage, mode: Mode) -> (data: Option<Vec<u8>>)
    ensures
        data is Some <==> image_has_integer_samples(*image),
        data matches Some(data) ==> data@ == image_bytes(mode, image_pixels(*image)),
{
    if has_integer_samples(image) {
        Some(
            match mode {
                Mode::Icon => generate_icon_bin(image),
                Mode::Stencil => generate_stencil_bin(image),
            },
        )
    } else {
        None
    }
}

/// The text form of any image, as the source of a constant named
/// `element_name`: there is none for an image whose samples are floating
/// point numbers.
pub fn try_generate_txt(image: &DynamicImage, element_name: &str, mode: Mode) -> (text: Option<
    String,
>)
    ensures
        text is Some <==> image_has_integer_samples(*image),
        text matches Some(text) ==> text@ == image_text(
            mode,
            image_pixels(*image),
            image_width(*image),
            element_name@,
        ),
{
    if has_integer_samples(image) {
        Some(
            match mode {
                Mode::Icon => generate_icon_txt(image, element_name),
                Mode::Stencil => generate_stencil_txt(image, element_name),
            },
        )
    } else {
        None
    }
}

} // verus!
