use rgb_led_matrix::canvas::{BlendMode, Canvas, Color, Stencil, Stencil5x7, TextOptions};
use rgb_led_matrix::fonts::Font;

const BLANK: Stencil<3, 3> = Stencil([[0, 0, 0], [0, 0, 0], [0, 0, 0]]);
const LETTER_A: Stencil<3, 3> = Stencil([[0, 1, 0], [1, 1, 1], [1, 0, 1]]);
const DIGIT_0: Stencil<3, 3> = Stencil([[1, 1, 1], [1, 0, 1], [1, 1, 1]]);
const DIGIT_1: Stencil<3, 3> = Stencil([[0, 1, 0], [0, 1, 0], [0, 1, 0]]);
const DIGIT_4: Stencil<3, 3> = Stencil([[1, 0, 1], [1, 1, 1], [0, 0, 1]]);
const DIGIT_7: Stencil<3, 3> = Stencil([[1, 1, 1], [0, 0, 1], [0, 0, 1]]);

/// A font of three by three pixels that knows `A` and a few digits.
struct TinyFont;

impl Font<3, 3> for TinyFont {
    fn glyph(&self, c: char) -> Stencil<3, 3> {
        Stencil(self.stencil_for(c).0)
    }

    fn stencil_for(&self, c: char) -> &Stencil<3, 3> {
        match c {
            'A' => &LETTER_A,
            '0' => &DIGIT_0,
            '1' => &DIGIT_1,
            '4' => &DIGIT_4,
            '7' => &DIGIT_7,
            _ => &BLANK,
        }
    }
}

fn pixel<const W: usize, const H: usize>(canvas: &Canvas<W, H>, x: usize, y: usize) -> Color {
    canvas.as_ref()[y][x]
}

/// Checks every pixel of `canvas` against `expected`, which is asked for
/// the colour at `(x, y)`.
fn assert_pixels<const W: usize, const H: usize>(
    canvas: &Canvas<W, H>,
    expected: impl Fn(usize, usize) -> Color,
) {
    for y in 0..H {
        for x in 0..W {
            assert_eq!(pixel(canvas, x, y), expected(x, y), "at ({}, {})", x, y);
        }
    }
}

/// The colour under a stencil laid down at `(x0, y0)`: `color` under its
/// opaque cells, `None` elsewhere.
fn under_stencil(
    stencil: &Stencil<3, 3>,
    x0: usize,
    y0: usize,
    x: usize,
    y: usize,
    color: Color,
) -> Option<Color> {
    if x >= x0 && x < x0 + 3 && y >= y0 && y < y0 + 3 && stencil.0[y - y0][x - x0] != 0 {
        Some(color)
    } else {
        None
    }
}

#[test]
fn default_canvas_is_all_black() {
    let canvas = Canvas::<8, 4>::default();
    assert_pixels(&canvas, |_, _| Color::new(0, 0, 0));
    assert_eq!(canvas.width(), 8);
    assert_eq!(canvas.height(), 4);
}

#[test]
fn new_canvases_are_black() {
    assert_pixels(&Canvas::<8, 4>::new(), |_, _| Color::black());
    let large = Canvas::with_64x32();
    assert_eq!((large.width(), large.height()), (64, 32));
    assert_pixels(&large, |_, _| Color::black());
}

#[test]
fn named_colors_are_the_corners_of_the_color_cube() {
    assert_eq!(Color::black(), Color::new(0, 0, 0));
    assert_eq!(Color::white(), Color::new(255, 255, 255));
    assert_eq!(Color::red(), Color::new(255, 0, 0));
    assert_eq!(Color::green(), Color::new(0, 255, 0));
    assert_eq!(Color::blue(), Color::new(0, 0, 255));
    assert_eq!(Color::yellow(), Color::new(255, 255, 0));
    assert_eq!(Color::cyan(), Color::new(0, 255, 255));
    assert_eq!(Color::magenta(), Color::new(255, 0, 255));
}

#[test]
fn color_channels_come_back_as_given() {
    let color = Color::new(1, 2, 3);
    assert_eq!((color.r(), color.g(), color.b()), (1, 2, 3));
    assert_ne!(color, Color::new(1, 2, 4));
    assert_ne!(color, Color::new(1, 0, 3));
    assert_ne!(color, Color::new(0, 2, 3));
}

#[test]
fn background_color_fills_the_canvas() {
    let canvas = Canvas::<5, 3>::with_background_color(Color::cyan());
    assert_pixels(&canvas, |_, _| Color::cyan());
}

#[test]
fn clear_sets_every_pixel() {
    let mut canvas = Canvas::<5, 3>::new();
    canvas.draw_rectangle(1, 1, 2, 2, Color::red());
    canvas.clear_with_color(Color::yellow());
    assert_pixels(&canvas, |_, _| Color::yellow());
    canvas.clear();
    assert_pixels(&canvas, |_, _| Color::black());
}

#[test]
fn rectangle_fills_exactly_its_pixels() {
    let mut canvas = Canvas::<8, 4>::new();
    canvas.draw_rectangle(2, 1, 3, 2, Color::red());
    assert_pixels(&canvas, |x, y| {
        if (2..5).contains(&x) && (1..3).contains(&y) {
            Color::new(255, 0, 0)
        } else {
            Color::new(0, 0, 0)
        }
    });
}

#[test]
fn rectangle_is_clipped_to_the_canvas() {
    let mut canvas = Canvas::<8, 4>::new();
    canvas.draw_rectangle(6, 3, 10, 10, Color::green());
    assert_pixels(&canvas, |x, y| if x >= 6 && y >= 3 { Color::green() } else { Color::black() });
    canvas.draw_rectangle(8, 0, 1, 1, Color::white());
    canvas.draw_rectangle(0, 4, 1, 1, Color::white());
    canvas.draw_rectangle(3, 1, 0, 2, Color::white());
    canvas.draw_rectangle(usize::MAX, usize::MAX, usize::MAX, usize::MAX, Color::white());
    assert_pixels(&canvas, |x, y| if x >= 6 && y >= 3 { Color::green() } else { Color::black() });
    canvas.draw_rectangle(1, 0, usize::MAX, 1, Color::blue());
    assert_pixels(&canvas, |x, y| {
        if y == 0 && x >= 1 {
            Color::blue()
        } else if x >= 6 && y >= 3 {
            Color::green()
        } else {
            Color::black()
        }
    });
}

#[test]
fn pixel_is_set_inside_the_canvas() {
    let mut canvas = Canvas::<8, 4>::new();
    canvas.draw_pixel(7, 3, Color::magenta()).draw_pixel(0, 0, Color::yellow());
    assert_pixels(&canvas, |x, y| match (x, y) {
        (7, 3) => Color::magenta(),
        (0, 0) => Color::yellow(),
        _ => Color::black(),
    });
}

#[test]
fn pixel_out_of_bounds_is_dropped() {
    let mut canvas = Canvas::<8, 4>::new();
    canvas.draw_pixel(10, 2, Color::white());
    canvas.draw_pixel(8, 0, Color::white());
    canvas.draw_pixel(0, 4, Color::white());
    assert_pixels(&canvas, |_, _| Color::black());
}

#[test]
fn stencil_colors_opaque_cells_only() {
    let mut canvas = Canvas::<8, 4>::with_background_color(Color::red());
    let stencil = Stencil([[0, 7, 0], [255, 1, 1], [1, 0, 1]]);
    canvas.draw_stencil(2, 1, &stencil, Color::white());
    assert_pixels(&canvas, |x, y| {
        under_stencil(&stencil, 2, 1, x, y, Color::white()).unwrap_or(Color::red())
    });
}

#[test]
fn stencil_is_clipped_to_the_canvas() {
    let mut canvas = Canvas::<4, 3>::new();
    canvas.draw_stencil(2, 1, &DIGIT_0, Color::green());
    assert_pixels(&canvas, |x, y| {
        under_stencil(&DIGIT_0, 2, 1, x, y, Color::green()).unwrap_or(Color::black())
    });
    canvas.draw_stencil(4, 0, &DIGIT_0, Color::white());
    canvas.draw_stencil(0, 3, &DIGIT_0, Color::white());
    canvas.draw_stencil(usize::MAX, 0, &DIGIT_0, Color::white());
    canvas.draw_stencil(0, usize::MAX - 1, &DIGIT_0, Color::white());
    assert_pixels(&canvas, |x, y| {
        under_stencil(&DIGIT_0, 2, 1, x, y, Color::green()).unwrap_or(Color::black())
    });
}

#[test]
fn stencil_of_another_size() {
    let mut glyph: Stencil5x7 = Stencil([[0; 5]; 7]);
    glyph.0[6][4] = 1;
    let mut canvas = Canvas::<8, 8>::new();
    canvas.draw_stencil(1, 1, &glyph, Color::cyan());
    assert_pixels(&canvas, |x, y| if (x, y) == (5, 7) { Color::cyan() } else { Color::black() });
}

#[test]
fn blit_replaces_every_pixel() {
    let mut source = Canvas::<2, 2>::new();
    source.draw_pixel(0, 0, Color::green());
    let mut canvas = Canvas::<4, 4>::with_background_color(Color::red());
    canvas.draw_canvas(1, 1, &source, BlendMode::Replace);
    assert_pixels(&canvas, |x, y| match (x, y) {
        (1, 1) => Color::green(),
        (2, 1) | (1, 2) | (2, 2) => Color::black(),
        _ => Color::red(),
    });
}

#[test]
fn blit_keeps_what_lies_under_black() {
    let mut source = Canvas::<2, 2>::new();
    source.draw_pixel(0, 0, Color::green());
    source.draw_pixel(1, 1, Color::new(0, 0, 1));
    let mut canvas = Canvas::<4, 4>::with_background_color(Color::red());
    canvas.draw_canvas(1, 1, &source, BlendMode::TransparentBlack);
    assert_pixels(&canvas, |x, y| match (x, y) {
        (1, 1) => Color::green(),
        (2, 2) => Color::new(0, 0, 1),
        _ => Color::red(),
    });
}

#[test]
fn blit_is_transparent_by_default() {
    let source = Canvas::<2, 2>::new();
    let mut canvas = Canvas::<4, 4>::with_background_color(Color::red());
    canvas.draw_canvas(0, 0, &source, BlendMode::default());
    assert_pixels(&canvas, |_, _| Color::red());
    canvas.draw_canvas(0, 0, &source, Default::default());
    assert_pixels(&canvas, |_, _| Color::red());
}

#[test]
fn blit_is_clipped_to_the_canvas() {
    let source = Canvas::<3, 3>::with_background_color(Color::blue());
    let mut canvas = Canvas::<4, 4>::new();
    canvas.draw_canvas(2, 3, &source, BlendMode::Replace);
    canvas.draw_canvas(4, 0, &source, BlendMode::Replace);
    canvas.draw_canvas(0, 4, &source, BlendMode::Replace);
    canvas.draw_canvas(usize::MAX, usize::MAX, &source, BlendMode::Replace);
    assert_pixels(&canvas, |x, y| if x >= 2 && y >= 3 { Color::blue() } else { Color::black() });
}

#[test]
fn blit_of_a_larger_canvas() {
    let mut source = Canvas::<8, 8>::with_background_color(Color::yellow());
    source.draw_pixel(1, 1, Color::red());
    let mut canvas = Canvas::<2, 2>::new();
    canvas.draw_canvas(0, 0, &source, BlendMode::Replace);
    assert_pixels(&canvas, |x, y| if (x, y) == (1, 1) { Color::red() } else { Color::yellow() });
}

#[test]
fn text_advances_by_glyph_width_and_interspace() {
    let mut canvas = Canvas::<8, 4>::new();
    let opts = TextOptions { interspace: 1, color: Color::blue() };
    canvas.draw_text(0, 0, "AA", TinyFont, opts);
    assert_pixels(&canvas, |x, y| {
        under_stencil(&LETTER_A, 0, 0, x, y, Color::new(0, 0, 255))
            .or(under_stencil(&LETTER_A, 4, 0, x, y, Color::new(0, 0, 255)))
            .unwrap_or(Color::new(0, 0, 0))
    });
    for y in 0..4 {
        assert_eq!(pixel(&canvas, 3, y), Color::black());
    }
}

#[test]
fn text_options_default_to_white_with_one_pixel_between_glyphs() {
    let opts = TextOptions::default();
    assert_eq!(opts.interspace, 1);
    assert_eq!(opts.color, Color::white());
    let mut canvas = Canvas::<12, 5>::with_background_color(Color::red());
    canvas.draw_text(1, 2, "A?A", TinyFont, Default::default());
    assert_pixels(&canvas, |x, y| {
        under_stencil(&LETTER_A, 1, 2, x, y, Color::white())
            .or(under_stencil(&LETTER_A, 9, 2, x, y, Color::white()))
            .unwrap_or(Color::red())
    });
}

#[test]
fn text_without_interspace_and_beyond_the_edge() {
    let mut canvas = Canvas::<7, 3>::new();
    canvas.draw_text(0, 0, "A1A7", TinyFont, TextOptions { interspace: 0, color: Color::green() });
    assert_pixels(&canvas, |x, y| {
        under_stencil(&LETTER_A, 0, 0, x, y, Color::green())
            .or(under_stencil(&DIGIT_1, 3, 0, x, y, Color::green()))
            .or(if x == 6 { under_stencil(&LETTER_A, 6, 0, x, y, Color::green()) } else { None })
            .unwrap_or(Color::black())
    });
}

#[test]
fn text_far_to_the_right_draws_nothing() {
    let mut canvas = Canvas::<7, 3>::new();
    canvas.draw_text(usize::MAX - 2, 0, "AAA", TinyFont, TextOptions::default());
    canvas.draw_text(0, 0, "", TinyFont, TextOptions::default());
    canvas.draw_text(7, 0, "AAA", TinyFont, TextOptions { interspace: usize::MAX, color: Color::white() });
    assert_pixels(&canvas, |_, _| Color::black());
    canvas.draw_text(0, 0, "AA", TinyFont, TextOptions { interspace: usize::MAX, color: Color::white() });
    assert_pixels(&canvas, |x, y| {
        under_stencil(&LETTER_A, 0, 0, x, y, Color::white()).unwrap_or(Color::black())
    });
}

#[test]
fn number_is_drawn_digit_by_digit() {
    let mut canvas = Canvas::<16, 3>::new();
    canvas.draw_number(0, 0, 1047, TinyFont, TextOptions { interspace: 1, color: Color::red() });
    assert_pixels(&canvas, |x, y| {
        under_stencil(&DIGIT_1, 0, 0, x, y, Color::red())
            .or(under_stencil(&DIGIT_0, 4, 0, x, y, Color::red()))
            .or(under_stencil(&DIGIT_4, 8, 0, x, y, Color::red()))
            .or(under_stencil(&DIGIT_7, 12, 0, x, y, Color::red()))
            .unwrap_or(Color::black())
    });
}

#[test]
fn zero_is_drawn_as_one_digit() {
    let mut canvas = Canvas::<8, 3>::new();
    canvas.draw_number(0, 0, 0, TinyFont, TextOptions::default());
    assert_pixels(&canvas, |x, y| {
        under_stencil(&DIGIT_0, 0, 0, x, y, Color::white()).unwrap_or(Color::black())
    });
}

#[test]
fn number_has_no_leading_zero() {
    let mut seven = Canvas::<8, 3>::new();
    seven.draw_number(0, 0, 7, TinyFont, TextOptions::default());
    assert_pixels(&seven, |x, y| {
        under_stencil(&DIGIT_7, 0, 0, x, y, Color::white()).unwrap_or(Color::black())
    });
    let mut ten = Canvas::<8, 3>::new();
    ten.draw_number(0, 0, 10, TinyFont, TextOptions::default());
    assert_pixels(&ten, |x, y| {
        under_stencil(&DIGIT_1, 0, 0, x, y, Color::white())
            .or(under_stencil(&DIGIT_0, 4, 0, x, y, Color::white()))
            .unwrap_or(Color::black())
    });
}

#[test]
fn largest_number_has_ten_digits() {
    // 4294967295: the digits 4, 7, 1 and 0 have a glyph, the others are blank.
    let mut canvas = Canvas::<40, 3>::new();
    canvas.draw_number(0, 0, u32::MAX, TinyFont, TextOptions { interspace: 1, color: Color::cyan() });
    assert_pixels(&canvas, |x, y| {
        under_stencil(&DIGIT_4, 0, 0, x, y, Color::cyan())
            .or(under_stencil(&DIGIT_4, 12, 0, x, y, Color::cyan()))
            .or(under_stencil(&DIGIT_7, 24, 0, x, y, Color::cyan()))
            .unwrap_or(Color::black())
    });
}

#[test]
fn char_is_drawn_as_its_stencil() {
    let mut canvas = Canvas::<5, 5>::new();
    canvas.draw_char(1, 2, 'A', Color::magenta(), TinyFont);
    assert_pixels(&canvas, |x, y| {
        under_stencil(&LETTER_A, 1, 2, x, y, Color::magenta()).unwrap_or(Color::black())
    });
    canvas.draw_char(0, 0, ' ', Color::white(), TinyFont);
    assert_pixels(&canvas, |x, y| {
        under_stencil(&LETTER_A, 1, 2, x, y, Color::magenta()).unwrap_or(Color::black())
    });
}

#[test]
fn raw_pixels_can_be_written() {
    let mut canvas = Canvas::<3, 2>::new();
    canvas.as_mut()[1][2] = Color::new(9, 8, 7);
    assert_pixels(&canvas, |x, y| if (x, y) == (2, 1) { Color::new(9, 8, 7) } else { Color::black() });
}

#[test]
fn clone_is_a_copy() {
    let mut canvas = Canvas::<3, 2>::new();
    canvas.draw_pixel(1, 1, Color::red());
    let copy = canvas.clone();
    canvas.draw_pixel(0, 0, Color::blue());
    assert_pixels(&copy, |x, y| if (x, y) == (1, 1) { Color::red() } else { Color::black() });
}

#[test]
fn drawing_calls_chain() {
    let mut canvas = Canvas::<4, 4>::new();
    canvas
        .clear_with_color(Color::red())
        .draw_rectangle(0, 0, 2, 2, Color::green())
        .draw_pixel(0, 0, Color::blue())
        .draw_stencil(1, 1, &DIGIT_1, Color::white());
    assert_pixels(&canvas, |x, y| {
        if x == 2 && (1..4).contains(&y) {
            Color::white()
        } else if (x, y) == (0, 0) {
            Color::blue()
        } else if x < 2 && y < 2 {
            Color::green()
        } else {
            Color::red()
        }
    });
}
