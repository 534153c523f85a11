//! The RGB framebuffer and its drawing primitives.
//!
//! A canvas is viewed as a sequence of rows, each a sequence of colours, so
//! `canvas@[y][x]` is the pixel in column `x` of row `y`. Every drawing
//! primitive is described by the grid it leaves behind, given as a function
//! of the grid it found.

use crate::fonts::{glyphs_of, Font};
use vstd::prelude::*;
use vstd::string::StrSliceExecFns;

verus! {

/// A stencil of 5 columns and 7 rows: the glyph size of the small font.
pub type Stencil5x7 = Stencil<5, 7>;

/// A stencil of 8 columns and 16 rows: the glyph size of the large font.
pub type Stencil8x16 = Stencil<8, 16>;

/// A binary bitmap: a cell that holds zero is transparent, any other cell is
/// opaque.
pub struct Stencil<const W: usize, const H: usize>(pub [[u8; W]; H]);

impl<const W: usize, const H: usize> View for Stencil<W, H> {
    type V = Seq<Seq<u8>>;

    open spec fn view(&self) -> Seq<Seq<u8>> {
        Seq::new(H as nat, |y: int| self.0@[y]@)
    }
}

/// An RGB colour with eight bits per channel.
#[derive(Clone, Copy, Debug, PartialEq, Eq, Structural)]
pub struct Color {
    pub r: u8,
    pub g: u8,
    pub b: u8,
}

impl Color {
    /// The colour with these channels.
    pub open spec fn rgb(r: u8, g: u8, b: u8) -> Color {
        Color { r, g, b }
    }

    /// The colour with these channels. The named colours below are the
    /// corners of the colour cube.
    pub fn new(r: u8, g: u8, b: u8) -> (color: Color)
        ensures
            color == Color::rgb(r, g, b),
    {
        Color { r, g, b }
    }

    pub fn r(&self) -> (r: u8)
        ensures
            r == self.r,
    {
        self.r
    }

    pub fn g(&self) -> (g: u8)
        ensures
            g == self.g,
    {
        self.g
    }

    pub fn b(&self) -> (b: u8)
        ensures
            b == self.b,
    {
        self.b
    }

    pub fn white() -> (color: Color)
        ensures
            color == Color::rgb(255, 255, 255),
    {
        Color { r: 255, g: 255, b: 255 }
    }

    pub fn black() -> (color: Color)
        ensures
            color == Color::rgb(0, 0, 0),
    {
        Color { r: 0, g: 0, b: 0 }
    }

    pub fn blue() -> (color: Color)
        ensures
            color == Color::rgb(0, 0, 255),
    {
        Color { r: 0, g: 0, b: 255 }
    }

    pub fn red() -> (color: Color)
        ensures
            color == Color::rgb(255, 0, 0),
    {
        Color { r: 255, g: 0, b: 0 }
    }

    pub fn yellow() -> (color: Color)
        ensures
            color == Color::rgb(255, 255, 0),
    {
        Color { r: 255, g: 255, b: 0 }
    }

    pub fn green() -> (color: Color)
        ensures
            color == Color::rgb(0, 255, 0),
    {
        Color { r: 0, g: 255, b: 0 }
    }

    pub fn cyan() -> (color: Color)
        ensures
            color == Color::rgb(0, 255, 255),
    {
        Color { r: 0, g: 255, b: 255 }
    }

    pub fn magenta() -> (color: Color)
        ensures
            color == Color::rgb(255, 0, 255),
    {
        Color { r: 255, g: 0, b: 255 }
    }
}

/// How text is laid out: the gap between two glyphs, in pixels, and the
/// colour of the opaque cells.
pub struct TextOptions {
    pub interspace: usize,
    pub color: Color,
}

impl Default for TextOptions {
    fn default() -> (opts: Self)
        ensures
            opts.interspace == 1,
            opts.color == Color::rgb(255, 255, 255),
    {
        Self { interspace: 1, color: Color::white() }
    }
}

/// How a source canvas is laid over a destination.
pub enum BlendMode {
    /// Black source pixels leave the destination as it is.
    TransparentBlack,
    /// Every source pixel replaces the one below it.
    Replace,
}

impl Default for BlendMode {
    fn default() -> (mode: Self)
        ensures
            mode == BlendMode::TransparentBlack,
    {
        BlendMode::TransparentBlack
    }
}

/// The grid of `width` columns and `height` rows that holds `color` everywhere.
pub open spec fn filled(width: nat, height: nat, color: Color) -> Seq<Seq<Color>> {
    Seq::new(height, |y: int| Seq::new(width, |x: int| color))
}

/// Whether `(px, py)` lies in the rectangle of `width` columns and `height`
/// rows whose top left corner is `(x, y)`.
pub open spec fn in_rectangle(px: int, py: int, x: int, y: int, width: int, height: int) -> bool {
    x <= px < x + width && y <= py < y + height
}

/// `grid` with the pixel at `(x, y)` set to `color`; `grid` itself where
/// `(x, y)` lies outside it.
pub open spec fn with_pixel(grid: Seq<Seq<Color>>, x: int, y: int, color: Color) -> Seq<
    Seq<Color>,
> {
    Seq::new(
        grid.len(),
        |py: int|
            Seq::new(
                grid[py].len(),
                |px: int|
                    if px == x && py == y {
                        color
                    } else {
                        grid[py][px]
                    },
            ),
    )
}

/// `grid` with `color` in every pixel of the rectangle at `(x, y)`.
pub open spec fn with_rectangle(
    grid: Seq<Seq<Color>>,
    x: int,
    y: int,
    width: int,
    height: int,
    color: Color,
) -> Seq<Seq<Color>> {
    Seq::new(
        grid.len(),
        |py: int|
            Seq::new(
                grid[py].len(),
                |px: int|
                    if in_rectangle(px, py, x, y, width, height) {
                        color
                    } else {
                        grid[py][px]
                    },
            ),
    )
}

/// Whether the stencil laid down with its top left corner at `(x, y)` has an
/// opaque cell over `(px, py)`.
pub open spec fn stencil_covers(stencil: Seq<Seq<u8>>, x: int, y: int, px: int, py: int) -> bool {
    &&& 0 <= py - y < stencil.len()
    &&& 0 <= px - x < stencil[py - y].len()
    &&& stencil[py - y][px - x] != 0
}

/// `grid` with `color` under every opaque cell of the stencil laid down at
/// `(x, y)`.
pub open spec fn with_stencil(
    grid: Seq<Seq<Color>>,
    x: int,
    y: int,
    stencil: Seq<Seq<u8>>,
    color: Color,
) -> Seq<Seq<Color>> {
    Seq::new(
        grid.len(),
        |py: int|
            Seq::new(
                grid[py].len(),
                |px: int|
                    if stencil_covers(stencil, x, y, px, py) {
                        color
                    } else {
                        grid[py][px]
                    },
            ),
    )
}

/// Whether a source pixel of colour `color` is written under `mode`.
pub open spec fn blends(mode: BlendMode, color: Color) -> bool {
    mode == BlendMode::Replace || color != Color::rgb(0, 0, 0)
}

/// Whether the source grid laid down with its top left corner at `(x, y)`
/// writes to `(px, py)` under `mode`.
pub open spec fn source_covers(
    source: Seq<Seq<Color>>,
    mode: BlendMode,
    x: int,
    y: int,
    px: int,
    py: int,
) -> bool {
    &&& 0 <= py - y < source.len()
    &&& 0 <= px - x < source[py - y].len()
    &&& blends(mode, source[py - y][px - x])
}

/// `grid` with the source grid laid over it at `(x, y)` under `mode`.
pub open spec fn with_canvas(
    grid: Seq<Seq<Color>>,
    x: int,
    y: int,
    source: Seq<Seq<Color>>,
    mode: BlendMode,
) -> Seq<Seq<Color>> {
    Seq::new(
        grid.len(),
        |py: int|
            Seq::new(
                grid[py].len(),
                |px: int|
                    if source_covers(source, mode, x, y, px, py) {
                        source[py - y][px - x]
                    } else {
                        grid[py][px]
                    },
            ),
    )
}

/// `grid` with the stencils of `glyphs` laid down from left to right in
/// `color`, the first at `(x, y)` and each next one `advance` pixels further
/// right.
pub open spec fn with_glyphs(
    grid: Seq<Seq<Color>>,
    x: int,
    y: int,
    glyphs: Seq<Seq<Seq<u8>>>,
    advance: int,
    color: Color,
) -> Seq<Seq<Color>>
    decreases glyphs.len(),
{
    if glyphs.len() == 0 {
        grid
    } else {
        with_stencil(
            with_glyphs(grid, x, y, glyphs.drop_last(), advance, color),
            x + (glyphs.len() - 1) * advance,
            y,
            glyphs.last(),
            color,
        )
    }
}

/// Whether every stencil of `glyphs` has `height` rows of `width` cells.
pub open spec fn glyphs_sized(glyphs: Seq<Seq<Seq<u8>>>, width: int, height: int) -> bool {
    &&& forall|i: int| 0 <= i < glyphs.len() ==> (#[trigger] glyphs[i]).len() == height
    &&& forall|i: int, row: int|
        0 <= i < glyphs.len() && 0 <= row < height ==> (#[trigger] glyphs[i][row]).len() == width
}

/// Text keeps to its rectangle. Glyphs of `width` columns and `height` rows
/// that are laid down `advance` pixels apart, `advance` being at least
/// `width`, change no pixel outside the rectangle of `glyphs.len() * advance`
/// columns and `height` rows at `(x, y)`. A pixel that changes takes the
/// text's colour, and the grid keeps its size.
pub proof fn lemma_with_glyphs_frame(
    grid: Seq<Seq<Color>>,
    x: int,
    y: int,
    glyphs: Seq<Seq<Seq<u8>>>,
    advance: int,
    color: Color,
    width: int,
    height: int,
    px: int,
    py: int,
)
    requires
        glyphs_sized(glyphs, width, height),
        0 <= width <= advance,
        0 <= py < grid.len(),
        0 <= px < grid[py].len(),
    ensures
        with_glyphs(grid, x, y, glyphs, advance, color).len() == grid.len(),
        with_glyphs(grid, x, y, glyphs, advance, color)[py].len() == grid[py].len(),
        !in_rectangle(px, py, x, y, glyphs.len() * advance, height) ==> with_glyphs(
            grid,
            x,
            y,
            glyphs,
            advance,
            color,
        )[py][px] == grid[py][px],
        with_glyphs(grid, x, y, glyphs, advance, color)[py][px] == grid[py][px] || with_glyphs(
            grid,
            x,
            y,
            glyphs,
            advance,
            color,
        )[py][px] == color,
    decreases glyphs.len(),
{
    if glyphs.len() > 0 {
        let before = glyphs.drop_last();
        let last = glyphs.last();
        let count = glyphs.len() as int;
        assert(glyphs_sized(before, width, height)) by {
            assert forall|i: int| 0 <= i < before.len() implies (#[trigger] before[i]).len()
                == height by {
                assert(before[i] == glyphs[i]);
            }
            assert forall|i: int, row: int| 0 <= i < before.len() && 0 <= row < height implies (
            #[trigger] before[i][row]).len() == width by {
                assert(before[i][row] == glyphs[i][row]);
            }
        }
        lemma_with_glyphs_frame(grid, x, y, before, advance, color, width, height, px, py);
        assert((count - 1) * advance >= 0 && (count - 1) * advance + advance == count * advance)
            by (nonlinear_arith)
            requires
                count >= 1,
                advance >= 0,
        ;
        assert(last.len() == height);
        if 0 <= py - y < height {
            assert(glyphs[count - 1][py - y].len() == width);
        }
    }
}

/// The stencils of a font all have the font's size.
pub proof fn lemma_glyphs_of_sized<const W: usize, const H: usize, F: Font<W, H>>(
    font: F,
    chars: Seq<char>,
)
    ensures
        glyphs_of(font, chars).len() == chars.len(),
        glyphs_sized(glyphs_of(font, chars), W as int, H as int),
{
    let glyphs = glyphs_of(font, chars);
    assert forall|i: int, row: int| 0 <= i < glyphs.len() && 0 <= row < H implies (
    #[trigger] glyphs[i][row]).len() == W by {
        assert(glyphs[i][row] == font.glyph(chars[i]).0@[row]@);
    }
}

/// Text in a font keeps to its rectangle: the glyphs of `chars`, laid down
/// from `(x, y)` with `interspace` pixels between them, change no pixel
/// outside the rectangle of `chars.len() * (W + interspace)` columns and `H`
/// rows at `(x, y)`.
pub proof fn lemma_text_frame<const W: usize, const H: usize, F: Font<W, H>>(
    grid: Seq<Seq<Color>>,
    x: int,
    y: int,
    font: F,
    chars: Seq<char>,
    interspace: nat,
    color: Color,
)
    ensures
        forall|px: int, py: int|
            0 <= py < grid.len() && 0 <= px < grid[py].len() && !in_rectangle(
                px,
                py,
                x,
                y,
                chars.len() * (W + interspace),
                H as int,
            ) ==> #[trigger] with_glyphs(
                grid,
                x,
                y,
                glyphs_of(font, chars),
                W + interspace,
                color,
            )[py][px] == grid[py][px],
{
    lemma_glyphs_of_sized(font, chars);
    assert forall|px: int, py: int|
        0 <= py < grid.len() && 0 <= px < grid[py].len() && !in_rectangle(
            px,
            py,
            x,
            y,
            chars.len() * (W + interspace),
            H as int,
        ) implies #[trigger] with_glyphs(
        grid,
        x,
        y,
        glyphs_of(font, chars),
        W + interspace,
        color,
    )[py][px] == grid[py][px] by {
        lemma_with_glyphs_frame(
            grid,
            x,
            y,
            glyphs_of(font, chars),
            W + interspace,
            color,
            W as int,
            H as int,
            px,
            py,
        );
    }
}

/// The character that stands for the digit `d`.
pub open spec fn digit_char(d: int) -> char {
    if d == 0 {
        '0'
    } else if d == 1 {
        '1'
    } else if d == 2 {
        '2'
    } else if d == 3 {
        '3'
    } else if d == 4 {
        '4'
    } else if d == 5 {
        '5'
    } else if d == 6 {
        '6'
    } else if d == 7 {
        '7'
    } else if d == 8 {
        '8'
    } else {
        '9'
    }
}

/// The decimal digits of `n`, the most significant first: no leading zero,
/// and the single digit `0` for zero.
pub open spec fn decimal_digits(n: nat) -> Seq<char>
    decreases n,
{
    if n < 10 {
        seq![digit_char(n as int)]
    } else {
        decimal_digits(n / 10).push(digit_char((n % 10) as int))
    }
}

/// Ten to the power `k`, which is positive.
pub open spec fn pow10(k: nat) -> nat
    decreases k,
{
    if k == 0 {
        1
    } else {
        10 * pow10((k - 1) as nat)
    }
}

/// The digit of `n` at index `i`, counted from the most significant one, is
/// `n / 10^(len - 1 - i) % 10`.
pub proof fn lemma_decimal_digit(n: nat, i: int)
    requires
        0 <= i < decimal_digits(n).len(),
    ensures
        decimal_digits(n)[i] == digit_char(
            ((n / pow10((decimal_digits(n).len() - 1 - i) as nat)) % 10) as int,
        ),
    decreases n,
{
    reveal_with_fuel(pow10, 2);
    if n < 10 {
        assert(decimal_digits(n).len() == 1);
        assert(n / 1 == n);
    } else {
        let rest = decimal_digits(n / 10);
        let len = decimal_digits(n).len();
        assert(len == rest.len() + 1);
        if i == len - 1 {
            assert(n / 1 == n);
            assert(decimal_digits(n)[i] == digit_char((n % 10) as int));
        } else {
            lemma_decimal_digit(n / 10, i);
            let k = (rest.len() - 1 - i) as nat;
            assert(len - 1 - i == k + 1);
            assert(pow10(k + 1) == 10 * pow10(k));
            lemma_pow10_positive(k);
            vstd::arithmetic::div_mod::lemma_div_denominator(n as int, 10, pow10(k) as int);
            assert((n / 10) / pow10(k) == n / pow10(k + 1));
            assert(decimal_digits(n)[i] == rest[i]);
        }
    }
}

/// A power of ten is positive.
pub proof fn lemma_pow10_positive(k: nat)
    ensures
        pow10(k) > 0,
    decreases k,
{
    if k > 0 {
        lemma_pow10_positive((k - 1) as nat);
    }
}

/// The end of the part of `[start, start + len)` that lies below `limit`.
fn clipped_end(start: usize, len: usize, limit: usize) -> (end: usize)
    ensures
        end <= limit,
        end == if start + len <= limit {
            start + len
        } else {
            limit as int
        },
{
    if len > limit {
        limit
    } else if start > limit - len {
        limit
    } else {
        start + len
    }
}

/// Where the glyph of index `idx` starts in a line of text that starts at
/// `x`: `x + idx * (glyph_width + interspace)`, or `None` where that does not
/// fit a `usize`.
fn glyph_origin(x: usize, idx: usize, glyph_width: usize, interspace: usize) -> (origin: Option<
    usize,
>)
    ensures
        match origin {
            Some(gx) => gx == x + idx * (glyph_width + interspace),
            None => x + idx * (glyph_width + interspace) > usize::MAX,
        },
{
    if idx == 0 {
        return Some(x);
    }
    match glyph_width.checked_add(interspace) {
        Some(advance) => match idx.checked_mul(advance) {
            Some(offset) => x.checked_add(offset),
            None => None,
        },
        None => {
            assert(idx * (glyph_width + interspace) > usize::MAX) by (nonlinear_arith)
                requires
                    idx >= 1,
                    glyph_width + interspace > usize::MAX,
            ;
            None
        },
    }
}

/// The character for a single decimal digit.
pub(crate) fn digit_to_char(digit: u32) -> (c: char)
    requires
        digit < 10,
    ensures
        c == digit_char(digit as int),
{
    if digit == 0 {
        '0'
    } else if digit == 1 {
        '1'
    } else if digit == 2 {
        '2'
    } else if digit == 3 {
        '3'
    } else if digit == 4 {
        '4'
    } else if digit == 5 {
        '5'
    } else if digit == 6 {
        '6'
    } else if digit == 7 {
        '7'
    } else if digit == 8 {
        '8'
    } else {
        '9'
    }
}

/// The rows of a raw pixel array, as a grid.
pub open spec fn rows_of<const W: usize, const H: usize>(pixels: [[Color; W]; H]) -> Seq<
    Seq<Color>,
> {
    Seq::new(H as nat, |y: int| pixels@[y]@)
}

/// A framebuffer of `HEIGHT` rows of `WIDTH` pixels.
pub struct Canvas<const WIDTH: usize, const HEIGHT: usize>(pub(crate) [[Color; WIDTH]; HEIGHT]);

impl<const WIDTH: usize, const HEIGHT: usize> View for Canvas<WIDTH, HEIGHT> {
    type V = Seq<Seq<Color>>;

    closed spec fn view(&self) -> Seq<Seq<Color>> {
        rows_of(self.0)
    }
}

impl Canvas<64, 32> {
    /// An all black canvas for a panel of 64 by 32 pixels.
    pub fn with_64x32() -> (canvas: Self)
        ensures
            canvas@ == filled(64, 32, Color::rgb(0, 0, 0)),
    {
        Canvas::<64, 32>::new()
    }
}

impl<const WIDTH: usize, const HEIGHT: usize> Default for Canvas<WIDTH, HEIGHT> {
    fn default() -> (canvas: Self)
        ensures
            canvas@ == filled(WIDTH as nat, HEIGHT as nat, Color::rgb(0, 0, 0)),
    {
        Self::new()
    }
}

impl<const WIDTH: usize, const HEIGHT: usize> Clone for Canvas<WIDTH, HEIGHT> {
    fn clone(&self) -> (canvas: Self)
        ensures
            canvas == *self,
    {
        Canvas(self.0)
    }
}

impl<const WIDTH: usize, const HEIGHT: usize> Canvas<WIDTH, HEIGHT> {
    /// A canvas has `HEIGHT` rows of `WIDTH` pixels.
    pub broadcast proof fn lemma_view(self)
        ensures
            #![trigger self@]
            self@.len() == HEIGHT,
            forall|y: int| 0 <= y < HEIGHT ==> (#[trigger] self@[y]).len() == WIDTH,
    {
    }

    /// An all black canvas.
    pub fn new() -> (canvas: Self)
        ensures
            canvas@ == filled(WIDTH as nat, HEIGHT as nat, Color::rgb(0, 0, 0)),
    {
        Self::with_background_color(Color::black())
    }

    /// The pixels as an array of rows.
    pub fn as_ref(&self) -> (pixels: &[[Color; WIDTH]; HEIGHT])
        ensures
            rows_of(*pixels) == self@,
    {
        &self.0
    }

    /// The pixels as an array of rows, for writing: what is written there is
    /// what the canvas holds afterwards.
    pub fn as_mut(&mut self) -> (pixels: &mut [[Color; WIDTH]; HEIGHT])
        ensures
            rows_of(*pixels) == old(self)@,
            final(self)@ == rows_of(*final(pixels)),
    {
        &mut self.0
    }

    /// The number of columns.
    pub fn width(&self) -> (width: usize)
        ensures
            width == WIDTH,
    {
        WIDTH
    }

    /// The number of rows.
    pub fn height(&self) -> (height: usize)
        ensures
            height == HEIGHT,
    {
        HEIGHT
    }

    /// A canvas that holds `color` everywhere.
    pub fn with_background_color(color: Color) -> (canvas: Self)
        ensures
            canvas@ == filled(WIDTH as nat, HEIGHT as nat, color),
    {
        let canvas = Canvas([[color; WIDTH]; HEIGHT]);
        assert(canvas@ =~~= filled(WIDTH as nat, HEIGHT as nat, color));
        canvas
    }

    /// Sets one pixel that lies inside the canvas.
    fn put(&mut self, x: usize, y: usize, color: Color)
        requires
            x < WIDTH,
            y < HEIGHT,
        ensures
            final(self)@ == old(self)@.update(y as int, old(self)@[y as int].update(x as int, color)),
    {
        self.0[y][x] = color;
        assert(self@ =~~= old(self)@.update(y as int, old(self)@[y as int].update(x as int, color)));
    }

    /// Sets every pixel to `color`.
    pub fn clear_with_color(&mut self, color: Color) -> (ret: &mut Self)
        ensures
            ret@ == filled(WIDTH as nat, HEIGHT as nat, color),
            *final(self) == *final(ret),
    {
        let mut line: usize = 0;
        while line < HEIGHT
            invariant
                line <= HEIGHT,
                forall|py: int, px: int|
                    0 <= py < line && 0 <= px < WIDTH ==> #[trigger] self@[py][px] == color,
            decreases HEIGHT - line,
        {
            let mut col: usize = 0;
            while col < WIDTH
                invariant
                    line < HEIGHT,
                    col <= WIDTH,
                    forall|py: int, px: int|
                        0 <= py < line && 0 <= px < WIDTH ==> #[trigger] self@[py][px] == color,
                    forall|px: int| 0 <= px < col ==> self@[line as int][px] == color,
                decreases WIDTH - col,
            {
                self.put(col, line, color);
                col += 1;
            }
            line += 1;
        }
        assert(self@ =~~= filled(WIDTH as nat, HEIGHT as nat, color));
        self
    }

    /// Sets every pixel to black.
    pub fn clear(&mut self) -> (ret: &mut Self)
        ensures
            ret@ == filled(WIDTH as nat, HEIGHT as nat, Color::rgb(0, 0, 0)),
            *final(self) == *final(ret),
    {
        self.clear_with_color(Color::black())
    }

    /// Fills the rectangle of `width` columns and `height` rows whose top
    /// left corner is `(x, y)`. The part of it that lies outside the canvas
    /// is dropped, wherever it lies and however large it is.
    pub fn draw_rectangle(
        &mut self,
        x: usize,
        y: usize,
        width: usize,
        height: usize,
        color: Color,
    ) -> (ret: &mut Self)
        ensures
            ret@ == with_rectangle(old(self)@, x as int, y as int, width as int, height as int, color),
            forall|px: int, py: int|
                0 <= px < WIDTH && 0 <= py < HEIGHT && !in_rectangle(
                    px,
                    py,
                    x as int,
                    y as int,
                    width as int,
                    height as int,
                ) ==> #[trigger] ret@[py][px] == old(self)@[py][px],
            *final(self) == *final(ret),
    {
        let y_max = clipped_end(y, height, HEIGHT);
        let x_max = clipped_end(x, width, WIDTH);
        let mut y_pos = y;
        while y_pos < y_max
            invariant
                y_max <= HEIGHT,
                x_max <= WIDTH,
                y <= y_pos,
                y_pos <= y_max || y_pos == y,
                forall|py: int, px: int|
                    0 <= py < HEIGHT && 0 <= px < WIDTH ==> #[trigger] self@[py][px] == if y
                        <= py < y_pos && x <= px < x_max {
                        color
                    } else {
                        old(self)@[py][px]
                    },
            decreases y_max - y_pos,
        {
            let mut x_pos = x;
            while x_pos < x_max
                invariant
                    y_pos < y_max <= HEIGHT,
                    x_max <= WIDTH,
                    x <= x_pos,
                    x_pos <= x_max || x_pos == x,
                    forall|py: int, px: int|
                        0 <= py < HEIGHT && 0 <= px < WIDTH ==> #[trigger] self@[py][px] == if (y
                            <= py < y_pos && x <= px < x_max) || (py == y_pos && x <= px < x_pos) {
                            color
                        } else {
                            old(self)@[py][px]
                        },
                decreases x_max - x_pos,
            {
                self.put(x_pos, y_pos, color);
                x_pos += 1;
            }
            y_pos += 1;
        }
        assert(self@ =~~= with_rectangle(
            old(self)@,
            x as int,
            y as int,
            width as int,
            height as int,
            color,
        ));
        self
    }

    /// Sets the pixel at `(x, y)`. A pixel outside the canvas is dropped.
    pub fn draw_pixel(&mut self, x: usize, y: usize, color: Color) -> (ret: &mut Self)
        ensures
            ret@ == with_pixel(old(self)@, x as int, y as int, color),
            forall|px: int, py: int|
                0 <= px < WIDTH && 0 <= py < HEIGHT && !(px == x && py == y)
                    ==> #[trigger] ret@[py][px] == old(self)@[py][px],
            *final(self) == *final(ret),
    {
        if x < WIDTH && y < HEIGHT {
            self.put(x, y, color);
        }
        assert(self@ =~~= with_pixel(old(self)@, x as int, y as int, color));
        self
    }

    /// Lays `canvas` over this canvas with its top left corner at `(x, y)`.
    /// Under `Replace` every source pixel that lands inside is copied; under
    /// `TransparentBlack` the black ones leave what lies below them. The
    /// part of the source that lands outside is dropped.
    pub fn draw_canvas<const W: usize, const H: usize>(
        &mut self,
        x: usize,
        y: usize,
        canvas: &Canvas<W, H>,
        blend_mode: BlendMode,
    ) -> (ret: &mut Self)
        ensures
            ret@ == with_canvas(old(self)@, x as int, y as int, canvas@, blend_mode),
            forall|px: int, py: int|
                0 <= px < WIDTH && 0 <= py < HEIGHT && !in_rectangle(
                    px,
                    py,
                    x as int,
                    y as int,
                    W as int,
                    H as int,
                ) ==> #[trigger] ret@[py][px] == old(self)@[py][px],
            forall|px: int, py: int|
                0 <= px < WIDTH && 0 <= py < HEIGHT && in_rectangle(
                    px,
                    py,
                    x as int,
                    y as int,
                    W as int,
                    H as int,
                ) ==> #[trigger] ret@[py][px] == if blend_mode == BlendMode::Replace || canvas@[py
                    - y][px - x] != Color::rgb(0, 0, 0) {
                    canvas@[py - y][px - x]
                } else {
                    old(self)@[py][px]
                },
            *final(self) == *final(ret),
    {
        let replace = match blend_mode {
            BlendMode::Replace => true,
            BlendMode::TransparentBlack => false,
        };
        let y_max = clipped_end(y, H, HEIGHT);
        let x_max = clipped_end(x, W, WIDTH);
        let mut canvas_y_pos = y;
        while canvas_y_pos < y_max
            invariant
                y_max <= HEIGHT,
                x_max <= WIDTH,
                y <= canvas_y_pos,
                canvas_y_pos <= y_max || canvas_y_pos == y,
                y_max <= y + H,
                x_max <= x + W,
                x_max == x + W || x_max == WIDTH,
                replace == (blend_mode == BlendMode::Replace),
                forall|py: int, px: int|
                    0 <= py < HEIGHT && 0 <= px < WIDTH ==> #[trigger] self@[py][px] == if py
                        < canvas_y_pos && source_covers(
                        canvas@,
                        blend_mode,
                        x as int,
                        y as int,
                        px,
                        py,
                    ) {
                        canvas@[py - y][px - x]
                    } else {
                        old(self)@[py][px]
                    },
            decreases y_max - canvas_y_pos,
        {
            let model_y_pos = canvas_y_pos - y;
            let mut canvas_x_pos = x;
            while canvas_x_pos < x_max
                invariant
                    canvas_y_pos < y_max <= HEIGHT,
                    x_max <= WIDTH,
                    x <= canvas_x_pos,
                    canvas_x_pos <= x_max || canvas_x_pos == x,
                    y_max <= y + H,
                    x_max <= x + W,
                    x_max == x + W || x_max == WIDTH,
                    model_y_pos == canvas_y_pos - y,
                    replace == (blend_mode == BlendMode::Replace),
                    forall|py: int, px: int|
                        0 <= py < HEIGHT && 0 <= px < WIDTH ==> #[trigger] self@[py][px] == if (py
                            < canvas_y_pos || (py == canvas_y_pos && px < canvas_x_pos))
                            && source_covers(canvas@, blend_mode, x as int, y as int, px, py) {
                            canvas@[py - y][px - x]
                        } else {
                            old(self)@[py][px]
                        },
                decreases x_max - canvas_x_pos,
            {
                let model_x_pos = canvas_x_pos - x;
                let point_color = canvas.0[model_y_pos][model_x_pos];
                assert(point_color == canvas@[model_y_pos as int][model_x_pos as int]);
                if replace || point_color != Color::black() {
                    self.put(canvas_x_pos, canvas_y_pos, point_color);
                }
                canvas_x_pos += 1;
            }
            canvas_y_pos += 1;
        }
        assert(self@ =~~= with_canvas(old(self)@, x as int, y as int, canvas@, blend_mode));
        self
    }

    /// Lays the stencil `model` down with its top left corner at `(x, y)`:
    /// the pixels under its opaque cells take `color`, those under its
    /// transparent cells stay as they are. The part of the stencil that
    /// lands outside the canvas is dropped.
    pub fn draw_stencil<const W: usize, const H: usize>(
        &mut self,
        x: usize,
        y: usize,
        model: &Stencil<W, H>,
        color: Color,
    ) -> (ret: &mut Self)
        ensures
            ret@ == with_stencil(old(self)@, x as int, y as int, model@, color),
            forall|px: int, py: int|
                0 <= px < WIDTH && 0 <= py < HEIGHT && !in_rectangle(
                    px,
                    py,
                    x as int,
                    y as int,
                    W as int,
                    H as int,
                ) ==> #[trigger] ret@[py][px] == old(self)@[py][px],
            forall|px: int, py: int|
                0 <= px < WIDTH && 0 <= py < HEIGHT && in_rectangle(
                    px,
                    py,
                    x as int,
                    y as int,
                    W as int,
                    H as int,
                ) && model@[py - y][px - x] == 0 ==> #[trigger] ret@[py][px] == old(self)@[py][px],
            *final(self) == *final(ret),
    {
        let y_max = clipped_end(y, H, HEIGHT);
        let x_max = clipped_end(x, W, WIDTH);
        let mut canvas_y_pos = y;
        while canvas_y_pos < y_max
            invariant
                y_max <= HEIGHT,
                x_max <= WIDTH,
                y <= canvas_y_pos,
                canvas_y_pos <= y_max || canvas_y_pos == y,
                y_max <= y + H,
                x_max <= x + W,
                x_max == x + W || x_max == WIDTH,
                forall|py: int, px: int|
                    0 <= py < HEIGHT && 0 <= px < WIDTH ==> #[trigger] self@[py][px] == if py
                        < canvas_y_pos && stencil_covers(model@, x as int, y as int, px, py) {
                        color
                    } else {
                        old(self)@[py][px]
                    },
            decreases y_max - canvas_y_pos,
        {
            let model_y_pos = canvas_y_pos - y;
            let mut canvas_x_pos = x;
            while canvas_x_pos < x_max
                invariant
                    canvas_y_pos < y_max <= HEIGHT,
                    x_max <= WIDTH,
                    x <= canvas_x_pos,
                    canvas_x_pos <= x_max || canvas_x_pos == x,
                    y_max <= y + H,
                    x_max <= x + W,
                    x_max == x + W || x_max == WIDTH,
                    model_y_pos == canvas_y_pos - y,
                    forall|py: int, px: int|
                        0 <= py < HEIGHT && 0 <= px < WIDTH ==> #[trigger] self@[py][px] == if (py
                            < canvas_y_pos || (py == canvas_y_pos && px < canvas_x_pos))
                            && stencil_covers(model@, x as int, y as int, px, py) {
                            color
                        } else {
                            old(self)@[py][px]
                        },
                decreases x_max - canvas_x_pos,
            {
                let model_x_pos = canvas_x_pos - x;
                let cell = model.0[model_y_pos][model_x_pos];
                assert(cell == model@[model_y_pos as int][model_x_pos as int]);
                if cell != 0 {
                    self.put(canvas_x_pos, canvas_y_pos, color);
                }
                canvas_x_pos += 1;
            }
            canvas_y_pos += 1;
        }
        assert(self@ =~~= with_stencil(old(self)@, x as int, y as int, model@, color));
        self
    }

    /// Lays down the glyph of index `idx` in a line of text that starts at
    /// `(x, y)`. A glyph whose position does not fit a `usize` lies right of
    /// every canvas, so nothing is drawn for it.
    fn draw_glyph<const W: usize, const H: usize>(
        &mut self,
        x: usize,
        y: usize,
        idx: usize,
        stencil: &Stencil<W, H>,
        interspace: usize,
        color: Color,
    )
        ensures
            final(self)@ == with_stencil(
                old(self)@,
                x + idx * (W + interspace),
                y as int,
                stencil@,
                color,
            ),
    {
        match glyph_origin(x, idx, W, interspace) {
            Some(origin) => {
                self.draw_stencil(origin, y, stencil, color);
            },
            None => {
                assert(self@ =~~= with_stencil(
                    self@,
                    x + idx * (W + interspace),
                    y as int,
                    stencil@,
                    color,
                ));
            },
        }
    }

    /// Writes `text` from `(x, y)` to the right: the stencil of each
    /// character in turn, each `W + opts.interspace` pixels right of the one
    /// before it.
    pub fn draw_text<const W: usize, const H: usize>(
        &mut self,
        x: usize,
        y: usize,
        text: &str,
        font: impl Font<W, H>,
        opts: TextOptions,
    ) -> (ret: &mut Self)
        ensures
            ret@ == with_glyphs(
                old(self)@,
                x as int,
                y as int,
                glyphs_of(font, text@),
                W + opts.interspace,
                opts.color,
            ),
            forall|px: int, py: int|
                0 <= px < WIDTH && 0 <= py < HEIGHT && !in_rectangle(
                    px,
                    py,
                    x as int,
                    y as int,
                    text@.len() * (W + opts.interspace),
                    H as int,
                ) ==> #[trigger] ret@[py][px] == old(self)@[py][px],
            *final(self) == *final(ret),
    {
        let ghost glyphs = glyphs_of(font, text@);
        let count = text.unicode_len();
        let mut idx: usize = 0;
        while idx < count
            invariant
                idx <= count == text@.len(),
                glyphs == glyphs_of(font, text@),
                self@ == with_glyphs(
                    old(self)@,
                    x as int,
                    y as int,
                    glyphs.take(idx as int),
                    W + opts.interspace,
                    opts.color,
                ),
            decreases count - idx,
        {
            let c = text.get_char(idx);
            let stencil = font.stencil_for(c);
            self.draw_glyph(x, y, idx, stencil, opts.interspace, opts.color);
            proof {
                let drawn = glyphs.take(idx + 1);
                assert(drawn.drop_last() == glyphs.take(idx as int));
                assert(drawn.last() == stencil@);
            }
            idx += 1;
        }
        assert(glyphs.take(count as int) == glyphs);
        proof {
            lemma_text_frame(
                old(self)@,
                x as int,
                y as int,
                font,
                text@,
                opts.interspace as nat,
                opts.color,
            );
        }
        self
    }

    /// Writes `number` in decimal from `(x, y)` to the right, as `draw_text`
    /// writes its digits: no leading zero, and `0` for zero.
    pub fn draw_number<const W: usize, const H: usize>(
        &mut self,
        x: usize,
        y: usize,
        number: u32,
        font: impl Font<W, H>,
        opts: TextOptions,
    ) -> (ret: &mut Self)
        ensures
            ret@ == with_glyphs(
                old(self)@,
                x as int,
                y as int,
                glyphs_of(font, decimal_digits(number as nat)),
                W + opts.interspace,
                opts.color,
            ),
            forall|px: int, py: int|
                0 <= px < WIDTH && 0 <= py < HEIGHT && !in_rectangle(
                    px,
                    py,
                    x as int,
                    y as int,
                    decimal_digits(number as nat).len() * (W + opts.interspace),
                    H as int,
                ) ==> #[trigger] ret@[py][px] == old(self)@[py][px],
            *final(self) == *final(ret),
    {
        let ghost digits = decimal_digits(number as nat);
        let ghost glyphs = glyphs_of(font, digits);
        let mut digit_nb: u32 = 1;
        let mut divisor: u32 = 1;
        let mut remain = number;
        while remain > 9
            invariant
                1 <= digit_nb <= 10,
                1 <= divisor,
                divisor == pow10((digit_nb - 1) as nat),
                remain == number / divisor,
                divisor * remain <= number,
                digits.len() == decimal_digits(remain as nat).len() + digit_nb - 1,
                digits == decimal_digits(number as nat),
            decreases remain,
        {
            proof {
                vstd::arithmetic::div_mod::lemma_div_denominator(
                    number as int,
                    divisor as int,
                    10,
                );
                assert(divisor * 10 <= number) by (nonlinear_arith)
                    requires
                        divisor * remain <= number,
                        remain >= 10,
                        divisor >= 0,
                ;
                assert((divisor * 10) * (remain / 10) <= number) by (nonlinear_arith)
                    requires
                        divisor * remain <= number,
                        10 * (remain / 10) <= remain,
                        divisor >= 0,
                ;
                if digit_nb == 10 {
                    reveal_with_fuel(pow10, 10);
                    assert(pow10(9) == 1_000_000_000);
                }
            }
            digit_nb += 1;
            divisor = divisor * 10;
            remain = remain / 10;
        }
        let digit_nb = digit_nb;
        let mut to_draw = number;
        let mut idx: u32 = 0;
        assert(number < divisor * 10) by {
            vstd::arithmetic::div_mod::lemma_fundamental_div_mod(number as int, divisor as int);
            assert(divisor * (number / divisor) <= divisor * 9) by (nonlinear_arith)
                requires
                    number / divisor <= 9,
                    divisor >= 0,
            ;
        }
        assert(number as nat % pow10(digit_nb as nat) == number) by {
            assert(pow10(digit_nb as nat) == 10 * pow10((digit_nb - 1) as nat));
            vstd::arithmetic::div_mod::lemma_small_mod(number as nat, pow10(digit_nb as nat));
        }
        while idx < digit_nb
            invariant
                idx <= digit_nb == digits.len(),
                digits == decimal_digits(number as nat),
                glyphs == glyphs_of(font, digits),
                idx < digit_nb ==> divisor == pow10((digit_nb - 1 - idx) as nat),
                to_draw == number as nat % pow10((digit_nb - idx) as nat),
                self@ == with_glyphs(
                    old(self)@,
                    x as int,
                    y as int,
                    glyphs.take(idx as int),
                    W + opts.interspace,
                    opts.color,
                ),
            decreases digit_nb - idx,
        {
            proof {
                let k = (digit_nb - 1 - idx) as nat;
                lemma_pow10_positive(k);
                assert(pow10(k + 1) == 10 * pow10(k));
                vstd::arithmetic::div_mod::lemma_mod_breakdown(number as int, divisor as int, 10);
                vstd::arithmetic::div_mod::lemma_fundamental_div_mod_converse(
                    to_draw as int,
                    divisor as int,
                    (number as int / divisor as int) % 10,
                    number as int % divisor as int,
                );
                lemma_decimal_digit(number as nat, idx as int);
                if k > 0 {
                    assert(pow10(k) == 10 * pow10((k - 1) as nat));
                }
            }
            let extracted_digit = to_draw / divisor;
            let extracted_digit_char = digit_to_char(extracted_digit);
            to_draw = to_draw - extracted_digit * divisor;
            divisor = divisor / 10;
            let stencil = font.stencil_for(extracted_digit_char);
            self.draw_glyph(x, y, idx as usize, stencil, opts.interspace, opts.color);
            proof {
                let drawn = glyphs.take(idx + 1);
                assert(drawn.drop_last() == glyphs.take(idx as int));
                assert(drawn.last() == stencil@);
            }
            idx += 1;
        }
        assert(glyphs.take(digit_nb as int) == glyphs);
        proof {
            lemma_text_frame(
                old(self)@,
                x as int,
                y as int,
                font,
                digits,
                opts.interspace as nat,
                opts.color,
            );
        }
        self
    }

    /// Lays down the stencil that `font` holds for `c`, at `(x, y)`.
    pub fn draw_char<const W: usize, const H: usize>(
        &mut self,
        x: usize,
        y: usize,
        c: char,
        color: Color,
        font: impl Font<W, H>,
    ) -> (ret: &mut Self)
        ensures
            ret@ == with_stencil(old(self)@, x as int, y as int, font.glyph(c)@, color),
            forall|px: int, py: int|
                0 <= px < WIDTH && 0 <= py < HEIGHT && !in_rectangle(
                    px,
                    py,
                    x as int,
                    y as int,
                    W as int,
                    H as int,
                ) ==> #[trigger] ret@[py][px] == old(self)@[py][px],
            *final(self) == *final(ret),
    {
        let stencil = font.stencil_for(c);
        self.draw_stencil(x, y, stencil, color);
        self
    }
}

} // verus!
