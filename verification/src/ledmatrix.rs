//! The matrix driver: which pins to write, in which order, to show one row
//! pair of a canvas at one bit-plane.
//!
//! The panel is written through thirteen output lines. The driver does not
//! touch them: it keeps the level it last gave each line and hands out the
//! writes to perform, in order. The order for one row pair is
//!
//! ```text
//! for each column:   R1 G1 B1 R2 G2 B2, then CLK high, CLK low
//! OE high
//! the address lines, least significant first
//! LAT high, LAT low
//! OE low
//! ```

use crate::canvas::{Canvas, Color};
use vstd::prelude::*;

verus! {

/// One of the output lines of the panel. `Line(0)` is the least significant
/// address line.
#[derive(Clone, Copy, Debug, PartialEq, Eq, Structural)]
pub enum MatrixPin {
    R1,
    G1,
    B1,
    R2,
    G2,
    B2,
    Clk,
    Lat,
    Oe,
    Line(usize),
}

/// One write to an output line.
#[derive(Clone, Copy, Debug, PartialEq, Eq, Structural)]
pub struct PinWrite {
    pub pin: MatrixPin,
    pub high: bool,
}

/// Which bit of each colour channel is shown: 0 is the least significant,
/// 7 the most significant.
#[derive(Clone, Copy)]
pub struct ColorBitPosition(pub u8);

impl ColorBitPosition {
    /// The position of the most significant bit of a channel.
    pub const MSB_POSITION: u8 = 7;

    /// The position of the least significant bit of a channel.
    pub const LSB_POSITION: u8 = 0;
}

impl Default for ColorBitPosition {
    /// The most significant bit.
    fn default() -> (position: Self)
        ensures
            position.0 == 7,
    {
        ColorBitPosition(7)
    }
}

/// Bit `bit` of a channel value.
pub open spec fn channel_bit(value: u8, bit: u8) -> bool {
    (value >> bit) & 1 == 1
}

/// Bit `idx` of a row pair's index.
pub open spec fn address_bit(line: usize, idx: usize) -> bool {
    (line >> idx) & 1 == 1
}

/// The writes that shift one column in: the colour lines of the upper and
/// the lower row, then one clock pulse.
pub open spec fn column_signals(top: Color, bottom: Color, bit: u8) -> Seq<PinWrite> {
    seq![
        PinWrite { pin: MatrixPin::R1, high: channel_bit(top.r, bit) },
        PinWrite { pin: MatrixPin::G1, high: channel_bit(top.g, bit) },
        PinWrite { pin: MatrixPin::B1, high: channel_bit(top.b, bit) },
        PinWrite { pin: MatrixPin::R2, high: channel_bit(bottom.r, bit) },
        PinWrite { pin: MatrixPin::G2, high: channel_bit(bottom.g, bit) },
        PinWrite { pin: MatrixPin::B2, high: channel_bit(bottom.b, bit) },
        PinWrite { pin: MatrixPin::Clk, high: true },
        PinWrite { pin: MatrixPin::Clk, high: false },
    ]
}

/// The writes that shift the first `columns` columns of the row pair `line`
/// in: column 0 first. The lower row of the pair lies `half_height` rows
/// below the upper one.
pub open spec fn shift_signals(
    grid: Seq<Seq<Color>>,
    line: int,
    half_height: int,
    bit: u8,
    columns: nat,
) -> Seq<PinWrite>
    decreases columns,
{
    if columns == 0 {
        Seq::empty()
    } else {
        shift_signals(grid, line, half_height, bit, (columns - 1) as nat) + column_signals(
            grid[line][columns - 1],
            grid[line + half_height][columns - 1],
            bit,
        )
    }
}

/// The writes that put the low `count` bits of `line` on the address lines.
pub open spec fn address_signals(line: usize, count: nat) -> Seq<PinWrite> {
    Seq::new(
        count,
        |idx: int| PinWrite { pin: MatrixPin::Line(idx as usize), high: address_bit(line, idx as usize) },
    )
}

/// The writes that latch what was shifted in onto the row pair `line`: the
/// panel is blanked while the address changes and the latch is pulsed.
pub open spec fn latch_signals(line: usize, address_lines: nat) -> Seq<PinWrite> {
    seq![PinWrite { pin: MatrixPin::Oe, high: true }] + address_signals(line, address_lines)
        + seq![
        PinWrite { pin: MatrixPin::Lat, high: true },
        PinWrite { pin: MatrixPin::Lat, high: false },
        PinWrite { pin: MatrixPin::Oe, high: false },
    ]
}

/// All the writes that show the row pair `line` of `grid` at bit-plane `bit`.
pub open spec fn line_signals(
    grid: Seq<Seq<Color>>,
    line: usize,
    bit: u8,
    width: nat,
    half_height: int,
    address_lines: nat,
) -> Seq<PinWrite> {
    shift_signals(grid, line as int, half_height, bit, width) + latch_signals(line, address_lines)
}

/// The writes that show the first `lines` row pairs of `grid`, one after
/// the other, at bit-plane `bit`.
pub open spec fn frame_signals(
    grid: Seq<Seq<Color>>,
    bit: u8,
    width: nat,
    half_height: int,
    address_lines: nat,
    lines: nat,
) -> Seq<PinWrite>
    decreases lines,
{
    if lines == 0 {
        Seq::empty()
    } else {
        frame_signals(grid, bit, width, half_height, address_lines, (lines - 1) as nat)
            + line_signals(grid, (lines - 1) as usize, bit, width, half_height, address_lines)
    }
}

/// The level of every line of a panel; `lines` holds the address lines,
/// the least significant first.
pub struct PinLevels {
    pub r1: bool,
    pub g1: bool,
    pub b1: bool,
    pub r2: bool,
    pub g2: bool,
    pub b2: bool,
    pub clk: bool,
    pub lat: bool,
    pub oe: bool,
    pub lines: Seq<bool>,
}

impl PinLevels {
    /// The level of `pin`.
    pub open spec fn level(self, pin: MatrixPin) -> bool {
        match pin {
            MatrixPin::R1 => self.r1,
            MatrixPin::G1 => self.g1,
            MatrixPin::B1 => self.b1,
            MatrixPin::R2 => self.r2,
            MatrixPin::G2 => self.g2,
            MatrixPin::B2 => self.b2,
            MatrixPin::Clk => self.clk,
            MatrixPin::Lat => self.lat,
            MatrixPin::Oe => self.oe,
            MatrixPin::Line(idx) => self.lines[idx as int],
        }
    }

    /// These levels once `pin` was given the level `high`.
    pub open spec fn with(self, pin: MatrixPin, high: bool) -> PinLevels {
        PinLevels {
            r1: if pin == MatrixPin::R1 {
                high
            } else {
                self.r1
            },
            g1: if pin == MatrixPin::G1 {
                high
            } else {
                self.g1
            },
            b1: if pin == MatrixPin::B1 {
                high
            } else {
                self.b1
            },
            r2: if pin == MatrixPin::R2 {
                high
            } else {
                self.r2
            },
            g2: if pin == MatrixPin::G2 {
                high
            } else {
                self.g2
            },
            b2: if pin == MatrixPin::B2 {
                high
            } else {
                self.b2
            },
            clk: if pin == MatrixPin::Clk {
                high
            } else {
                self.clk
            },
            lat: if pin == MatrixPin::Lat {
                high
            } else {
                self.lat
            },
            oe: if pin == MatrixPin::Oe {
                high
            } else {
                self.oe
            },
            lines: if pin is Line {
                self.lines.update(pin->Line_0 as int, high)
            } else {
                self.lines
            },
        }
    }

    /// These levels once `signals` were written, in order.
    pub open spec fn after(self, signals: Seq<PinWrite>) -> PinLevels
        decreases signals.len(),
    {
        if signals.len() == 0 {
            self
        } else {
            self.after(signals.drop_last()).with(signals.last().pin, signals.last().high)
        }
    }
}

/// The driver of a panel of `HEIGHT` rows of `WIDTH` pixels that is
/// addressed through `LINECTRL_PIN_COUNT` address lines.
pub struct LedMatrix<const LINECTRL_PIN_COUNT: usize, const WIDTH: usize, const HEIGHT: usize> {
    top_colors: [bool; 3],
    bottom_colors: [bool; 3],
    pin_clk: bool,
    pin_lat: bool,
    pin_oe: bool,
    line_ctrl: [bool; LINECTRL_PIN_COUNT],
}

impl<const LINECTRL_PIN_COUNT: usize, const WIDTH: usize, const HEIGHT: usize> View for LedMatrix<
    LINECTRL_PIN_COUNT,
    WIDTH,
    HEIGHT,
> {
    type V = PinLevels;

    /// The level that each line of the panel was last given.
    closed spec fn view(&self) -> PinLevels {
        PinLevels {
            r1: self.top_colors[0],
            g1: self.top_colors[1],
            b1: self.top_colors[2],
            r2: self.bottom_colors[0],
            g2: self.bottom_colors[1],
            b2: self.bottom_colors[2],
            clk: self.pin_clk,
            lat: self.pin_lat,
            oe: self.pin_oe,
            lines: self.line_ctrl@,
        }
    }
}

/// Whether `pin` is a line of a panel with `address_lines` address lines.
pub open spec fn is_pin(pin: MatrixPin, address_lines: nat) -> bool {
    pin matches MatrixPin::Line(idx) ==> idx < address_lines
}

/// The levels the lines have before anything was shown: all low, but for
/// the output-enable line, which is high (the panel is blanked).
pub open spec fn initial_levels(address_lines: nat) -> PinLevels {
    PinLevels {
        r1: false,
        g1: false,
        b1: false,
        r2: false,
        g2: false,
        b2: false,
        clk: false,
        lat: false,
        oe: true,
        lines: Seq::new(address_lines, |idx: int| false),
    }
}

impl LedMatrix<4, 64, 32> {
    /// The driver of a panel whose lines were just set up: all low, but for
    /// output-enable, which is high.
    pub fn new() -> (matrix: Self)
        ensures
            matrix@ == initial_levels(4),
    {
        let matrix = LedMatrix {
            top_colors: [false, false, false],
            bottom_colors: [false, false, false],
            line_ctrl: [false, false, false, false],
            pin_clk: false,
            pin_lat: false,
            pin_oe: true,
        };
        assert(matrix@.lines =~= initial_levels(4).lines);
        matrix
    }
}

impl<const LINECTRL_PIN_COUNT: usize, const WIDTH: usize, const HEIGHT: usize> LedMatrix<
    LINECTRL_PIN_COUNT,
    WIDTH,
    HEIGHT,
> {
    /// The level that the driver last gave `pin`.
    pub fn level(&self, pin: MatrixPin) -> (high: bool)
        requires
            is_pin(pin, LINECTRL_PIN_COUNT as nat),
        ensures
            high == self@.level(pin),
    {
        match pin {
            MatrixPin::R1 => self.top_colors[0],
            MatrixPin::G1 => self.top_colors[1],
            MatrixPin::B1 => self.top_colors[2],
            MatrixPin::R2 => self.bottom_colors[0],
            MatrixPin::G2 => self.bottom_colors[1],
            MatrixPin::B2 => self.bottom_colors[2],
            MatrixPin::Clk => self.pin_clk,
            MatrixPin::Lat => self.pin_lat,
            MatrixPin::Oe => self.pin_oe,
            MatrixPin::Line(idx) => self.line_ctrl[idx],
        }
    }

    /// Blanks the panel: the output-enable line goes high, and nothing is
    /// shown until a row pair is latched again.
    pub fn blank(&mut self) -> (write: PinWrite)
        ensures
            write == (PinWrite { pin: MatrixPin::Oe, high: true }),
            final(self)@ == old(self)@.with(MatrixPin::Oe, true),
    {
        self.pin_oe = true;
        PinWrite { pin: MatrixPin::Oe, high: true }
    }

    /// Gives `pin` a level: the write is appended to `signals`.
    fn write(&mut self, signals: &mut Vec<PinWrite>, pin: MatrixPin, high: bool)
        requires
            is_pin(pin, LINECTRL_PIN_COUNT as nat),
        ensures
            final(signals)@ == old(signals)@.push(PinWrite { pin, high }),
            final(self)@ == old(self)@.with(pin, high),
    {
        match pin {
            MatrixPin::R1 => {
                self.top_colors[0] = high;
            },
            MatrixPin::G1 => {
                self.top_colors[1] = high;
            },
            MatrixPin::B1 => {
                self.top_colors[2] = high;
            },
            MatrixPin::R2 => {
                self.bottom_colors[0] = high;
            },
            MatrixPin::G2 => {
                self.bottom_colors[1] = high;
            },
            MatrixPin::B2 => {
                self.bottom_colors[2] = high;
            },
            MatrixPin::Clk => {
                self.pin_clk = high;
            },
            MatrixPin::Lat => {
                self.pin_lat = high;
            },
            MatrixPin::Oe => {
                self.pin_oe = high;
            },
            MatrixPin::Line(idx) => {
                self.line_ctrl[idx] = high;
            },
        }
        signals.push(PinWrite { pin, high });
        assert(self@.lines =~= old(self)@.with(pin, high).lines);
    }

    /// Gives a colour line the bit of `value` that `bit_mask` selects.
    fn set_pin(
        &mut self,
        signals: &mut Vec<PinWrite>,
        pin: MatrixPin,
        value: u8,
        bit: u8,
        bit_mask: u8,
    )
        requires
            is_pin(pin, LINECTRL_PIN_COUNT as nat),
            bit <= 7,
            bit_mask == 1u8 << bit,
        ensures
            final(signals)@ == old(signals)@.push(PinWrite { pin, high: channel_bit(value, bit) }),
            final(self)@ == old(self)@.with(pin, channel_bit(value, bit)),
    {
        assert(((value & (1u8 << bit)) != 0) == ((value >> bit) & 1 == 1)) by (bit_vector)
            requires
                bit <= 7,
        ;
        if (value & bit_mask) != 0 {
            self.write(signals, pin, true);
        } else {
            self.write(signals, pin, false);
        }
    }

    /// Shows the row pair `line` of `canvas`, that is its rows `line` and
    /// `line + HEIGHT / 2`, at the bit-plane `bit_position`: shifts the
    /// row pair in, column by column, and latches it. The writes to carry
    /// out come back in order.
    ///
    /// The clock is pulsed once per column and the latch once. Afterwards
    /// the clock and the latch are low, the panel is shown, and the address
    /// lines hold the low bits of `line`.
    pub fn draw_canvas_line(
        &mut self,
        canvas: &Canvas<WIDTH, HEIGHT>,
        line: usize,
        bit_position: ColorBitPosition,
    ) -> (signals: Vec<PinWrite>)
        requires
            line < HEIGHT / 2,
            bit_position.0 <= 7,
            LINECTRL_PIN_COUNT < usize::BITS,
        ensures
            signals@ == line_signals(
                canvas@,
                line,
                bit_position.0,
                WIDTH as nat,
                (HEIGHT / 2) as int,
                LINECTRL_PIN_COUNT as nat,
            ),
            final(self)@ == old(self)@.after(signals@),
            count_of(signals@, PinWrite { pin: MatrixPin::Clk, high: true }) == WIDTH,
            count_of(signals@, PinWrite { pin: MatrixPin::Lat, high: true }) == 1,
            WIDTH > 0 ==> !final(self)@.clk,
            !final(self)@.lat,
            !final(self)@.oe,
            forall|idx: int|
                0 <= idx < LINECTRL_PIN_COUNT ==> #[trigger] final(self)@.lines[idx]
                    == address_bit(line, idx as usize),
    {
        proof {
            lemma_line_signals(
                canvas@,
                line,
                bit_position.0,
                WIDTH as nat,
                (HEIGHT / 2) as int,
                LINECTRL_PIN_COUNT as nat,
            );
            lemma_line_levels(
                self@,
                canvas@,
                line,
                bit_position.0,
                WIDTH as nat,
                (HEIGHT / 2) as int,
                LINECTRL_PIN_COUNT as nat,
            );
        }
        let half_height = HEIGHT / 2;
        let raw_canvas = canvas.as_ref();
        let bit = bit_position.0;
        let bit_mask = 1u8 << bit;
        let mut signals: Vec<PinWrite> = Vec::new();
        let mut col_index: usize = 0;
        while col_index < WIDTH
            invariant
                col_index <= WIDTH,
                line < HEIGHT / 2,
                half_height == HEIGHT / 2,
                bit == bit_position.0,
                bit <= 7,
                bit_mask == 1u8 << bit,
                crate::canvas::rows_of(*raw_canvas) == canvas@,
                signals@ == shift_signals(
                    canvas@,
                    line as int,
                    half_height as int,
                    bit,
                    col_index as nat,
                ),
                self@ == old(self)@.after(signals@),
            decreases WIDTH - col_index,
        {
            let ghost before = signals@;
            let color_top = raw_canvas[line][col_index];
            let color_bottom = raw_canvas[line + half_height][col_index];
            assert(color_top == canvas@[line as int][col_index as int]);
            assert(color_bottom == canvas@[line + half_height][col_index as int]);
            self.shift_column(&mut signals, color_top, color_bottom, bit, bit_mask);
            proof {
                lemma_levels_after_concat(
                    old(self)@,
                    before,
                    column_signals(color_top, color_bottom, bit),
                );
            }
            col_index += 1;
        }
        let ghost shifted = signals@;
        self.latch_to_line(&mut signals, line);
        proof {
            lemma_levels_after_concat(
                old(self)@,
                shifted,
                latch_signals(line, LINECTRL_PIN_COUNT as nat),
            );
        }
        signals
    }

    /// Shows every row pair of `canvas` once, from the first to the last, at
    /// the bit-plane `bit_position`.
    pub fn draw_canvas(&mut self, canvas: &Canvas<WIDTH, HEIGHT>, bit_position: ColorBitPosition) -> (signals:
        Vec<PinWrite>)
        requires
            bit_position.0 <= 7,
            LINECTRL_PIN_COUNT < usize::BITS,
        ensures
            signals@ == frame_signals(
                canvas@,
                bit_position.0,
                WIDTH as nat,
                (HEIGHT / 2) as int,
                LINECTRL_PIN_COUNT as nat,
                (HEIGHT / 2) as nat,
            ),
            final(self)@ == old(self)@.after(signals@),
    {
        let half_height = HEIGHT / 2;
        let mut signals: Vec<PinWrite> = Vec::new();
        let mut line_index: usize = 0;
        while line_index < half_height
            invariant
                line_index <= half_height == HEIGHT / 2,
                bit_position.0 <= 7,
                LINECTRL_PIN_COUNT < usize::BITS,
                signals@ == frame_signals(
                    canvas@,
                    bit_position.0,
                    WIDTH as nat,
                    (HEIGHT / 2) as int,
                    LINECTRL_PIN_COUNT as nat,
                    line_index as nat,
                ),
                self@ == old(self)@.after(signals@),
            decreases half_height - line_index,
        {
            let ghost before = signals@;
            let mut line_writes = self.draw_canvas_line(canvas, line_index, bit_position);
            proof {
                lemma_levels_after_concat(old(self)@, before, line_writes@);
            }
            signals.append(&mut line_writes);
            line_index += 1;
        }
        signals
    }

    /// Blanks the panel, selects the row pair `line`, pulses the latch and
    /// shows the panel again.
    fn latch_to_line(&mut self, signals: &mut Vec<PinWrite>, line: usize)
        requires
            LINECTRL_PIN_COUNT < usize::BITS,
        ensures
            final(signals)@ == old(signals)@ + latch_signals(line, LINECTRL_PIN_COUNT as nat),
            final(self)@ == old(self)@.after(latch_signals(line, LINECTRL_PIN_COUNT as nat)),
    {
        let ghost oe_high = PinWrite { pin: MatrixPin::Oe, high: true };
        let ghost mut emitted: Seq<PinWrite> = seq![oe_high];
        self.write(signals, MatrixPin::Oe, true);
        proof {
            lemma_levels_after_push(old(self)@, Seq::empty(), oe_high);
            assert(Seq::<PinWrite>::empty().push(oe_high) =~= emitted);
        }
        proof {
            lemma_address_mask(LINECTRL_PIN_COUNT);
        }
        let mline = line % (1usize << LINECTRL_PIN_COUNT);
        let mut pin_idx: usize = 0;
        while pin_idx < LINECTRL_PIN_COUNT
            invariant
                pin_idx <= LINECTRL_PIN_COUNT < usize::BITS,
                mline == line % (1usize << LINECTRL_PIN_COUNT),
                emitted == seq![oe_high] + address_signals(line, pin_idx as nat),
                signals@ == old(signals)@ + emitted,
                self@ == old(self)@.after(emitted),
            decreases LINECTRL_PIN_COUNT - pin_idx,
        {
            let enable_pin = (mline & (1usize << pin_idx)) != 0;
            proof {
                lemma_address_bit(line, pin_idx, LINECTRL_PIN_COUNT);
            }
            self.write(signals, MatrixPin::Line(pin_idx), enable_pin);
            proof {
                let write = PinWrite { pin: MatrixPin::Line(pin_idx), high: enable_pin };
                lemma_levels_after_push(old(self)@, emitted, write);
                emitted = emitted.push(write);
                assert(emitted =~= seq![oe_high] + address_signals(line, (pin_idx + 1) as nat));
            }
            pin_idx += 1;
        }
        self.write(signals, MatrixPin::Lat, true);
        proof {
            let write = PinWrite { pin: MatrixPin::Lat, high: true };
            lemma_levels_after_push(old(self)@, emitted, write);
            emitted = emitted.push(write);
        }
        self.write(signals, MatrixPin::Lat, false);
        proof {
            let write = PinWrite { pin: MatrixPin::Lat, high: false };
            lemma_levels_after_push(old(self)@, emitted, write);
            emitted = emitted.push(write);
        }
        self.write(signals, MatrixPin::Oe, false);
        proof {
            let write = PinWrite { pin: MatrixPin::Oe, high: false };
            lemma_levels_after_push(old(self)@, emitted, write);
            emitted = emitted.push(write);
            assert(emitted =~= latch_signals(line, LINECTRL_PIN_COUNT as nat));
        }
    }

    /// Shifts one column in: the six colour lines, then a clock pulse.
    fn shift_column(
        &mut self,
        signals: &mut Vec<PinWrite>,
        color_top: Color,
        color_bottom: Color,
        bit: u8,
        bit_mask: u8,
    )
        requires
            bit <= 7,
            bit_mask == 1u8 << bit,
        ensures
            final(signals)@ == old(signals)@ + column_signals(color_top, color_bottom, bit),
            final(self)@ == old(self)@.after(column_signals(color_top, color_bottom, bit)),
    {
        let ghost column = column_signals(color_top, color_bottom, bit);
        self.set_pin(signals, MatrixPin::R1, color_top.r(), bit, bit_mask);
        self.set_pin(signals, MatrixPin::G1, color_top.g(), bit, bit_mask);
        self.set_pin(signals, MatrixPin::B1, color_top.b(), bit, bit_mask);

        self.set_pin(signals, MatrixPin::R2, color_bottom.r(), bit, bit_mask);
        self.set_pin(signals, MatrixPin::G2, color_bottom.g(), bit, bit_mask);
        self.set_pin(signals, MatrixPin::B2, color_bottom.b(), bit, bit_mask);

        self.clock_color(signals);
        proof {
            assert(signals@ =~= old(signals)@ + column);
            lemma_levels_after_eight(old(self)@, column);
        }
    }

    /// One clock pulse: the panel takes the colour lines in on the rising
    /// edge.
    fn clock_color(&mut self, signals: &mut Vec<PinWrite>)
        ensures
            final(signals)@ == old(signals)@.push(PinWrite { pin: MatrixPin::Clk, high: true }).push(
                PinWrite { pin: MatrixPin::Clk, high: false },
            ),
            final(self)@ == old(self)@.with(MatrixPin::Clk, true).with(MatrixPin::Clk, false),
    {
        self.write(signals, MatrixPin::Clk, true);
        self.write(signals, MatrixPin::Clk, false);
    }
}

/// A row pair's index is masked by a power of two, which is not zero.
proof fn lemma_address_mask(address_lines: usize)
    requires
        address_lines < usize::BITS,
    ensures
        (1usize << address_lines) != 0,
{
    assert((1usize << address_lines) != 0) by (bit_vector)
        requires
            address_lines < usize::BITS,
    ;
}

/// Masking a row pair's index to the address lines' width does not change
/// the bits that go out on them.
proof fn lemma_address_bit(line: usize, idx: usize, address_lines: usize)
    requires
        idx < address_lines < usize::BITS,
    ensures
        (((line % (1usize << address_lines)) & (1usize << idx)) != 0) == address_bit(line, idx),
{
    assert((((line % (1usize << address_lines)) & (1usize << idx)) != 0) == ((line >> idx) & 1
        == 1)) by (bit_vector)
        requires
            idx < address_lines < usize::BITS,
    ;
}

/// One more write changes the level of its line, and of no other.
pub proof fn lemma_levels_after_push(levels: PinLevels, signals: Seq<PinWrite>, write: PinWrite)
    ensures
        levels.after(signals.push(write)) == levels.after(signals).with(write.pin, write.high),
        levels.after(Seq::empty()) == levels,
{
    assert(signals.push(write).drop_last() =~= signals);
}

/// How often `write` occurs in `signals`.
pub open spec fn count_of(signals: Seq<PinWrite>, write: PinWrite) -> nat
    decreases signals.len(),
{
    if signals.len() == 0 {
        0
    } else {
        count_of(signals.drop_last(), write) + if signals.last() == write {
            1nat
        } else {
            0nat
        }
    }
}

/// Occurrences add up over concatenation.
pub proof fn lemma_count_of_concat(first: Seq<PinWrite>, second: Seq<PinWrite>, write: PinWrite)
    ensures
        count_of(first + second, write) == count_of(first, write) + count_of(second, write),
    decreases second.len(),
{
    if second.len() == 0 {
        assert(first + second =~= first);
    } else {
        lemma_count_of_concat(first, second.drop_last(), write);
        assert((first + second).drop_last() =~= first + second.drop_last());
    }
}

/// A write that stands nowhere in `signals` occurs zero times in it.
pub proof fn lemma_count_of_absent(signals: Seq<PinWrite>, write: PinWrite)
    requires
        forall|i: int| 0 <= i < signals.len() ==> signals[i] != write,
    ensures
        count_of(signals, write) == 0,
    decreases signals.len(),
{
    if signals.len() > 0 {
        lemma_count_of_absent(signals.drop_last(), write);
    }
}

/// A write that stands at exactly one place of `signals` occurs once in it.
pub proof fn lemma_count_of_single(signals: Seq<PinWrite>, write: PinWrite, at: int)
    requires
        0 <= at < signals.len(),
        forall|i: int| 0 <= i < signals.len() ==> (signals[i] == write <==> i == at),
    ensures
        count_of(signals, write) == 1,
    decreases signals.len(),
{
    if at == signals.len() - 1 {
        lemma_count_of_absent(signals.drop_last(), write);
    } else {
        lemma_count_of_single(signals.drop_last(), write, at);
    }
}

/// Whether `pin` is one of the six colour lines.
pub open spec fn is_color_pin(pin: MatrixPin) -> bool {
    pin == MatrixPin::R1 || pin == MatrixPin::G1 || pin == MatrixPin::B1 || pin == MatrixPin::R2
        || pin == MatrixPin::G2 || pin == MatrixPin::B2
}

/// The shift phase writes eight times per column: the writes of column `c`
/// stand at `8 * c` and after. It pulses the clock once per column and
/// touches nothing but the colour lines and the clock.
pub proof fn lemma_shift_signals(
    grid: Seq<Seq<Color>>,
    line: int,
    half_height: int,
    bit: u8,
    columns: nat,
)
    ensures
        shift_signals(grid, line, half_height, bit, columns).len() == 8 * columns,
        forall|c: int, k: int|
            0 <= c < columns && 0 <= k < 8 ==> #[trigger] shift_signals(
                grid,
                line,
                half_height,
                bit,
                columns,
            )[8 * c + k] == column_signals(grid[line][c], grid[line + half_height][c], bit)[k],
        count_of(
            shift_signals(grid, line, half_height, bit, columns),
            PinWrite { pin: MatrixPin::Clk, high: true },
        ) == columns,
        count_of(
            shift_signals(grid, line, half_height, bit, columns),
            PinWrite { pin: MatrixPin::Clk, high: false },
        ) == columns,
        forall|i: int|
            0 <= i < 8 * columns ==> {
                let pin = (#[trigger] shift_signals(grid, line, half_height, bit, columns)[i]).pin;
                is_color_pin(pin) || pin == MatrixPin::Clk
            },
    decreases columns,
{
    if columns > 0 {
        let before = shift_signals(grid, line, half_height, bit, (columns - 1) as nat);
        let column = column_signals(
            grid[line][columns - 1],
            grid[line + half_height][columns - 1],
            bit,
        );
        let all = shift_signals(grid, line, half_height, bit, columns);
        lemma_shift_signals(grid, line, half_height, bit, (columns - 1) as nat);
        assert(all == before + column);
        assert forall|c: int, k: int| 0 <= c < columns && 0 <= k < 8 implies #[trigger] all[8 * c
            + k] == column_signals(grid[line][c], grid[line + half_height][c], bit)[k] by {
            if c < columns - 1 {
                assert(all[8 * c + k] == before[8 * c + k]);
            } else {
                assert(all[8 * c + k] == column[k]);
            }
        }
        let rising = PinWrite { pin: MatrixPin::Clk, high: true };
        let falling = PinWrite { pin: MatrixPin::Clk, high: false };
        lemma_count_of_concat(before, column, rising);
        lemma_count_of_concat(before, column, falling);
        lemma_count_of_single(column, rising, 6);
        lemma_count_of_single(column, falling, 7);
        assert forall|i: int| 0 <= i < 8 * columns implies {
            let pin = (#[trigger] all[i]).pin;
            is_color_pin(pin) || pin == MatrixPin::Clk
        } by {
            if i >= 8 * (columns - 1) {
                assert(all[i] == column[i - 8 * (columns - 1)]);
            } else {
                assert(all[i] == before[i]);
            }
        }
    }
}

/// What one row pair's writes look like.
///
/// The clock is pulsed exactly once per column, and only before the panel is
/// blanked. Then the output-enable line goes high, the address lines take
/// the low bits of the row pair's index, the latch is pulsed exactly once,
/// and the output-enable line goes low again as the last write. Neither the
/// latch nor the output-enable line is written at any other moment.
pub proof fn lemma_line_signals(
    grid: Seq<Seq<Color>>,
    line: usize,
    bit: u8,
    width: nat,
    half_height: int,
    address_lines: nat,
)
    ensures
        ({
            let signals = line_signals(grid, line, bit, width, half_height, address_lines);
            let blank = 8 * (width as int);
            let len = signals.len();
            &&& len == 8 * width + address_lines + 4
            &&& count_of(signals, PinWrite { pin: MatrixPin::Clk, high: true }) == width
            &&& count_of(signals, PinWrite { pin: MatrixPin::Clk, high: false }) == width
            &&& forall|c: int|
                0 <= c < width ==> #[trigger] signals[8 * c + 6] == (PinWrite {
                    pin: MatrixPin::Clk,
                    high: true,
                }) && signals[8 * c + 7] == (PinWrite { pin: MatrixPin::Clk, high: false })
            &&& forall|i: int|
                0 <= i < blank ==> is_color_pin((#[trigger] signals[i]).pin) || signals[i].pin
                    == MatrixPin::Clk
            &&& signals[blank] == (PinWrite { pin: MatrixPin::Oe, high: true })
            &&& forall|idx: int|
                0 <= idx < address_lines ==> #[trigger] signals[blank + 1 + idx] == (PinWrite {
                    pin: MatrixPin::Line(idx as usize),
                    high: address_bit(line, idx as usize),
                })
            &&& signals[len - 3] == (PinWrite { pin: MatrixPin::Lat, high: true })
            &&& signals[len - 2] == (PinWrite { pin: MatrixPin::Lat, high: false })
            &&& signals[len - 1] == (PinWrite { pin: MatrixPin::Oe, high: false })
            &&& count_of(signals, PinWrite { pin: MatrixPin::Lat, high: true }) == 1
            &&& count_of(signals, PinWrite { pin: MatrixPin::Lat, high: false }) == 1
            &&& count_of(signals, PinWrite { pin: MatrixPin::Oe, high: true }) == 1
            &&& count_of(signals, PinWrite { pin: MatrixPin::Oe, high: false }) == 1
        }),
{
    let shift = shift_signals(grid, line as int, half_height, bit, width);
    let latch = latch_signals(line, address_lines);
    let signals = line_signals(grid, line, bit, width, half_height, address_lines);
    let rising = PinWrite { pin: MatrixPin::Clk, high: true };
    let falling = PinWrite { pin: MatrixPin::Clk, high: false };
    let latch_high = PinWrite { pin: MatrixPin::Lat, high: true };
    let latch_low = PinWrite { pin: MatrixPin::Lat, high: false };
    let oe_high = PinWrite { pin: MatrixPin::Oe, high: true };
    let oe_low = PinWrite { pin: MatrixPin::Oe, high: false };
    lemma_shift_signals(grid, line as int, half_height, bit, width);
    assert(signals == shift + latch);
    assert(latch.len() == address_lines + 4);
    assert forall|c: int| 0 <= c < width implies #[trigger] signals[8 * c + 6] == rising
        && signals[8 * c + 7] == falling by {
        assert(signals[8 * c + 6] == shift[8 * c + 6]);
        assert(signals[8 * c + 7] == shift[8 * c + 7]);
    }
    assert forall|i: int| 0 <= i < 8 * width implies is_color_pin((#[trigger] signals[i]).pin)
        || signals[i].pin == MatrixPin::Clk by {
        assert(signals[i] == shift[i]);
    }
    assert forall|idx: int| 0 <= idx < address_lines implies #[trigger] signals[8 * width + 1
        + idx] == (PinWrite {
        pin: MatrixPin::Line(idx as usize),
        high: address_bit(line, idx as usize),
    }) by {
        assert(signals[8 * width + 1 + idx] == latch[1 + idx]);
    }
    lemma_count_of_concat(shift, latch, rising);
    lemma_count_of_concat(shift, latch, falling);
    lemma_count_of_concat(shift, latch, latch_high);
    lemma_count_of_concat(shift, latch, latch_low);
    lemma_count_of_concat(shift, latch, oe_high);
    lemma_count_of_concat(shift, latch, oe_low);
    lemma_count_of_absent(latch, rising);
    lemma_count_of_absent(latch, falling);
    lemma_count_of_absent(shift, latch_high);
    lemma_count_of_absent(shift, latch_low);
    lemma_count_of_absent(shift, oe_high);
    lemma_count_of_absent(shift, oe_low);
    lemma_count_of_single(latch, oe_high, 0);
    lemma_count_of_single(latch, latch_high, (address_lines + 1) as int);
    lemma_count_of_single(latch, latch_low, (address_lines + 2) as int);
    lemma_count_of_single(latch, oe_low, (address_lines + 3) as int);
}

/// Where one row pair's writes leave the lines: the clock and the latch are
/// low, the panel is shown, and the address lines hold the low bits of the
/// row pair's index. (A panel without columns has its clock never written.)
pub proof fn lemma_line_levels(
    levels: PinLevels,
    grid: Seq<Seq<Color>>,
    line: usize,
    bit: u8,
    width: nat,
    half_height: int,
    address_lines: nat,
)
    requires
        levels.lines.len() == address_lines <= usize::MAX,
    ensures
        ({
            let after = levels.after(
                line_signals(grid, line, bit, width, half_height, address_lines),
            );
            &&& width > 0 ==> !after.clk
            &&& !after.lat
            &&& !after.oe
            &&& after.lines.len() == address_lines
            &&& forall|idx: int|
                0 <= idx < address_lines ==> #[trigger] after.lines[idx] == address_bit(
                    line,
                    idx as usize,
                )
        }),
{
    let shift = shift_signals(grid, line as int, half_height, bit, width);
    let oe_high = PinWrite { pin: MatrixPin::Oe, high: true };
    let head = shift.push(oe_high);
    lemma_levels_after_push(levels, shift, oe_high);
    lemma_shift_levels(levels, grid, line as int, half_height, bit, width);
    lemma_address_levels(levels.after(head), line, address_lines, address_lines);
    let address = address_signals(line, address_lines);
    lemma_levels_after_concat(levels, head, address);
    let addressed = head + address;
    let latch_high = PinWrite { pin: MatrixPin::Lat, high: true };
    let latch_low = PinWrite { pin: MatrixPin::Lat, high: false };
    let oe_low = PinWrite { pin: MatrixPin::Oe, high: false };
    lemma_levels_after_push(levels, addressed, latch_high);
    lemma_levels_after_push(levels, addressed.push(latch_high), latch_low);
    lemma_levels_after_push(levels, addressed.push(latch_high).push(latch_low), oe_low);
    assert(addressed.push(latch_high).push(latch_low).push(oe_low) =~= line_signals(
        grid,
        line,
        bit,
        width,
        half_height,
        address_lines,
    ));
}

/// The shift phase leaves the clock low and does not touch the address lines.
proof fn lemma_shift_levels(
    levels: PinLevels,
    grid: Seq<Seq<Color>>,
    line: int,
    half_height: int,
    bit: u8,
    columns: nat,
)
    ensures
        columns > 0 ==> !levels.after(shift_signals(grid, line, half_height, bit, columns)).clk,
        levels.after(shift_signals(grid, line, half_height, bit, columns)).lines == levels.lines,
    decreases columns,
{
    if columns > 0 {
        let before = shift_signals(grid, line, half_height, bit, (columns - 1) as nat);
        let column = column_signals(
            grid[line][columns - 1],
            grid[line + half_height][columns - 1],
            bit,
        );
        lemma_shift_levels(levels, grid, line, half_height, bit, (columns - 1) as nat);
        lemma_levels_after_concat(levels, before, column);
        lemma_levels_after_column(levels.after(before), column);
    }
}

/// Eight writes in a row, write by write.
proof fn lemma_levels_after_eight(levels: PinLevels, writes: Seq<PinWrite>)
    requires
        writes.len() == 8,
    ensures
        levels.after(writes) == levels.with(writes[0].pin, writes[0].high).with(
            writes[1].pin,
            writes[1].high,
        ).with(writes[2].pin, writes[2].high).with(writes[3].pin, writes[3].high).with(
            writes[4].pin,
            writes[4].high,
        ).with(writes[5].pin, writes[5].high).with(writes[6].pin, writes[6].high).with(
            writes[7].pin,
            writes[7].high,
        ),
{
    lemma_levels_after_push(levels, writes.take(0), writes[0]);
    lemma_levels_after_push(levels, writes.take(1), writes[1]);
    lemma_levels_after_push(levels, writes.take(2), writes[2]);
    lemma_levels_after_push(levels, writes.take(3), writes[3]);
    lemma_levels_after_push(levels, writes.take(4), writes[4]);
    lemma_levels_after_push(levels, writes.take(5), writes[5]);
    lemma_levels_after_push(levels, writes.take(6), writes[6]);
    lemma_levels_after_push(levels, writes.take(7), writes[7]);
    assert(writes.take(0).push(writes[0]) =~= writes.take(1));
    assert(writes.take(1).push(writes[1]) =~= writes.take(2));
    assert(writes.take(2).push(writes[2]) =~= writes.take(3));
    assert(writes.take(3).push(writes[3]) =~= writes.take(4));
    assert(writes.take(4).push(writes[4]) =~= writes.take(5));
    assert(writes.take(5).push(writes[5]) =~= writes.take(6));
    assert(writes.take(6).push(writes[6]) =~= writes.take(7));
    assert(writes.take(7).push(writes[7]) =~= writes);
}

/// The eight writes of one column leave the clock low and do not touch the
/// address lines.
proof fn lemma_levels_after_column(levels: PinLevels, column: Seq<PinWrite>)
    requires
        column.len() == 8,
        forall|k: int| 0 <= k < 6 ==> is_color_pin(#[trigger] column[k].pin),
        column[6] == (PinWrite { pin: MatrixPin::Clk, high: true }),
        column[7] == (PinWrite { pin: MatrixPin::Clk, high: false }),
    ensures
        !levels.after(column).clk,
        levels.after(column).lines == levels.lines,
{
    lemma_levels_after_eight(levels, column);
    assert(is_color_pin(column[0].pin));
    assert(is_color_pin(column[1].pin));
    assert(is_color_pin(column[2].pin));
    assert(is_color_pin(column[3].pin));
    assert(is_color_pin(column[4].pin));
    assert(is_color_pin(column[5].pin));
}

/// Writing the first `count` address lines gives each of them its bit of
/// the row pair's index and leaves every other line as it was.
proof fn lemma_address_levels(levels: PinLevels, line: usize, address_lines: nat, count: nat)
    requires
        levels.lines.len() == address_lines <= usize::MAX,
        count <= address_lines,
    ensures
        ({
            let after = levels.after(address_signals(line, count));
            &&& after.clk == levels.clk
            &&& after.lat == levels.lat
            &&& after.oe == levels.oe
            &&& after.lines.len() == address_lines
            &&& forall|idx: int|
                0 <= idx < address_lines ==> #[trigger] after.lines[idx] == if idx < count {
                    address_bit(line, idx as usize)
                } else {
                    levels.lines[idx]
                }
        }),
    decreases count,
{
    if count > 0 {
        let narrower = address_signals(line, (count - 1) as nat);
        let write = PinWrite {
            pin: MatrixPin::Line((count - 1) as usize),
            high: address_bit(line, (count - 1) as usize),
        };
        lemma_address_levels(levels, line, address_lines, (count - 1) as nat);
        lemma_levels_after_push(levels, narrower, write);
        assert(narrower.push(write) =~= address_signals(line, count));
    }
}

/// Writing `first` and then `second` is writing `first + second`.
pub proof fn lemma_levels_after_concat(
    levels: PinLevels,
    first: Seq<PinWrite>,
    second: Seq<PinWrite>,
)
    ensures
        levels.after(first + second) == levels.after(first).after(second),
    decreases second.len(),
{
    if second.len() == 0 {
        assert(first + second =~= first);
    } else {
        lemma_levels_after_concat(levels, first, second.drop_last());
        assert((first + second).drop_last() =~= first + second.drop_last());
    }
}

} // verus!
