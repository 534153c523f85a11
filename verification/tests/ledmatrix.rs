use rgb_led_matrix::canvas::{Canvas, Color};
use rgb_led_matrix::ledmatrix::{ColorBitPosition, LedMatrix, MatrixPin, PinWrite};

fn write(pin: MatrixPin, high: bool) -> PinWrite {
    PinWrite { pin, high }
}

fn bit(value: u8, position: u8) -> bool {
    (value >> position) & 1 == 1
}

/// The writes for one row pair, put together by hand in the order the
/// panel wants them.
fn expected_line(canvas: &Canvas<64, 32>, line: usize, position: u8) -> Vec<PinWrite> {
    let pixels = canvas.as_ref();
    let mut writes = Vec::new();
    for x in 0..64 {
        let top = pixels[line][x];
        let bottom = pixels[line + 16][x];
        writes.push(write(MatrixPin::R1, bit(top.r(), position)));
        writes.push(write(MatrixPin::G1, bit(top.g(), position)));
        writes.push(write(MatrixPin::B1, bit(top.b(), position)));
        writes.push(write(MatrixPin::R2, bit(bottom.r(), position)));
        writes.push(write(MatrixPin::G2, bit(bottom.g(), position)));
        writes.push(write(MatrixPin::B2, bit(bottom.b(), position)));
        writes.push(write(MatrixPin::Clk, true));
        writes.push(write(MatrixPin::Clk, false));
    }
    writes.push(write(MatrixPin::Oe, true));
    for idx in 0..4 {
        writes.push(write(MatrixPin::Line(idx), (line >> idx) & 1 == 1));
    }
    writes.push(write(MatrixPin::Lat, true));
    writes.push(write(MatrixPin::Lat, false));
    writes.push(write(MatrixPin::Oe, false));
    writes
}

/// A canvas on which no two neighbouring pixels agree in any channel.
fn patterned_canvas() -> Canvas<64, 32> {
    let mut canvas = Canvas::with_64x32();
    for y in 0..32 {
        for x in 0..64 {
            let r = (x * 4 + y) as u8;
            let g = (x * 7 + y * 3 + 1) as u8;
            let b = (255 - x * 2 - y) as u8;
            canvas.draw_pixel(x, y, Color::new(r, g, b));
        }
    }
    canvas
}

const ALL_PINS: [MatrixPin; 13] = [
    MatrixPin::R1,
    MatrixPin::G1,
    MatrixPin::B1,
    MatrixPin::R2,
    MatrixPin::G2,
    MatrixPin::B2,
    MatrixPin::Clk,
    MatrixPin::Lat,
    MatrixPin::Oe,
    MatrixPin::Line(0),
    MatrixPin::Line(1),
    MatrixPin::Line(2),
    MatrixPin::Line(3),
];

#[test]
fn new_matrix_is_blanked_with_all_other_lines_low() {
    let matrix = LedMatrix::new();
    for pin in ALL_PINS {
        assert_eq!(matrix.level(pin), pin == MatrixPin::Oe, "{:?}", pin);
    }
}

#[test]
fn bit_positions() {
    assert_eq!(ColorBitPosition::MSB_POSITION, 7);
    assert_eq!(ColorBitPosition::LSB_POSITION, 0);
    assert_eq!(ColorBitPosition::default().0, 7);
}

#[test]
fn line_is_shifted_in_and_latched() {
    let canvas = patterned_canvas();
    let mut matrix = LedMatrix::new();
    let writes = matrix.draw_canvas_line(&canvas, 5, ColorBitPosition(6));
    assert_eq!(writes, expected_line(&canvas, 5, 6));
}

#[test]
fn every_line_and_bit_position() {
    let canvas = patterned_canvas();
    let mut matrix = LedMatrix::new();
    for line in 0..16 {
        for position in 0..8 {
            let writes = matrix.draw_canvas_line(&canvas, line, ColorBitPosition(position));
            assert_eq!(writes, expected_line(&canvas, line, position), "{} {}", line, position);
        }
    }
}

#[test]
fn line_has_one_clock_pulse_per_column_and_one_latch_pulse() {
    let canvas = patterned_canvas();
    let mut matrix = LedMatrix::new();
    let writes = matrix.draw_canvas_line(&canvas, 11, ColorBitPosition(7));
    let count = |wanted: PinWrite| writes.iter().filter(|w| **w == wanted).count();
    assert_eq!(writes.len(), 64 * 8 + 4 + 4);
    assert_eq!(count(write(MatrixPin::Clk, true)), 64);
    assert_eq!(count(write(MatrixPin::Clk, false)), 64);
    assert_eq!(count(write(MatrixPin::Lat, true)), 1);
    assert_eq!(count(write(MatrixPin::Lat, false)), 1);
    assert_eq!(count(write(MatrixPin::Oe, true)), 1);
    assert_eq!(count(write(MatrixPin::Oe, false)), 1);
    let at = |wanted: PinWrite| writes.iter().position(|w| *w == wanted).unwrap();
    let last_clock = writes.iter().rposition(|w| w.pin == MatrixPin::Clk).unwrap();
    let blanked = at(write(MatrixPin::Oe, true));
    let latched = at(write(MatrixPin::Lat, true));
    let released = at(write(MatrixPin::Lat, false));
    let shown = at(write(MatrixPin::Oe, false));
    assert!(last_clock < blanked);
    assert!(blanked < latched);
    assert_eq!(released, latched + 1);
    assert_eq!(shown, released + 1);
    assert_eq!(shown, writes.len() - 1);
    for (idx, w) in writes.iter().enumerate() {
        if let MatrixPin::Line(_) = w.pin {
            assert!(blanked < idx && idx < latched);
        }
    }
}

#[test]
fn line_leaves_its_address_on_the_address_lines() {
    let canvas = patterned_canvas();
    let mut matrix = LedMatrix::new();
    for line in [0usize, 1, 6, 9, 15] {
        matrix.draw_canvas_line(&canvas, line, ColorBitPosition(7));
        assert_eq!(matrix.level(MatrixPin::Line(0)), line & 1 != 0);
        assert_eq!(matrix.level(MatrixPin::Line(1)), line & 2 != 0);
        assert_eq!(matrix.level(MatrixPin::Line(2)), line & 4 != 0);
        assert_eq!(matrix.level(MatrixPin::Line(3)), line & 8 != 0);
        assert!(!matrix.level(MatrixPin::Clk));
        assert!(!matrix.level(MatrixPin::Lat));
        assert!(!matrix.level(MatrixPin::Oe));
    }
}

#[test]
fn levels_are_those_of_the_last_writes() {
    let canvas = patterned_canvas();
    let mut matrix = LedMatrix::new();
    let writes = matrix.draw_canvas_line(&canvas, 3, ColorBitPosition(2));
    for pin in ALL_PINS {
        let last = writes.iter().rev().find(|w| w.pin == pin).unwrap();
        assert_eq!(matrix.level(pin), last.high, "{:?}", pin);
    }
}

#[test]
fn blanking_raises_output_enable_alone() {
    let canvas = patterned_canvas();
    let mut matrix = LedMatrix::new();
    matrix.draw_canvas_line(&canvas, 9, ColorBitPosition(4));
    let before: Vec<bool> = ALL_PINS.iter().map(|pin| matrix.level(*pin)).collect();
    assert!(!matrix.level(MatrixPin::Oe));
    assert_eq!(matrix.blank(), write(MatrixPin::Oe, true));
    for (pin, level) in ALL_PINS.iter().zip(before) {
        assert_eq!(matrix.level(*pin), *pin == MatrixPin::Oe || level, "{:?}", pin);
    }
    assert_eq!(matrix.blank(), write(MatrixPin::Oe, true));
    assert!(matrix.level(MatrixPin::Oe));
    matrix.draw_canvas_line(&canvas, 9, ColorBitPosition(4));
    assert!(!matrix.level(MatrixPin::Oe));
}

#[test]
fn color_lines_carry_the_chosen_bit() {
    let mut canvas = Canvas::with_64x32();
    canvas.draw_pixel(0, 2, Color::new(0b0100_0000, 0b1000_0000, 0b1100_0000));
    canvas.draw_pixel(0, 18, Color::new(0b1011_1111, 0b0111_1111, 0b0011_1111));
    let mut matrix = LedMatrix::new();
    let writes = matrix.draw_canvas_line(&canvas, 2, ColorBitPosition(6));
    assert_eq!(
        writes[..6].to_vec(),
        vec![
            write(MatrixPin::R1, true),
            write(MatrixPin::G1, false),
            write(MatrixPin::B1, true),
            write(MatrixPin::R2, false),
            write(MatrixPin::G2, true),
            write(MatrixPin::B2, false),
        ]
    );
    let writes = matrix.draw_canvas_line(&canvas, 2, ColorBitPosition(7));
    assert_eq!(
        writes[..6].to_vec(),
        vec![
            write(MatrixPin::R1, false),
            write(MatrixPin::G1, true),
            write(MatrixPin::B1, true),
            write(MatrixPin::R2, true),
            write(MatrixPin::G2, false),
            write(MatrixPin::B2, false),
        ]
    );
}

#[test]
fn frame_is_every_line_in_order() {
    let canvas = patterned_canvas();
    let mut matrix = LedMatrix::new();
    let writes = matrix.draw_canvas(&canvas, ColorBitPosition(7));
    let mut expected = Vec::new();
    for line in 0..16 {
        expected.extend(expected_line(&canvas, line, 7));
    }
    assert_eq!(writes, expected);
    assert_eq!(matrix.level(MatrixPin::Line(0)), true);
    assert_eq!(matrix.level(MatrixPin::Line(3)), true);
    assert!(!matrix.level(MatrixPin::Oe));
}

#[test]
fn frame_at_the_default_bit_position() {
    let canvas = patterned_canvas();
    let mut matrix = LedMatrix::new();
    let writes = matrix.draw_canvas(&canvas, Default::default());
    assert_eq!(writes[..520].to_vec(), expected_line(&canvas, 0, 7));
}
