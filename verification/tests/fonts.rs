use rgb_led_matrix::canvas::{Canvas, Color, Stencil, TextOptions};
use rgb_led_matrix::fonts::{Font, TableFont};

const BLANK: [[u8; 2]; 2] = [[0, 0], [0, 0]];
const DOT: [[u8; 2]; 2] = [[1, 0], [0, 0]];
const BAR: [[u8; 2]; 2] = [[1, 1], [0, 0]];
const BOX: [[u8; 2]; 2] = [[1, 1], [1, 1]];

fn sample_font() -> TableFont<2, 2> {
    let mut font = TableFont::new(Stencil(BLANK));
    font.add('.', Stencil(DOT));
    font.add('-', Stencil(BAR));
    font.add('#', Stencil(BOX));
    font
}

#[test]
fn new_table_font_is_blank_for_every_character() {
    let font = TableFont::new(Stencil(BAR));
    assert_eq!(font.stencil_for('a').0, BAR);
    assert_eq!(font.stencil_for(' ').0, BAR);
    assert_eq!(font.stencil_for('\u{10ffff}').0, BAR);
}

#[test]
fn table_font_holds_what_was_added() {
    let font = sample_font();
    assert_eq!(font.stencil_for('.').0, DOT);
    assert_eq!(font.stencil_for('-').0, BAR);
    assert_eq!(font.stencil_for('#').0, BOX);
}

#[test]
fn unknown_characters_fall_back_to_the_blank_stencil() {
    let font = sample_font();
    assert_eq!(font.stencil_for(' ').0, BLANK);
    assert_eq!(font.stencil_for('x').0, BLANK);
}

#[test]
fn adding_a_character_again_replaces_its_stencil() {
    let mut font = sample_font();
    font.add('.', Stencil(BOX));
    assert_eq!(font.stencil_for('.').0, BOX);
    assert_eq!(font.stencil_for('-').0, BAR);
    assert_eq!(font.stencil_for('#').0, BOX);
    assert_eq!(font.stencil_for('?').0, BLANK);
}

#[test]
fn borrowed_font_is_the_same_font() {
    let font = sample_font();
    let borrowed = &font;
    assert_eq!(Font::stencil_for(&borrowed, '-').0, BAR);
    assert_eq!(Font::stencil_for(&borrowed, 'x').0, BLANK);
}

#[test]
fn text_in_a_table_font() {
    let font = sample_font();
    let mut canvas = Canvas::<8, 2>::new();
    canvas.draw_text(0, 0, ".-x#", &font, TextOptions { interspace: 0, color: Color::red() });
    let expected = [[1, 0, 1, 1, 0, 0, 1, 1], [0, 0, 0, 0, 0, 0, 1, 1]];
    for y in 0..2 {
        for x in 0..8 {
            let color = if expected[y][x] == 1 { Color::red() } else { Color::black() };
            assert_eq!(canvas.as_ref()[y][x], color, "at ({}, {})", x, y);
        }
    }
    canvas.clear();
    canvas.draw_char(3, 0, '#', Color::blue(), font);
    for y in 0..2 {
        for x in 0..8 {
            let color = if x == 3 || x == 4 { Color::blue() } else { Color::black() };
            assert_eq!(canvas.as_ref()[y][x], color, "at ({}, {})", x, y);
        }
    }
}
