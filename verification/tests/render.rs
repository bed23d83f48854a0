use cyberpunk_display::character::{Character, Font};
use cyberpunk_display::fixed::parse_fixed;
use cyberpunk_display::matrix::{BtcMatrix, BtcTimeMatrix};
use cyberpunk_display::pixels_to_string::pixels_to_string;
use cyberpunk_display::price_queue::{PlotKind, PriceQueue};
use cyberpunk_display::rgb::{colorize, Rgb888};
use cyberpunk_display::screen::Screen;

fn chars(s: &str) -> Vec<char> {
    s.chars().collect()
}

#[test]
fn test_rgb888_to_rgb565() {
    assert_eq!(Rgb888::new(172, 10, 127).to_rgb565(), 43087);
}

#[test]
fn test_rgb565_extremes() {
    assert_eq!(Rgb888::new(0, 0, 0).to_rgb565(), 0);
    assert_eq!(Rgb888::new(255, 255, 255).to_rgb565(), 65535);
    assert_eq!(Rgb888::new(255, 0, 0).to_rgb565(), 31 << 11);
    assert_eq!(Rgb888::new(0, 255, 0).to_rgb565(), 63 << 5);
    assert_eq!(Rgb888::new(0, 0, 255).to_rgb565(), 31);
}

#[test]
fn test_colorize_replaces_only_matching() {
    let white = Rgb888::new(255, 255, 255);
    let yellow = Rgb888::new(255, 255, 0);
    let red = Rgb888::new(204, 0, 0);
    let grid = vec![vec![Some(white), Some(red), None]];
    let out = colorize(&grid, &white, &yellow);
    assert_eq!(out[0][0], Some(yellow));
    assert_eq!(out[0][1], Some(red));
    assert_eq!(out[0][2], None);
}

#[test]
fn test_screen_default_is_blank() {
    let s = Screen::default();
    assert_eq!(s.pixels.len(), 8);
    for row in &s.pixels {
        assert_eq!(row.len(), 32);
        for cell in row {
            assert!(cell.is_none());
        }
    }
}

#[test]
fn test_screen_draw_and_clip() {
    let mut s = Screen::default();
    let red = Rgb888::new(204, 0, 0);
    let block = vec![vec![Some(red), Some(red)], vec![Some(red), Some(red)]];
    s.draw(&block, 31, 7);
    // only the top-left cell of the block fits the screen
    assert_eq!(s.pixels[7][31], Some(red));
    assert_eq!(s.pixels[6][31], None);
    assert_eq!(s.pixels[7][30], None);
}

#[test]
fn test_screen_overlay_prefers_top() {
    let red = Rgb888::new(204, 0, 0);
    let blue = Rgb888::new(0, 0, 204);
    let mut below = Screen::default();
    below.draw(&vec![vec![Some(red), Some(red)]], 0, 0);
    let mut top = Screen::default();
    top.draw(&vec![vec![Some(blue)]], 0, 0);
    let merged = below.overlay(top);
    assert_eq!(merged.pixels[0][0], Some(blue));
    assert_eq!(merged.pixels[0][1], Some(red));
}

#[test]
fn test_screen_serialize() {
    let mut s = Screen::default();
    s.draw(&vec![vec![Some(Rgb888::new(172, 10, 127))]], 2, 1);
    let words = s.serialize();
    assert_eq!(words.len(), 256);
    assert_eq!(words[1 * 32 + 2], 43087);
    assert_eq!(words[0], 0);
}

#[test]
fn test_glyph_dimensions() {
    let c = Character::new('0', Font::Large);
    assert_eq!(c.pixels.len(), 5);
    for row in &c.pixels {
        assert_eq!(row.len(), 3);
    }
    let c = Character::new(':', Font::Medium);
    assert_eq!(c.pixels.len(), 4);
    assert_eq!(c.pixels[0].len(), 1);
    let c = Character::new('7', Font::Small);
    assert_eq!(c.pixels.len(), 3);
    assert_eq!(c.pixels[0].len(), 3);
}

#[test]
fn test_glyph_pattern_large_one() {
    let white = Some(Rgb888::new(255, 255, 255));
    let c = Character::new('1', Font::Large);
    let expect = [
        [false, true, false],
        [true, true, false],
        [false, true, false],
        [false, true, false],
        [true, true, true],
    ];
    for r in 0..5 {
        for x in 0..3 {
            assert_eq!(c.pixels[r][x].is_some(), expect[r][x], "row {} col {}", r, x);
            if expect[r][x] {
                assert_eq!(c.pixels[r][x], white);
            }
        }
    }
}

#[test]
fn test_from_float_width() {
    // "1.50" in the medium font: widths 3 + 1 + 3 + 3 and three one-pixel gaps
    let p = parse_fixed(&chars("1.5")).unwrap();
    let c = Character::from_float(p, Font::Medium);
    assert_eq!(c.pixels.len(), 4);
    assert_eq!(c.pixels[0].len(), 13);
}

#[test]
fn test_from_float_rounds_half_to_even() {
    // 1.005 carries to 1.00 (half to even), 1.015 to 1.02
    let c = Character::from_float(parse_fixed(&chars("1.005")).unwrap(), Font::Small);
    let d = Character::from_float(parse_fixed(&chars("1.00")).unwrap(), Font::Small);
    assert_eq!(c.pixels, d.pixels);
    let c = Character::from_float(parse_fixed(&chars("1.015")).unwrap(), Font::Small);
    let d = Character::from_float(parse_fixed(&chars("1.02")).unwrap(), Font::Small);
    assert_eq!(c.pixels, d.pixels);
}

#[test]
fn test_from_time_width() {
    // "HH:MM:SS": six digit glyphs of width 3, two colons of width 1, and
    // seven one-pixel gaps
    let c = Character::from_time(12, 34, 56, Font::Small);
    assert_eq!(c.pixels.len(), 3);
    assert_eq!(c.pixels[0].len(), 27);
}

#[test]
fn test_pixels_to_string_blank() {
    let s = Screen::default();
    let text = pixels_to_string(&s.pixels);
    let lines: Vec<&str> = text.split('\n').collect();
    assert_eq!(lines.len(), 8);
    for line in lines {
        assert_eq!(line, " ".repeat(64));
    }
}

#[test]
fn test_pixels_to_string_paints_lit_cells() {
    let mut s = Screen::default();
    s.draw(&vec![vec![Some(Rgb888::new(0, 204, 0))]], 0, 0);
    let text = pixels_to_string(&s.pixels);
    let first = text.split('\n').next().unwrap();
    // a lit cell is painted: its block is wrapped in color escape codes
    assert!(first.contains('\u{1b}'));
    assert!(first.contains("██"));
    assert!(first.len() > 64);
}

#[test]
fn test_to_term_rgb_paints() {
    let c = Rgb888::new(1, 2, 3).to_term_rgb();
    let painted = c.paint("x").to_string();
    assert!(painted.contains('\u{1b}'));
    assert!(painted.contains('x'));
    assert_ne!(painted, "x");
}

#[test]
fn test_queue_screen_flat_line() {
    let mut pq = PriceQueue::new();
    pq.push(parse_fixed(&chars("100.0")).unwrap());
    let s = pq.to_screen(PlotKind::FlatLine, false);
    // the strip sits on row 4, all flat, in dimmed blue
    for x in 0..32 {
        assert_eq!(s.pixels[4][x], Some(Rgb888::new(0, 0, 204)));
        assert_eq!(s.pixels[3][x], None);
    }
}

#[test]
fn test_queue_screen_trend_line() {
    let mut pq = PriceQueue::new();
    pq.push(parse_fixed(&chars("100.0")).unwrap());
    pq.push(parse_fixed(&chars("107.0")).unwrap());
    let s = pq.to_screen(PlotKind::TrendLine, false);
    // the last column went up to the top row, in dimmed green
    assert_eq!(s.pixels[0][31], Some(Rgb888::new(0, 204, 0)));
    // the first column sits on the bottom row, flat by convention
    assert_eq!(s.pixels[7][0], Some(Rgb888::new(0, 0, 204)));
}

#[test]
fn test_btc_matrix_gen_screen() {
    let mut m = BtcMatrix::new();
    let s = m.gen_screen(parse_fixed(&chars("100.0")).unwrap());
    for x in 0..32 {
        assert_eq!(s.pixels[4][x], Some(Rgb888::new(0, 0, 204)));
    }
}

#[test]
fn test_btc_time_matrix_indicator() {
    let mut m = BtcTimeMatrix::new();
    m.on_price(parse_fixed(&chars("100.0")).unwrap());
    assert!(m.indicator_lit);
    let s = m.gen_screen(1, 2, 3);
    assert_eq!(s.pixels[7][0], Some(Rgb888::new(255, 255, 0)));
    m.on_second();
    assert!(!m.indicator_lit);
    let s = m.gen_screen(1, 2, 3);
    assert_eq!(s.pixels[7][0], None);
}
