use cyberpunk_display::fixed::{parse_fixed, Fixed};
use cyberpunk_display::price_queue::{Direction, PriceQueue};

fn chars(s: &str) -> Vec<char> {
    s.chars().collect()
}

fn px(s: &str) -> Fixed {
    parse_fixed(&chars(s)).unwrap()
}

#[test]
fn test_window_fill_on_first_push() {
    // one price pushed into the empty window fills all 32 slots with it
    let mut pq = PriceQueue::new();
    pq.push(px("100.0"));
    assert_eq!(pq.q.len(), 32);
    for i in 0..32 {
        assert_eq!(pq.q[i], px("100.0"));
    }
}

#[test]
fn test_window_evicts_oldest_when_full() {
    let mut pq = PriceQueue::new();
    pq.push(px("100.0"));
    pq.push(px("101.0"));
    assert_eq!(pq.q.len(), 32);
    // the 33rd sample pushed out the very first one
    assert_eq!(pq.q[30], px("100.0"));
    assert_eq!(pq.q[31], px("101.0"));
    pq.push(px("102.0"));
    assert_eq!(pq.q.len(), 32);
    assert_eq!(pq.q[29], px("100.0"));
    assert_eq!(pq.q[30], px("101.0"));
    assert_eq!(pq.q[31], px("102.0"));
}

#[test]
fn test_up_down_marks() {
    let mut pq = PriceQueue::new();
    pq.push(px("100.0"));
    pq.push(px("101.0"));
    pq.push(px("101.0"));
    pq.push(px("99.5"));
    let dirs = pq.to_up_down();
    assert_eq!(dirs.len(), 32);
    assert_eq!(dirs[0], Direction::Flat);
    for i in 1..29 {
        assert_eq!(dirs[i], Direction::Flat);
    }
    assert_eq!(dirs[29], Direction::Up);
    assert_eq!(dirs[30], Direction::Flat);
    assert_eq!(dirs[31], Direction::Down);
}

#[test]
fn test_up_down_repr() {
    let mut pq = PriceQueue::new();
    pq.push(px("100.0"));
    pq.push(px("101.0"));
    pq.push(px("99.0"));
    let repr = pq.to_up_down_repr();
    assert_eq!(repr.chars().count(), 32);
    assert!(repr.ends_with("-↑↓"));
    assert!(repr.starts_with("---"));
}

#[test]
fn test_int_pos_flat_window_sits_mid() {
    let mut pq = PriceQueue::new();
    pq.push(px("100.0"));
    let pos = pq.to_int_pos_v();
    assert_eq!(pos.len(), 32);
    for p in pos {
        assert_eq!(p, 3);
    }
}

#[test]
fn test_int_pos_spans_rows() {
    let mut pq = PriceQueue::new();
    pq.push(px("100.0"));
    pq.push(px("107.0"));
    let pos = pq.to_int_pos_v();
    // the low price sits at 0, the high one at 7
    assert_eq!(pos[0], 0);
    assert_eq!(pos[31], 7);
    // half-way rounds to even: 103.5 maps to 7 * 3.5 / 7 = 3.5, rounded to 4
    let mut pq2 = PriceQueue::new();
    pq2.push(px("100.0"));
    pq2.push(px("103.5"));
    pq2.push(px("107.0"));
    let pos2 = pq2.to_int_pos_v();
    assert_eq!(pos2[30], 4);
}

#[test]
fn test_2d_array_lights_one_cell_per_column() {
    let mut pq = PriceQueue::new();
    pq.push(px("100.0"));
    pq.push(px("107.0"));
    let grid = pq.to_2d_array();
    assert_eq!(grid.len(), 8);
    for row in &grid {
        assert_eq!(row.len(), 32);
    }
    // column 0 (price 100.0, position 0) lights the bottom row
    assert!(grid[7][0]);
    assert!(!grid[0][0]);
    // column 31 (price 107.0, position 7) lights the top row
    assert!(grid[0][31]);
    assert!(!grid[7][31]);
    for (r, row) in grid.iter().enumerate() {
        for (c, lit) in row.iter().enumerate() {
            if *lit {
                for r2 in 0..8 {
                    if r2 != r {
                        assert!(!grid[r2][c]);
                    }
                }
            }
        }
    }
}

#[test]
fn test_get_plot_shape() {
    let mut pq = PriceQueue::new();
    pq.push(px("100.0"));
    let plot = pq.get_plot();
    let lines: Vec<&str> = plot.split('\n').collect();
    assert_eq!(lines.len(), 8);
    for line in &lines {
        assert_eq!(line.len(), 64);
    }
    // a flat window draws its line on row 4 (position 3 from the bottom)
    assert_eq!(lines[4], "##".repeat(32));
    assert_eq!(lines[0], "  ".repeat(32));
}
