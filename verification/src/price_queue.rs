//! The rolling price window: the last 32 accepted prices, padded with the
//! first price until full, and its derived display data.

use crate::character::{spec_price_text, spec_text_pixels, Font};
use crate::fixed::{lemma_div_rhe_bound, spec_div_rhe, div_rhe, Fixed};
use crate::rgb::Rgb888;
use crate::screen::{spec_blank, spec_draw, spec_overlay, Screen, HEIGHT, WIDTH};
use std::collections::vec_deque::VecDeque;
use vstd::prelude::*;

verus! {

/// How one price stands against the one before it.
#[derive(Clone, Copy, PartialEq, Eq, Structural, Debug)]
pub enum Direction {
    Flat,
    Up,
    Down,
}

/// How the window is plotted: the full price curve, or a flat strip of
/// up/down colors.
#[derive(Clone, Copy, PartialEq, Eq, Structural, Debug)]
pub enum PlotKind {
    TrendLine,
    FlatLine,
}

/// The number of samples the window holds.
pub const WINDOW: usize = 32;

/// The number of pixel rows a plotted window spans.
pub const ROWS: usize = 8;

/// The rolling window itself. It is either empty (before the first push) or
/// holds exactly `WINDOW` samples.
pub struct PriceQueue {
    pub q: VecDeque<Fixed>,
}

/// What one push leaves in the window: a full window drops its oldest sample;
/// anything shorter is filled up to `WINDOW` with copies of the new price.
pub open spec fn spec_push(q: Seq<Fixed>, p: Fixed) -> Seq<Fixed> {
    if q.len() >= WINDOW {
        q.skip(1).push(p)
    } else {
        q + Seq::new((WINDOW - q.len()) as nat, |i: int| p)
    }
}

/// The direction from one sample to the next.
pub open spec fn spec_dir(prev: Fixed, cur: Fixed) -> Direction {
    if cur.units == prev.units {
        Direction::Flat
    } else if cur.units > prev.units {
        Direction::Up
    } else {
        Direction::Down
    }
}

/// The up/down/flat mark of every sample against its predecessor; the first
/// sample is flat by convention.
pub open spec fn spec_up_down(q: Seq<Fixed>) -> Seq<Direction> {
    Seq::new(
        if q.len() == 0 {
            1
        } else {
            q.len()
        },
        |i: int|
            if i == 0 {
                Direction::Flat
            } else {
                spec_dir(q[i - 1], q[i])
            },
    )
}

/// The smallest unit count in the window.
pub open spec fn spec_min_units(q: Seq<Fixed>) -> int
    decreases q.len(),
{
    if q.len() <= 1 {
        if q.len() == 0 {
            0
        } else {
            q[0].units as int
        }
    } else {
        let m = spec_min_units(q.drop_last());
        if q.last().units < m {
            q.last().units as int
        } else {
            m
        }
    }
}

/// The largest unit count in the window.
pub open spec fn spec_max_units(q: Seq<Fixed>) -> int
    decreases q.len(),
{
    if q.len() <= 1 {
        if q.len() == 0 {
            0
        } else {
            q[0].units as int
        }
    } else {
        let m = spec_max_units(q.drop_last());
        if q.last().units > m {
            q.last().units as int
        } else {
            m
        }
    }
}

pub proof fn lemma_min_max_units(q: Seq<Fixed>)
    requires
        q.len() >= 1,
    ensures
        forall|i: int|
            0 <= i < q.len() ==> spec_min_units(q) <= #[trigger] q[i].units as int
                <= spec_max_units(q),
    decreases q.len(),
{
    if q.len() > 1 {
        lemma_min_max_units(q.drop_last());
        assert(forall|i: int| 0 <= i < q.len() - 1 ==> q[i] == q.drop_last()[i]);
    }
}

/// The vertical pixel position of one sample, 0 at the window minimum, 7 at
/// its maximum, rounding half to even; a flat window sits on row 3.
pub open spec fn spec_pos(units: int, min: int, rng: int) -> int {
    spec_div_rhe((units - min) * (ROWS - 1), rng)
}

pub open spec fn spec_int_pos_v(q: Seq<Fixed>) -> Seq<int> {
    let min = spec_min_units(q);
    let rng = spec_max_units(q) - min;
    if rng == 0 {
        Seq::new(q.len(), |i: int| 3)
    } else {
        Seq::new(q.len(), |i: int| spec_pos(q[i].units as int, min, rng))
    }
}

pub proof fn lemma_int_pos_v_in_rows(q: Seq<Fixed>)
    requires
        q.len() >= 1,
    ensures
        forall|i: int| 0 <= i < q.len() ==> 0 <= #[trigger] spec_int_pos_v(q)[i] < ROWS,
{
    lemma_min_max_units(q);
    let min = spec_min_units(q);
    let rng = spec_max_units(q) - min;
    assert(spec_min_units(q) <= q[0].units as int <= spec_max_units(q));
    if rng != 0 {
        assert forall|i: int| 0 <= i < q.len() implies 0 <= #[trigger] spec_int_pos_v(q)[i]
            < ROWS by {
            let u = q[i].units as int;
            assert(0 <= u - min <= rng);
            assert((u - min) * 7 <= rng * 7);
            assert((u - min) * 7 >= 0);
            lemma_div_rhe_bound((u - min) * 7, rng, 7);
            assert((ROWS - 1) as int == 7);
            assert(spec_int_pos_v(q)[i] == spec_div_rhe((u - min) * 7, rng));
        }
    }
}

impl View for PriceQueue {
    type V = Seq<Fixed>;

    open spec fn view(&self) -> Seq<Fixed> {
        self.q@
    }
}

impl PriceQueue {
    /// The window is empty until the first push and full from then on.
    pub open spec fn wf(&self) -> bool {
        self@.len() == 0 || self@.len() == WINDOW
    }

    pub fn new() -> (pq: PriceQueue)
        ensures
            pq@ == Seq::<Fixed>::empty(),
            pq.wf(),
    {
        let q = VecDeque::with_capacity(WINDOW);
        PriceQueue { q }
    }

    /// Appends one price, evicting the oldest sample when the window is full
    /// and padding with the new price while it is not.
    pub fn push(&mut self, p: Fixed)
        requires
            old(self).wf(),
        ensures
            final(self)@ == spec_push(old(self)@, p),
            final(self).wf(),
            final(self)@.len() == WINDOW,
    {
        if self.q.len() == WINDOW {
            self.q.pop_front();
        }
        self.q.push_back(p);
        let ghost base = self.q@;
        proof {
            assert(self.q@ =~= base + Seq::new(0, |i: int| p));
        }
        while self.q.len() < WINDOW
            invariant
                base.len() >= 1,
                base.len() <= self.q@.len() <= WINDOW,
                self.q@ == base + Seq::new((self.q@.len() - base.len()) as nat, |i: int| p),
            decreases WINDOW - self.q@.len(),
        {
            self.q.push_back(p);
            proof {
                assert(self.q@ =~= base + Seq::new((self.q@.len() - base.len()) as nat, |i: int| p));
            }
        }
        proof {
            if old(self)@.len() >= WINDOW {
                assert(base =~= old(self)@.skip(1).push(p));
                assert(self.q@ =~= base);
            } else {
                assert(self.q@ =~= old(self)@ + Seq::new(
                    (WINDOW - old(self)@.len()) as nat,
                    |i: int| p,
                ));
            }
        }
    }

    /// The up/down/flat mark of every sample against its predecessor.
    pub fn to_up_down(&self) -> (v: Vec<Direction>)
        ensures
            v@ == spec_up_down(self@),
    {
        let mut v: Vec<Direction> = Vec::new();
        v.push(Direction::Flat);
        let mut i: usize = 1;
        while i < self.q.len()
            invariant
                1 <= i,
                self@.len() > 0 ==> i <= self@.len(),
                self@.len() == 0 ==> i == 1,
                v@.len() == i,
                forall|k: int| 0 <= k < i ==> v@[k] == spec_up_down(self@)[k],
            decreases self@.len() - i,
        {
            let prev = self.q[i - 1];
            let cur = self.q[i];
            let d = if cur.units == prev.units {
                Direction::Flat
            } else if cur.units > prev.units {
                Direction::Up
            } else {
                Direction::Down
            };
            v.push(d);
            i = i + 1;
        }
        proof {
            assert(v@ =~= spec_up_down(self@));
        }
        v
    }

    /// The text form of the up/down marks: a dash for flat, arrows for up
    /// and down.
    pub fn to_up_down_repr(&self) -> (s: String)
        ensures
            s@.len() == spec_up_down(self@).len(),
            forall|k: int|
                0 <= k < s@.len() ==> s@[k] == (match spec_up_down(self@)[k] {
                    Direction::Flat => '-',
                    Direction::Up => '↑',
                    Direction::Down => '↓',
                }),
    {
        let dirs = self.to_up_down();
        let mut out: Vec<char> = Vec::new();
        let mut i: usize = 0;
        while i < dirs.len()
            invariant
                i <= dirs@.len(),
                out@.len() == i,
                forall|k: int|
                    0 <= k < i ==> out@[k] == (match dirs@[k] {
                        Direction::Flat => '-',
                        Direction::Up => '↑',
                        Direction::Down => '↓',
                    }),
            decreases dirs@.len() - i,
        {
            let c = match dirs[i] {
                Direction::Flat => '-',
                Direction::Up => '↑',
                Direction::Down => '↓',
            };
            out.push(c);
            i = i + 1;
        }
        crate::wire::chars_string(&out)
    }

    /// The vertical pixel position of every sample.
    pub fn to_int_pos_v(&self) -> (v: Vec<usize>)
        requires
            self@.len() >= 1,
        ensures
            v@.len() == self@.len(),
            forall|k: int| 0 <= k < v@.len() ==> v@[k] as int == spec_int_pos_v(self@)[k],
            forall|k: int| 0 <= k < v@.len() ==> 0 <= #[trigger] v@[k] < ROWS,
    {
        proof {
            lemma_min_max_units(self@);
            lemma_int_pos_v_in_rows(self@);
        }
        let n = self.q.len();
        let mut min: u64 = self.q[0].units;
        let mut max: u64 = self.q[0].units;
        let mut i: usize = 1;
        while i < n
            invariant
                n == self@.len(),
                1 <= i <= n,
                min as int == spec_min_units(self@.subrange(0, i as int)),
                max as int == spec_max_units(self@.subrange(0, i as int)),
            decreases n - i,
        {
            let u = self.q[i].units;
            proof {
                assert(self@.subrange(0, i + 1).drop_last() =~= self@.subrange(0, i as int));
                assert(self@.subrange(0, i + 1).last() == self@[i as int]);
            }
            if u < min {
                min = u;
            }
            if u > max {
                max = u;
            }
            i = i + 1;
        }
        proof {
            assert(self@.subrange(0, n as int) =~= self@);
        }
        let rng = max - min;
        let mut v: Vec<usize> = Vec::new();
        let mut k: usize = 0;
        while k < n
            invariant
                n == self@.len(),
                n >= 1,
                k <= n,
                min as int == spec_min_units(self@),
                max as int == spec_max_units(self@),
                rng == max - min,
                v@.len() == k,
                forall|m: int| 0 <= m < k ==> v@[m] as int == spec_int_pos_v(self@)[m],
                forall|m: int| 0 <= m < k ==> 0 <= #[trigger] v@[m] < ROWS,
            decreases n - k,
        {
            proof {
                lemma_min_max_units(self@);
                lemma_int_pos_v_in_rows(self@);
            }
            if rng == 0 {
                v.push(3);
            } else {
                let u = self.q[k].units;
                let pos128 = div_rhe(((u - min) as u128) * 7, rng as u128);
                proof {
                    assert(0 <= (u - min) as int <= rng as int);
                    assert(((u - min) as int) * 7 <= (rng as int) * 7);
                    lemma_div_rhe_bound(((u - min) as int) * 7, rng as int, 7);
                    assert((ROWS - 1) as int == 7);
                    assert(spec_int_pos_v(self@)[k as int] == spec_div_rhe(
                        ((u - min) as int) * 7,
                        rng as int,
                    ));
                }
                v.push(pos128 as usize);
            }
            k = k + 1;
        }
        v
    }

    /// The window as an 8-row, sample-wide grid with one lit cell per column,
    /// row 0 on top.
    pub fn to_2d_array(&self) -> (grid: Vec<Vec<bool>>)
        requires
            self@.len() >= 1,
        ensures
            grid@.len() == ROWS,
            forall|r: int| 0 <= r < ROWS ==> #[trigger] grid@[r]@.len() == self@.len(),
            forall|r: int, c: int|
                0 <= r < ROWS && 0 <= c < self@.len() ==> #[trigger] grid@[r]@[c] == (r == ROWS - 1
                    - spec_int_pos_v(self@)[c]),
    {
        let pos = self.to_int_pos_v();
        let mut grid: Vec<Vec<bool>> = Vec::new();
        let mut r: usize = 0;
        while r < ROWS
            invariant
                pos@.len() == self@.len(),
                forall|k: int| 0 <= k < pos@.len() ==> pos@[k] as int == spec_int_pos_v(self@)[k],
                forall|k: int| 0 <= k < pos@.len() ==> 0 <= #[trigger] pos@[k] < ROWS,
                r <= ROWS,
                grid@.len() == r,
                forall|m: int| 0 <= m < r ==> #[trigger] grid@[m]@.len() == self@.len(),
                forall|m: int, c: int|
                    0 <= m < r && 0 <= c < self@.len() ==> #[trigger] grid@[m]@[c] == (m == ROWS - 1
                        - spec_int_pos_v(self@)[c]),
            decreases ROWS - r,
        {
            let mut row: Vec<bool> = Vec::new();
            let mut c: usize = 0;
            while c < pos.len()
                invariant
                    pos@.len() == self@.len(),
                    forall|k: int|
                        0 <= k < pos@.len() ==> pos@[k] as int == spec_int_pos_v(self@)[k],
                    forall|k: int| 0 <= k < pos@.len() ==> 0 <= #[trigger] pos@[k] < ROWS,
                    r < ROWS,
                    c <= pos@.len(),
                    row@.len() == c,
                    forall|m: int|
                        0 <= m < c ==> #[trigger] row@[m] == (r as int == ROWS - 1
                            - spec_int_pos_v(self@)[m]),
                decreases pos@.len() - c,
            {
                row.push(r == ROWS - 1 - pos[c]);
                c = c + 1;
            }
            grid.push(row);
            r = r + 1;
        }
        grid
    }

    /// The grid as text, two characters per cell: `##` lit, spaces unlit,
    /// rows joined with newlines.
    pub fn get_plot(&self) -> (s: String)
        requires
            self@.len() >= 1,
    {
        let grid = self.to_2d_array();
        let mut out: Vec<char> = Vec::new();
        let mut r: usize = 0;
        while r < grid.len()
            decreases grid@.len() - r,
        {
            if r > 0 {
                out.push('\n');
            }
            let row = &grid[r];
            let mut c: usize = 0;
            while c < row.len()
                decreases row@.len() - c,
            {
                let ch = if row[c] {
                    '#'
                } else {
                    ' '
                };
                out.push(ch);
                out.push(ch);
                c = c + 1;
            }
            r = r + 1;
        }
        crate::wire::chars_string(&out)
    }
}

/// The plot colors, dimmed to 204 of 255: blue for flat, green for up, red
/// for down.
pub open spec fn spec_dir_color(d: Direction) -> Rgb888 {
    match d {
        Direction::Flat => Rgb888 { r: 0, g: 0, b: 204 },
        Direction::Up => Rgb888 { r: 0, g: 204, b: 0 },
        Direction::Down => Rgb888 { r: 204, g: 0, b: 0 },
    }
}

/// The trend-line plot: each column lights one pixel at its price's height,
/// colored by its direction.
pub open spec fn spec_trend_screen(q: Seq<Fixed>) -> Seq<Seq<Option<Rgb888>>> {
    Seq::new(
        HEIGHT as nat,
        |y: int|
            Seq::new(
                WIDTH as nat,
                |x: int|
                    if y == HEIGHT - 1 - spec_int_pos_v(q)[x] {
                        Some(spec_dir_color(spec_up_down(q)[x]))
                    } else {
                        None
                    },
            ),
    )
}

/// The flat-line plot: one strip of direction colors on row 4.
pub open spec fn spec_flat_screen(q: Seq<Fixed>) -> Seq<Seq<Option<Rgb888>>> {
    Seq::new(
        HEIGHT as nat,
        |y: int|
            Seq::new(
                WIDTH as nat,
                |x: int|
                    if y == 4 {
                        Some(spec_dir_color(spec_up_down(q)[x]))
                    } else {
                        None
                    },
            ),
    )
}

/// What `to_screen` shows: the chosen plot, and over it — where asked for,
/// and where it fits the screen — the latest price in the large font.
pub open spec fn spec_queue_screen(q: Seq<Fixed>, plot_kind: PlotKind, show_num: bool) -> Seq<
    Seq<Option<Rgb888>>,
> {
    let base = match plot_kind {
        PlotKind::TrendLine => spec_trend_screen(q),
        PlotKind::FlatLine => spec_flat_screen(q),
    };
    let tp = spec_text_pixels(spec_price_text(q[q.len() - 1]), Font::Large);
    if show_num && tp[0].len() < WIDTH {
        spec_overlay(base, spec_draw(spec_blank(), tp, WIDTH - tp[0].len() - 1, 0))
    } else {
        base
    }
}

impl PriceQueue {
    /// Plots the window as a screen; with `show_num` the latest price is
    /// drawn over it (skipped where it would not fit the screen, which the
    /// large font reaches only above seven digits).
    pub fn to_screen(&self, plot_kind: PlotKind, show_num: bool) -> (s: Screen)
        requires
            self@.len() == WINDOW,
        ensures
            s.wf(),
            s@ == spec_queue_screen(self@, plot_kind, show_num),
    {
        let ghost target = match plot_kind {
            PlotKind::TrendLine => spec_trend_screen(self@),
            PlotKind::FlatLine => spec_flat_screen(self@),
        };
        let pos = self.to_int_pos_v();
        let ud = self.to_up_down();
        let mut rows: Vec<Vec<Option<Rgb888>>> = Vec::new();
        let mut y: usize = 0;
        while y < HEIGHT
            invariant
                self@.len() == WINDOW,
                target == (match plot_kind {
                    PlotKind::TrendLine => spec_trend_screen(self@),
                    PlotKind::FlatLine => spec_flat_screen(self@),
                }),
                pos@.len() == WINDOW,
                forall|k: int| 0 <= k < WINDOW ==> pos@[k] as int == spec_int_pos_v(self@)[k],
                forall|k: int| 0 <= k < WINDOW ==> #[trigger] pos@[k] < ROWS,
                ud@ == spec_up_down(self@),
                y <= HEIGHT,
                rows@.len() == y,
                forall|r: int|
                    0 <= r < y ==> #[trigger] crate::screen::grid_view(rows@)[r] == target[r],
            decreases HEIGHT - y,
        {
            let mut row: Vec<Option<Rgb888>> = Vec::new();
            let mut x: usize = 0;
            while x < WIDTH
                invariant
                    self@.len() == WINDOW,
                    target == (match plot_kind {
                        PlotKind::TrendLine => spec_trend_screen(self@),
                        PlotKind::FlatLine => spec_flat_screen(self@),
                    }),
                    pos@.len() == WINDOW,
                    forall|k: int| 0 <= k < WINDOW ==> pos@[k] as int == spec_int_pos_v(self@)[k],
                    forall|k: int| 0 <= k < WINDOW ==> #[trigger] pos@[k] < ROWS,
                    ud@ == spec_up_down(self@),
                    y < HEIGHT,
                    x <= WIDTH,
                    row@.len() == x,
                    forall|c: int| 0 <= c < x ==> #[trigger] row@[c] == target[y as int][c],
                decreases WIDTH - x,
            {
                let lit: bool = match plot_kind {
                    PlotKind::TrendLine => y == HEIGHT - 1 - pos[x],
                    PlotKind::FlatLine => y == 4,
                };
                let cell: Option<Rgb888> = if lit {
                    Some(match ud[x] {
                        Direction::Flat => Rgb888::new(0, 0, 204),
                        Direction::Up => Rgb888::new(0, 204, 0),
                        Direction::Down => Rgb888::new(204, 0, 0),
                    })
                } else {
                    None
                };
                row.push(cell);
                x = x + 1;
            }
            proof {
                assert(row@ =~= target[y as int]);
            }
            let ghost prev = rows@;
            let ghost rowv = row@;
            rows.push(row);
            y = y + 1;
            proof {
                assert forall|r: int| 0 <= r < y implies #[trigger] crate::screen::grid_view(
                    rows@,
                )[r] == target[r] by {
                    if r < prev.len() {
                        assert(rows@[r] == prev[r]);
                        assert(crate::screen::grid_view(prev)[r] == prev[r]@);
                    } else {
                        assert(rows@[r]@ == rowv);
                    }
                }
            }
        }
        let base = Screen { pixels: rows };
        proof {
            assert(base@ =~= target);
        }
        if show_num {
            let last = self.q[WINDOW - 1];
            let cs = crate::character::Character::from_float(last, Font::Large);
            proof {
                assert(self@[self@.len() - 1] == last);
            }
            if cs.pixels[0].len() < WIDTH {
                let num_screen = Screen::from_chars(cs);
                base.overlay(num_screen)
            } else {
                base
            }
        } else {
            base
        }
    }
}

impl Default for PriceQueue {
    fn default() -> (pq: PriceQueue)
        ensures
            pq@ == Seq::<Fixed>::empty(),
            pq.wf(),
    {
        PriceQueue::new()
    }
}

/// Window behavior: one price pushed into an empty window fills all 32 slots
/// with that price; a push into a full window drops exactly the oldest sample
/// and appends the new price at the end.
pub proof fn lemma_window_fill_and_evict(p: Fixed, q: Seq<Fixed>, p2: Fixed)
    requires
        q.len() == WINDOW,
    ensures
        spec_push(Seq::<Fixed>::empty(), p).len() == WINDOW,
        forall|i: int| 0 <= i < WINDOW ==> #[trigger] spec_push(Seq::<Fixed>::empty(), p)[i] == p,
        spec_push(q, p2).len() == WINDOW,
        spec_push(q, p2)[WINDOW - 1] == p2,
        forall|i: int| 0 <= i < WINDOW - 1 ==> #[trigger] spec_push(q, p2)[i] == q[i + 1],
{
    assert(spec_push(Seq::<Fixed>::empty(), p) =~= Seq::new(WINDOW as nat, |i: int| p));
}

} // verus!
