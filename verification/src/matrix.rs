//! The display compositions: the plain price matrix and the price-and-clock
//! matrix. Each holds the rolling window and, fed one tick or one clock
//! second at a time by the driver loop, composes the next screen; all I/O and
//! waiting stays with the driver.

use crate::character::{
    spec_clock_text, spec_price_text, spec_text_pixels, Character, Font,
};
use crate::fixed::Fixed;
use crate::price_queue::{spec_push, spec_queue_screen, PlotKind, PriceQueue, WINDOW};
use crate::rgb::{colorize, spec_colorize, Rgb888};
use crate::screen::{grid_view, spec_draw, Screen, WIDTH};
use vstd::prelude::*;

verus! {

/// The plain matrix: the flat-line plot of the rolling window.
pub struct BtcMatrix {
    pub pq: PriceQueue,
}

impl BtcMatrix {
    pub fn new() -> (m: BtcMatrix)
        ensures
            m.pq@ == Seq::<Fixed>::empty(),
    {
        BtcMatrix { pq: PriceQueue::new() }
    }

    /// Takes one tick and composes the next screen.
    pub fn gen_screen(&mut self, price: Fixed) -> (s: Screen)
        requires
            old(self).pq.wf(),
        ensures
            final(self).pq@ == spec_push(old(self).pq@, price),
            final(self).pq.wf(),
            s.wf(),
            s@ == spec_queue_screen(spec_push(old(self).pq@, price), PlotKind::FlatLine, false),
    {
        self.pq.push(price);
        self.pq.to_screen(PlotKind::FlatLine, false)
    }
}

impl Default for BtcMatrix {
    fn default() -> (m: BtcMatrix)
        ensures
            m.pq@ == Seq::<Fixed>::empty(),
    {
        BtcMatrix::new()
    }
}

/// What the price-and-clock matrix shows for a window, the latest price, the
/// wall-clock time and the activity indicator: the flat-line plot, the price
/// recolored yellow at the top edge, the clock in gray at the bottom edge,
/// and — when lit — one yellow indicator pixel in the bottom-left corner.
pub open spec fn spec_time_screen(
    q: Seq<Fixed>,
    price: Option<Fixed>,
    h: u8,
    m: u8,
    s: u8,
    indicator_lit: bool,
) -> Seq<Seq<Option<Rgb888>>> {
    let base = spec_queue_screen(q, PlotKind::FlatLine, false);
    let with_price = match price {
        Some(p) => {
            let tp = spec_colorize(
                spec_text_pixels(spec_price_text(p), Font::Medium),
                Rgb888 { r: 255, g: 255, b: 255 },
                Rgb888 { r: 255, g: 255, b: 0 },
            );
            spec_draw(
                base,
                tp,
                if tp[0].len() + 1 > WIDTH {
                    0
                } else {
                    WIDTH - tp[0].len() - 1
                },
                0,
            )
        },
        None => base,
    };
    let clock = spec_colorize(
        spec_text_pixels(spec_clock_text(h, m, s), Font::Small),
        Rgb888 { r: 255, g: 255, b: 255 },
        Rgb888 { r: 200, g: 200, b: 200 },
    );
    let with_clock = spec_draw(
        with_price,
        clock,
        if clock[0].len() + 1 > WIDTH {
            0
        } else {
            WIDTH - clock[0].len() - 1
        },
        5,
    );
    if indicator_lit {
        spec_draw(with_clock, seq![seq![Some(Rgb888 { r: 255, g: 255, b: 0 })]], 0, 7)
    } else {
        with_clock
    }
}

/// The price-and-clock matrix: the rolling window, the latest price, and a
/// network-activity indicator that toggles on each fresh tick and goes dark
/// at each full second.
pub struct BtcTimeMatrix {
    pub pq: PriceQueue,
    pub price: Option<Fixed>,
    pub indicator_lit: bool,
}

impl BtcTimeMatrix {
    pub fn new() -> (m: BtcTimeMatrix)
        ensures
            m.pq@ == Seq::<Fixed>::empty(),
            m.price is None,
            !m.indicator_lit,
    {
        BtcTimeMatrix { pq: PriceQueue::new(), price: None, indicator_lit: false }
    }

    /// Takes one fresh tick: the window and latest price move, and the
    /// activity indicator toggles.
    pub fn on_price(&mut self, p: Fixed)
        requires
            old(self).pq.wf(),
        ensures
            final(self).pq@ == spec_push(old(self).pq@, p),
            final(self).pq.wf(),
            final(self).price == Some(p),
            final(self).indicator_lit == !old(self).indicator_lit,
    {
        self.price = Some(p);
        self.pq.push(p);
        self.indicator_lit = !self.indicator_lit;
    }

    /// A full second passed with no tick: the activity indicator goes dark.
    pub fn on_second(&mut self)
        ensures
            final(self).pq == old(self).pq,
            final(self).price == old(self).price,
            !final(self).indicator_lit,
    {
        self.indicator_lit = false;
    }

    /// Composes the screen for the given wall-clock time.
    pub fn gen_screen(&self, h: u8, m: u8, s: u8) -> (scr: Screen)
        requires
            self.pq@.len() == WINDOW,
            h < 24,
            m < 60,
            s < 60,
        ensures
            scr.wf(),
            scr@ == spec_time_screen(self.pq@, self.price, h, m, s, self.indicator_lit),
    {
        let mut screen = self.pq.to_screen(PlotKind::FlatLine, false);
        match &self.price {
            Some(p) => {
                let major = Character::from_float(*p, Font::Medium);
                let recolored = colorize(
                    &major.pixels,
                    &Rgb888::new(255, 255, 255),
                    &Rgb888::new(255, 255, 0),
                );
                proof {
                    assert(grid_view(recolored@) == spec_colorize(major@, Rgb888 { r: 255, g: 255, b: 255 }, Rgb888 { r: 255, g: 255, b: 0 }));
                    assert(grid_view(recolored@)[0].len() == major@[0].len());
                    assert(crate::screen::grid_rect(grid_view(recolored@)));
                }
                let w = recolored[0].len();
                let x0 = if w >= WIDTH - 1 {
                    0
                } else {
                    WIDTH - (w + 1)
                };
                screen.draw(&recolored, x0, 0);
            },
            None => {},
        }
        let minor = Character::from_time(h, m, s, Font::Small);
        let gray = colorize(&minor.pixels, &Rgb888::new(255, 255, 255), &Rgb888::new(200, 200, 200));
        proof {
            assert(grid_view(gray@) == spec_colorize(minor@, Rgb888 { r: 255, g: 255, b: 255 }, Rgb888 { r: 200, g: 200, b: 200 }));
            assert(grid_view(gray@)[0].len() == minor@[0].len());
            assert(crate::screen::grid_rect(grid_view(gray@)));
        }
        let cw = gray[0].len();
        let cx0 = if cw >= WIDTH - 1 {
            0
        } else {
            WIDTH - (cw + 1)
        };
        screen.draw(&gray, cx0, 5);
        if self.indicator_lit {
            let mut dot: Vec<Vec<Option<Rgb888>>> = Vec::new();
            let mut dot_row: Vec<Option<Rgb888>> = Vec::new();
            dot_row.push(Some(Rgb888::new(255, 255, 0)));
            dot.push(dot_row);
            proof {
                assert(grid_view(dot@) =~= seq![seq![Some(Rgb888 { r: 255, g: 255, b: 0 })]]);
            }
            screen.draw(&dot, 0, 7);
        }
        screen
    }
}

impl Default for BtcTimeMatrix {
    fn default() -> (m: BtcTimeMatrix)
        ensures
            m.pq@ == Seq::<Fixed>::empty(),
            m.price is None,
            !m.indicator_lit,
    {
        BtcTimeMatrix::new()
    }
}

} // verus!
