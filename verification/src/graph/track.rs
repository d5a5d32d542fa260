//! The track layout: a hits layout and a roll layout composed vertically;
//! the roll's renderables come first and the hits' renderables follow,
//! shifted down by the roll's height. The track itself contributes no
//! margin, no padding and no grid of its own.
use super::hits::lemma_hits_renderables_in_canvas;
use super::roll::lemma_roll_renderables_in_canvas;
use super::{build_shared_grid, draw_onto, shared_grid, Graph, Hits, Roll};
use crate::ppm::raster_can_draw;
use crate::{
    blocks_ok, has_positive, lemma_max_intensity_bounds, lemma_sum_durations_bounds,
    lemma_sum_intensities_bounds, Block, Dimension, Point, Renderable, ShapeRenderer,
};
use vstd::prelude::*;

verus! {

/// The shape moved down by `dy` device units.
pub open spec fn shift_shape(shape: Renderable, dy: int) -> Renderable {
    match shape {
        Renderable::Rect(p, d, s) => Renderable::Rect(
            Point { x: p.x, y: (p.y + dy) as i64 },
            d,
            s,
        ),
        Renderable::Line(p1, p2, s) => Renderable::Line(
            Point { x: p1.x, y: (p1.y + dy) as i64 },
            Point { x: p2.x, y: (p2.y + dy) as i64 },
            s,
        ),
    }
}

/// All shapes moved down by `dy` device units, in order.
pub open spec fn shifted(shapes: Seq<Renderable>, dy: int) -> Seq<Renderable> {
    Seq::new(shapes.len(), |i: int| shift_shape(shapes[i], dy))
}

/// A track layout: two independently constructed sub-layouts, stacked.
pub struct Track {
    pub size: Dimension,
    pub base: Block,
    pub hits: Hits,
    pub roll: Roll,
}

impl Track {
    /// Builds the hits layout from the first blocks and the roll layout
    /// from the second; the canvas is as wide as the hits layout and as
    /// high as both together.
    pub fn new(hsrc: &[Block], rsrc: &[Block]) -> (g: Track)
        requires
            blocks_ok(hsrc@),
            has_positive(hsrc@),
            blocks_ok(rsrc@),
            has_positive(rsrc@),
        ensures
            g.wf(),
            g.hits.blocks@ == hsrc@,
            g.roll.blocks@ == rsrc@,
            g.size.w as int == super::hits::hits_width(hsrc@),
            g.size.h as int == super::hits::hits_height(hsrc@) + super::roll::roll_height(rsrc@),
            g.base == Block(20, 20),
    {
        let base = Block(20, 20);
        let hits = Hits::new(hsrc);
        let roll = Roll::new(rsrc);
        proof {
            lemma_sum_durations_bounds(hsrc@);
            lemma_max_intensity_bounds(hsrc@);
            lemma_sum_intensities_bounds(rsrc@);
        }
        let width = hits.size.w;
        let height = hits.size.h + roll.size.h;
        Track { size: Dimension { w: width, h: height }, base, hits, roll }
    }

    /// `new`, with its precondition checked at run time: `None` exactly when
    /// either block sequence is out of range, empty, or all rests.
    pub fn try_new(hsrc: &[Block], rsrc: &[Block]) -> (r: Option<Track>)
        ensures
            (match r {
                Some(g) => blocks_ok(hsrc@) && has_positive(hsrc@) && blocks_ok(rsrc@)
                    && has_positive(rsrc@) && g.wf() && g.hits.blocks@ == hsrc@ && g.roll.blocks@
                    == rsrc@,
                None => !(blocks_ok(hsrc@) && has_positive(hsrc@) && blocks_ok(rsrc@)
                    && has_positive(rsrc@)),
            }),
    {
        if super::check_blocks(hsrc) && super::check_blocks(rsrc) {
            Some(Self::new(hsrc, rsrc))
        } else {
            None
        }
    }
}

impl Graph for Track {
    open spec fn wf(&self) -> bool {
        &&& self.hits.wf()
        &&& self.roll.wf()
        &&& self.base == Block(20, 20)
        &&& self.size.w == self.hits.size.w
        &&& self.size.h as int == self.hits.size.h + self.roll.size.h
    }

    open spec fn spec_size(&self) -> Dimension {
        self.size
    }

    open spec fn spec_base(&self) -> Block {
        self.base
    }

    /// The sub-layouts carry the margins; the track adds none.
    open spec fn spec_margin(&self) -> Dimension {
        Dimension { w: 0, h: 0 }
    }

    /// The sub-layouts carry the padding; the track adds none.
    open spec fn spec_padding(&self) -> Block {
        Block(0, 0)
    }

    open spec fn spec_grid(&self) -> Seq<Renderable> {
        shared_grid(self.size, Dimension { w: 0, h: 0 }, Block(20, 20))
    }

    open spec fn spec_renderables(&self) -> Seq<Renderable> {
        self.roll.spec_renderables() + shifted(
            self.hits.spec_renderables(),
            self.roll.size.h as int,
        )
    }

    fn size(&self) -> (d: Dimension) {
        self.size
    }

    fn base(&self) -> (b: Block) {
        self.base
    }

    fn margin(&self) -> (m: Dimension) {
        Dimension { w: 0, h: 0 }
    }

    fn padding(&self) -> (p: Block) {
        Block(0, 0)
    }

    fn grid(&self) -> (g: Vec<Renderable>) {
        proof {
            lemma_sum_durations_bounds(self.hits.blocks@);
            lemma_max_intensity_bounds(self.hits.blocks@);
            lemma_sum_intensities_bounds(self.roll.blocks@);
        }
        build_shared_grid(self.size, Dimension { w: 0, h: 0 }, Block(20, 20))
    }

    fn renderables(&self) -> (r: Vec<Renderable>) {
        let mut rend = self.roll.renderables();
        let hr = self.hits.renderables();
        let offset = self.roll.size.h;
        let ghost rr = self.roll.spec_renderables();
        let ghost hs = self.hits.spec_renderables();
        let ghost dy = offset as int;
        proof {
            lemma_hits_renderables_in_canvas(&self.hits);
            lemma_sum_intensities_bounds(self.roll.blocks@);
            assert(rend@ =~= rr + shifted(hs, dy).take(0));
        }
        let mut i: usize = 0;
        while i < hr.len()
            invariant
                self.wf(),
                hr@ == hs,
                offset == self.roll.size.h,
                dy == offset as int,
                0 <= offset <= 600_000_000_000,
                0 <= i <= hs.len(),
                forall|j: int|
                    0 <= j < hs.len() ==> raster_can_draw(self.hits.size, #[trigger] hs[j])
                        && hs[j] is Rect,
                rend@ == rr + shifted(hs, dy).take(i as int),
            decreases hs.len() - i,
        {
            let shape = hr[i];
            match shape {
                Renderable::Rect(p, d, s) => {
                    rend.push(Renderable::Rect(Point { x: p.x, y: p.y + offset }, d, s));
                },
                Renderable::Line(p1, p2, s) => {
                    proof {
                        assert(hs[i as int] is Rect);
                        assert(false);
                    }
                    rend.push(
                        Renderable::Line(
                            Point { x: p1.x, y: p1.y + offset },
                            Point { x: p2.x, y: p2.y + offset },
                            s,
                        ),
                    );
                },
            }
            proof {
                assert(rend@ =~= rr + shifted(hs, dy).take(i as int + 1));
            }
            i = i + 1;
        }
        proof {
            assert(shifted(hs, dy).take(hs.len() as int) =~= shifted(hs, dy));
        }
        rend
    }

    fn draw<T: ShapeRenderer>(&self, renderer: T) -> (buf: Vec<u8>) {
        let shapes = self.renderables();
        draw_onto(shapes.as_slice(), renderer)
    }
}

/// Wherever the roll sub-layout is no wider than the hits sub-layout, every
/// renderable of the track rasterizes within the track's canvas: the roll's
/// in the upper band, the hits' shifted into the lower band.
pub proof fn lemma_track_renderables_in_canvas(g: &Track)
    requires
        g.wf(),
        g.roll.size.w <= g.size.w,
    ensures
        forall|i: int|
            0 <= i < g.spec_renderables().len() ==> raster_can_draw(
                g.size,
                #[trigger] g.spec_renderables()[i],
            ),
{
    lemma_roll_renderables_in_canvas(&g.roll);
    lemma_hits_renderables_in_canvas(&g.hits);
    lemma_sum_intensities_bounds(g.roll.blocks@);
    lemma_sum_durations_bounds(g.hits.blocks@);
    lemma_max_intensity_bounds(g.hits.blocks@);
    let rr = g.roll.spec_renderables();
    let hs = g.hits.spec_renderables();
    let dy = g.roll.size.h as int;
    let all = g.spec_renderables();
    assert forall|i: int| 0 <= i < all.len() implies raster_can_draw(
        g.size,
        #[trigger] all[i],
    ) by {
        if i < rr.len() {
            assert(all[i] == rr[i]);
            assert(raster_can_draw(g.roll.size, rr[i]));
        } else {
            let j = i - rr.len();
            assert(all[i] == shifted(hs, dy)[j]);
            assert(shifted(hs, dy)[j] == shift_shape(hs[j], dy));
            assert(raster_can_draw(g.hits.size, hs[j]));
        }
    }
}

} // verus!
