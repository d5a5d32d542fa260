//! The hits layout: one filled column per non-gap block, rising from the
//! band bottom up to the block's own intensity, with the canvas height
//! derived from the largest intensity.
use super::{build_shared_grid, draw_onto, lemma_shared_grid_in_canvas, shared_grid, Graph};
use crate::ppm::raster_can_draw;
use crate::{
    blocks_ok, count_non_gap, has_positive, is_gap, lemma_max_intensity_bounds,
    lemma_sum_durations_bounds, max_intensity, spec_color, sum_durations, Block, Dimension, Point,
    Renderable, ShapeRenderer, Style,
};
use vstd::prelude::*;
use vstd::slice::slice_to_vec;

verus! {

/// The style every hit column is drawn with: a fill with a border.
pub open spec fn hits_style() -> Style {
    Style {
        color: spec_color(0xBADA55),
        background: Some(spec_color(0x33EF33)),
        border: Some(2),
    }
}

/// The canvas width for the blocks: the duration sum scaled by the base
/// width, plus the margin on both sides.
pub open spec fn hits_width(s: Seq<Block>) -> int {
    20 * sum_durations(s) + 2 * 40
}

/// The canvas height for the blocks: one band per intensity unit up to the
/// maximum, one band above it, plus the margin on both sides.
pub open spec fn hits_height(s: Seq<Block>) -> int {
    20 * (max_intensity(s) + 1) + 2 * 40
}

/// The column for one non-gap block whose left edge sits at `x`, on a
/// canvas `height` high: one base cell wide, rising `intensity` bands from
/// the content bottom.
pub open spec fn hits_block_rect(b: Block, x: int, height: int) -> Renderable {
    Renderable::Rect(
        Point { x: x as i64, y: (height - 40 - 20 * b.1) as i64 },
        Dimension { w: 20, h: (20 * b.1) as i64 },
        hits_style(),
    )
}

/// One column per non-gap block, left to right; every block, gap or not,
/// advances the cursor by its scaled duration.
pub open spec fn hits_content(s: Seq<Block>, height: int) -> Seq<Renderable>
    decreases s.len(),
{
    if s.len() == 0 {
        Seq::empty()
    } else {
        hits_content(s.drop_last(), height) + if is_gap(s.last()) {
            Seq::empty()
        } else {
            seq![hits_block_rect(s.last(), 40 + 20 * sum_durations(s.drop_last()), height)]
        }
    }
}

/// A hits layout: size and base computed once from the blocks.
pub struct Hits {
    pub size: Dimension,
    pub base: Block,
    pub blocks: Vec<Block>,
}

impl Hits {
    /// Computes the canvas size for the blocks and keeps a copy of them.
    pub fn new(blocks: &[Block]) -> (g: Hits)
        requires
            blocks_ok(blocks@),
            has_positive(blocks@),
        ensures
            g.wf(),
            g.blocks@ == blocks@,
            g.size.w as int == hits_width(blocks@),
            g.size.h as int == hits_height(blocks@),
            g.base == Block(20, 20),
    {
        let base = Block(20, 20);
        let mut sum_d: i64 = 0;
        let mut m: i64 = 0;
        let mut i: usize = 0;
        while i < blocks.len()
            invariant
                blocks_ok(blocks@),
                0 <= i <= blocks@.len(),
                sum_d as int == sum_durations(blocks@.take(i as int)),
                m as int == max_intensity(blocks@.take(i as int)),
                0 <= sum_d <= (i as int) * 100_000,
                0 <= m <= 100_000,
            decreases blocks@.len() - i,
        {
            let b = blocks[i];
            proof {
                let t = blocks@.take(i as int + 1);
                assert(t.drop_last() =~= blocks@.take(i as int));
                assert(t.last() == blocks@[i as int]);
                assert forall|j: int| 0 <= j < t.len() implies crate::block_ok(#[trigger] t[j]) by {
                    assert(t[j] == blocks@[j]);
                }
                lemma_sum_durations_bounds(t);
            }
            sum_d = sum_d + b.0;
            if b.1 > m {
                m = b.1;
            }
            i = i + 1;
        }
        proof {
            assert(blocks@.take(blocks@.len() as int) =~= blocks@);
        }
        let width = 40 * 2 + 20 * sum_d;
        let height = 40 * 2 + 20 * (m + 1);
        Hits { size: Dimension { w: width, h: height }, base, blocks: slice_to_vec(blocks) }
    }

    /// `new`, with its precondition checked at run time: `None` exactly when
    /// the blocks are out of range, empty, or all rests.
    pub fn try_new(blocks: &[Block]) -> (r: Option<Hits>)
        ensures
            (match r {
                Some(g) => blocks_ok(blocks@) && has_positive(blocks@) && g.wf() && g.blocks@
                    == blocks@,
                None => !(blocks_ok(blocks@) && has_positive(blocks@)),
            }),
    {
        if super::check_blocks(blocks) {
            Some(Self::new(blocks))
        } else {
            None
        }
    }

    pub fn get_blocks(&self) -> (r: &[Block])
        ensures
            r@ == self.blocks@,
    {
        self.blocks.as_slice()
    }
}

impl Graph for Hits {
    open spec fn wf(&self) -> bool {
        &&& blocks_ok(self.blocks@)
        &&& has_positive(self.blocks@)
        &&& self.base == Block(20, 20)
        &&& self.size.w as int == hits_width(self.blocks@)
        &&& self.size.h as int == hits_height(self.blocks@)
    }

    open spec fn spec_size(&self) -> Dimension {
        self.size
    }

    open spec fn spec_base(&self) -> Block {
        self.base
    }

    open spec fn spec_margin(&self) -> Dimension {
        Dimension { w: 40, h: 40 }
    }

    open spec fn spec_padding(&self) -> Block {
        Block(0, 0)
    }

    open spec fn spec_grid(&self) -> Seq<Renderable> {
        shared_grid(self.size, Dimension { w: 40, h: 40 }, Block(20, 20))
    }

    open spec fn spec_renderables(&self) -> Seq<Renderable> {
        self.spec_grid() + hits_content(self.blocks@, self.size.h as int)
    }

    fn size(&self) -> (d: Dimension) {
        self.size
    }

    fn base(&self) -> (b: Block) {
        self.base
    }

    fn margin(&self) -> (m: Dimension) {
        Dimension { w: 40, h: 40 }
    }

    fn padding(&self) -> (p: Block) {
        Block(0, 0)
    }

    fn grid(&self) -> (g: Vec<Renderable>) {
        proof {
            lemma_sum_durations_bounds(self.blocks@);
            lemma_max_intensity_bounds(self.blocks@);
        }
        build_shared_grid(self.size, Dimension { w: 40, h: 40 }, Block(20, 20))
    }

    fn renderables(&self) -> (r: Vec<Renderable>) {
        let mut rend = self.grid();
        let ghost gr = self.spec_grid();
        let ghost hfull = self.size.h as int;
        let mut x: i64 = 40;
        let mut i: usize = 0;
        proof {
            lemma_max_intensity_bounds(self.blocks@);
            assert(self.blocks@.take(0) =~= Seq::<Block>::empty());
            assert(rend@ =~= gr + hits_content(self.blocks@.take(0), hfull));
        }
        while i < self.blocks.len()
            invariant
                self.wf(),
                0 <= i <= self.blocks@.len(),
                hfull == self.size.h as int,
                x as int == 40 + 20 * sum_durations(self.blocks@.take(i as int)),
                0 <= sum_durations(self.blocks@.take(i as int)) <= (i as int) * 100_000,
                rend@ == gr + hits_content(self.blocks@.take(i as int), hfull),
                gr == self.spec_grid(),
            decreases self.blocks@.len() - i,
        {
            let b = self.blocks[i];
            proof {
                let t = self.blocks@.take(i as int + 1);
                assert(t.drop_last() =~= self.blocks@.take(i as int));
                assert(t.last() == self.blocks@[i as int]);
                assert forall|j: int| 0 <= j < t.len() implies crate::block_ok(#[trigger] t[j]) by {
                    assert(t[j] == self.blocks@[j]);
                }
                lemma_sum_durations_bounds(t);
                lemma_max_intensity_bounds(self.blocks@);
            }
            if b.0 != 0 && b.1 != 0 {
                rend.push(
                    Renderable::Rect(
                        Point { x, y: self.size.h - 40 - 20 * b.1 },
                        Dimension { w: 20, h: 20 * b.1 },
                        Style::color(0xBADA55).with_border(2).with_background(0x33EF33),
                    ),
                );
                proof {
                    assert(rend@ =~= gr + hits_content(self.blocks@.take(i as int + 1), hfull));
                }
            } else {
                proof {
                    assert(rend@ =~= gr + hits_content(self.blocks@.take(i as int + 1), hfull));
                }
            }
            x = x + b.0 * 20;
            i = i + 1;
        }
        proof {
            assert(self.blocks@.take(self.blocks@.len() as int) =~= self.blocks@);
        }
        rend
    }

    fn draw<T: ShapeRenderer>(&self, renderer: T) -> (buf: Vec<u8>) {
        let shapes = self.renderables();
        draw_onto(shapes.as_slice(), renderer)
    }
}

/// The content emits exactly one renderable per non-gap block.
pub proof fn lemma_hits_content_len(s: Seq<Block>, height: int)
    ensures
        hits_content(s, height).len() == count_non_gap(s),
    decreases s.len(),
{
    if s.len() > 0 {
        lemma_hits_content_len(s.drop_last(), height);
    }
}

/// The renderable list is exactly the grid followed by one column per
/// non-gap block.
pub proof fn lemma_hits_renderable_count(g: &Hits)
    requires
        g.wf(),
    ensures
        g.spec_renderables().len() == g.spec_grid().len() + count_non_gap(g.blocks@),
{
    lemma_hits_content_len(g.blocks@, g.size.h as int);
}

/// A rest advances the cursor by its duration but emits no renderable.
pub proof fn lemma_hits_gap_advances_cursor(s: Seq<Block>, b: Block, height: int)
    requires
        b.1 == 0,
    ensures
        hits_content(s.push(b), height) == hits_content(s, height),
        sum_durations(s.push(b)) == sum_durations(s) + b.0,
{
    assert(s.push(b).drop_last() =~= s);
    assert(hits_content(s.push(b), height) =~= hits_content(s, height));
}

} // verus!

verus! {

/// Every content column is a rectangle that rasterizes within a canvas at
/// least as large as the one computed for the blocks.
pub proof fn lemma_hits_content_in_canvas(s: Seq<Block>, d: Dimension)
    requires
        blocks_ok(s),
        hits_width(s) <= d.w as int,
        forall|j: int| 0 <= j < s.len() ==> 20 * (#[trigger] s[j]).1 + 80 <= d.h as int,
    ensures
        forall|i: int|
            0 <= i < hits_content(s, d.h as int).len() ==> raster_can_draw(
                d,
                #[trigger] hits_content(s, d.h as int)[i],
            ) && hits_content(s, d.h as int)[i] is Rect,
    decreases s.len(),
{
    if s.len() > 0 {
        let dl = s.drop_last();
        assert forall|j: int| 0 <= j < dl.len() implies crate::block_ok(#[trigger] dl[j]) by {
            assert(dl[j] == s[j]);
        }
        assert forall|j: int| 0 <= j < dl.len() implies 20 * (#[trigger] dl[j]).1 + 80
            <= d.h as int by {
            assert(dl[j] == s[j]);
        }
        lemma_hits_content_in_canvas(dl, d);
        lemma_sum_durations_bounds(dl);
        let c = hits_content(s, d.h as int);
        let cdl = hits_content(dl, d.h as int);
        assert forall|i: int| 0 <= i < c.len() implies raster_can_draw(d, #[trigger] c[i])
            && c[i] is Rect by {
            if i < cdl.len() {
                assert(c[i] == cdl[i]);
            } else {
                assert(!is_gap(s.last()));
                assert(c[i] == hits_block_rect(
                    s.last(),
                    40 + 20 * sum_durations(dl),
                    d.h as int,
                ));
                assert(20 * s[s.len() - 1].1 + 80 <= d.h as int);
            }
        }
    }
}

/// Every renderable of a hits layout, grid and content alike, is a
/// rectangle that rasterizes within the layout's own canvas.
pub proof fn lemma_hits_renderables_in_canvas(g: &Hits)
    requires
        g.wf(),
    ensures
        forall|i: int|
            0 <= i < g.spec_renderables().len() ==> raster_can_draw(
                g.size,
                #[trigger] g.spec_renderables()[i],
            ) && g.spec_renderables()[i] is Rect,
{
    lemma_sum_durations_bounds(g.blocks@);
    lemma_max_intensity_bounds(g.blocks@);
    lemma_shared_grid_in_canvas(g.size, Dimension { w: 40, h: 40 }, Block(20, 20));
    lemma_hits_content_in_canvas(g.blocks@, g.size);
    let gr = g.spec_grid();
    let c = hits_content(g.blocks@, g.size.h as int);
    let all = g.spec_renderables();
    assert forall|i: int| 0 <= i < all.len() implies raster_can_draw(g.size, #[trigger] all[i])
        && all[i] is Rect by {
        if i < gr.len() {
            assert(all[i] == gr[i]);
        } else {
            assert(all[i] == c[i - gr.len()]);
        }
    }
}

} // verus!
