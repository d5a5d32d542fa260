//! The line layout: straight segments connecting the banded endpoints of
//! successive non-gap blocks; the horizontal axis advances by raw duration,
//! unscaled by the base cell.
use super::{build_shared_grid, draw_onto, shared_grid, Graph};
use crate::{
    blocks_ok, count_non_gap, has_positive, is_gap, lemma_count_non_gap_nonneg,
    lemma_max_intensity_bounds,
    lemma_sum_durations_bounds, max_intensity, spec_color, sum_durations, Block, Dimension, Point,
    Renderable, ShapeRenderer, Style,
};
use vstd::prelude::*;
use vstd::slice::slice_to_vec;

verus! {

/// The style every segment is drawn with: a plain fill color.
pub open spec fn line_style() -> Style {
    Style { color: spec_color(0x6495ED), background: None, border: None }
}

/// The canvas width for the blocks: the raw duration sum plus the margin on
/// both sides.
pub open spec fn line_width(s: Seq<Block>) -> int {
    sum_durations(s) + 2 * 40
}

/// The canvas height for the blocks: one band per intensity unit up to the
/// maximum, one band above it, plus the margin on both sides.
pub open spec fn line_height(s: Seq<Block>) -> int {
    20 * (max_intensity(s) + 1) + 2 * 40
}

/// The banded row of a block's endpoint on a canvas `height` high.
pub open spec fn band_y(b: Block, height: int) -> int {
    height - 40 - 20 * b.1
}

/// The endpoint row after the blocks: the band of the last non-gap block,
/// or the top padding row when none has occurred yet.
pub open spec fn line_prev_y(s: Seq<Block>, height: int) -> int
    decreases s.len(),
{
    if s.len() == 0 {
        40
    } else if !is_gap(s.last()) {
        band_y(s.last(), height)
    } else {
        line_prev_y(s.drop_last(), height)
    }
}

/// One segment per non-gap block after the first: from the previous non-gap
/// endpoint to this block's endpoint, spanning this block's raw duration.
/// No segment is emitted for the very first point or for a gap.
pub open spec fn line_content(s: Seq<Block>, height: int) -> Seq<Renderable>
    decreases s.len(),
{
    if s.len() == 0 {
        Seq::empty()
    } else {
        line_content(s.drop_last(), height) + if !is_gap(s.last()) && count_non_gap(s.drop_last())
            > 0 {
            seq![
                Renderable::Line(
                    Point {
                        x: (40 + sum_durations(s.drop_last())) as i64,
                        y: line_prev_y(s.drop_last(), height) as i64,
                    },
                    Point {
                        x: (40 + sum_durations(s.drop_last()) + s.last().0) as i64,
                        y: band_y(s.last(), height) as i64,
                    },
                    line_style(),
                ),
            ]
        } else {
            Seq::empty()
        }
    }
}

/// A line layout: size and base computed once from the blocks.
pub struct Line {
    pub size: Dimension,
    pub base: Block,
    pub blocks: Vec<Block>,
}

impl Line {
    /// Computes the canvas size for the blocks and keeps a copy of them.
    pub fn new(blocks: &[Block]) -> (g: Line)
        requires
            blocks_ok(blocks@),
            has_positive(blocks@),
        ensures
            g.wf(),
            g.blocks@ == blocks@,
            g.size.w as int == line_width(blocks@),
            g.size.h as int == line_height(blocks@),
            g.base == Block(20, 20),
    {
        let base = Block(20, 20);
        let mut sum_d: i64 = 0;
        let mut m: i64 = 0;
        let mut i: usize = 0;
        while i < blocks.len()
            invariant
                blocks_ok(blocks@),
                0 <= i <= blocks@.len(),
                sum_d as int == sum_durations(blocks@.take(i as int)),
                m as int == max_intensity(blocks@.take(i as int)),
                0 <= sum_d <= (i as int) * 100_000,
                0 <= m <= 100_000,
            decreases blocks@.len() - i,
        {
            let b = blocks[i];
            proof {
                let t = blocks@.take(i as int + 1);
                assert(t.drop_last() =~= blocks@.take(i as int));
                assert(t.last() == blocks@[i as int]);
                assert forall|j: int| 0 <= j < t.len() implies crate::block_ok(#[trigger] t[j]) by {
                    assert(t[j] == blocks@[j]);
                }
                lemma_sum_durations_bounds(t);
            }
            sum_d = sum_d + b.0;
            if b.1 > m {
                m = b.1;
            }
            i = i + 1;
        }
        proof {
            assert(blocks@.take(blocks@.len() as int) =~= blocks@);
        }
        let width = 40 * 2 + sum_d;
        let height = 40 * 2 + 20 * (m + 1);
        Line { size: Dimension { w: width, h: height }, base, blocks: slice_to_vec(blocks) }
    }

    /// `new`, with its precondition checked at run time: `None` exactly when
    /// the blocks are out of range, empty, or all rests.
    pub fn try_new(blocks: &[Block]) -> (r: Option<Line>)
        ensures
            (match r {
                Some(g) => blocks_ok(blocks@) && has_positive(blocks@) && g.wf() && g.blocks@
                    == blocks@,
                None => !(blocks_ok(blocks@) && has_positive(blocks@)),
            }),
    {
        if super::check_blocks(blocks) {
            Some(Self::new(blocks))
        } else {
            None
        }
    }
}

impl Graph for Line {
    open spec fn wf(&self) -> bool {
        &&& blocks_ok(self.blocks@)
        &&& has_positive(self.blocks@)
        &&& self.base == Block(20, 20)
        &&& self.size.w as int == line_width(self.blocks@)
        &&& self.size.h as int == line_height(self.blocks@)
    }

    open spec fn spec_size(&self) -> Dimension {
        self.size
    }

    open spec fn spec_base(&self) -> Block {
        self.base
    }

    open spec fn spec_margin(&self) -> Dimension {
        Dimension { w: 40, h: 40 }
    }

    open spec fn spec_padding(&self) -> Block {
        Block(0, 0)
    }

    open spec fn spec_grid(&self) -> Seq<Renderable> {
        shared_grid(self.size, Dimension { w: 40, h: 40 }, Block(20, 20))
    }

    open spec fn spec_renderables(&self) -> Seq<Renderable> {
        self.spec_grid() + line_content(self.blocks@, self.size.h as int)
    }

    fn size(&self) -> (d: Dimension) {
        self.size
    }

    fn base(&self) -> (b: Block) {
        self.base
    }

    fn margin(&self) -> (m: Dimension) {
        Dimension { w: 40, h: 40 }
    }

    fn padding(&self) -> (p: Block) {
        Block(0, 0)
    }

    fn grid(&self) -> (g: Vec<Renderable>) {
        proof {
            lemma_sum_durations_bounds(self.blocks@);
            lemma_max_intensity_bounds(self.blocks@);
        }
        build_shared_grid(self.size, Dimension { w: 40, h: 40 }, Block(20, 20))
    }

    fn renderables(&self) -> (r: Vec<Renderable>) {
        let mut rend = self.grid();
        let ghost gr = self.spec_grid();
        let ghost hfull = self.size.h as int;
        let mut x: i64 = 40;
        let mut prev_y: i64 = 40;
        let mut started = false;
        let mut i: usize = 0;
        proof {
            lemma_max_intensity_bounds(self.blocks@);
            assert(self.blocks@.take(0) =~= Seq::<Block>::empty());
            assert(rend@ =~= gr + line_content(self.blocks@.take(0), hfull));
        }
        while i < self.blocks.len()
            invariant
                self.wf(),
                0 <= i <= self.blocks@.len(),
                hfull == self.size.h as int,
                x as int == 40 + sum_durations(self.blocks@.take(i as int)),
                0 <= sum_durations(self.blocks@.take(i as int)) <= (i as int) * 100_000,
                prev_y as int == line_prev_y(self.blocks@.take(i as int), hfull),
                started == (count_non_gap(self.blocks@.take(i as int)) > 0),
                rend@ == gr + line_content(self.blocks@.take(i as int), hfull),
                gr == self.spec_grid(),
            decreases self.blocks@.len() - i,
        {
            let b = self.blocks[i];
            proof {
                let t = self.blocks@.take(i as int + 1);
                assert(t.drop_last() =~= self.blocks@.take(i as int));
                assert(t.last() == self.blocks@[i as int]);
                assert forall|j: int| 0 <= j < t.len() implies crate::block_ok(#[trigger] t[j]) by {
                    assert(t[j] == self.blocks@[j]);
                }
                lemma_sum_durations_bounds(t);
                lemma_max_intensity_bounds(self.blocks@);
                lemma_count_non_gap_nonneg(self.blocks@.take(i as int));
            }
            if b.0 != 0 && b.1 != 0 {
                let ny = self.size.h - 40 - 20 * b.1;
                if started {
                    rend.push(
                        Renderable::Line(
                            Point { x, y: prev_y },
                            Point { x: x + b.0, y: ny },
                            Style::color(0x6495ED),
                        ),
                    );
                }
                proof {
                    assert(rend@ =~= gr + line_content(self.blocks@.take(i as int + 1), hfull));
                }
                prev_y = ny;
                started = true;
            } else {
                proof {
                    assert(rend@ =~= gr + line_content(self.blocks@.take(i as int + 1), hfull));
                }
            }
            x = x + b.0;
            i = i + 1;
        }
        proof {
            assert(self.blocks@.take(self.blocks@.len() as int) =~= self.blocks@);
        }
        rend
    }

    fn draw<T: ShapeRenderer>(&self, renderer: T) -> (buf: Vec<u8>) {
        let shapes = self.renderables();
        draw_onto(shapes.as_slice(), renderer)
    }
}

/// The content emits exactly one segment per non-gap block after the first:
/// segments connect successive non-gap endpoints.
pub proof fn lemma_line_content_len(s: Seq<Block>, height: int)
    ensures
        count_non_gap(s) == 0 ==> line_content(s, height).len() == 0,
        count_non_gap(s) > 0 ==> line_content(s, height).len() == count_non_gap(s) - 1,
    decreases s.len(),
{
    if s.len() > 0 {
        lemma_count_non_gap_nonneg(s.drop_last());
        lemma_line_content_len(s.drop_last(), height);
    }
}

/// The renderable list is exactly the grid followed by one segment per
/// non-gap block beyond the first.
pub proof fn lemma_line_renderable_count(g: &Line)
    requires
        g.wf(),
        count_non_gap(g.blocks@) > 0,
    ensures
        g.spec_renderables().len() == g.spec_grid().len() + count_non_gap(g.blocks@) - 1,
{
    lemma_line_content_len(g.blocks@, g.size.h as int);
}

/// A rest advances the cursor by its duration, emits no segment, and leaves
/// the previous endpoint unchanged.
pub proof fn lemma_line_gap_advances_cursor(s: Seq<Block>, b: Block, height: int)
    requires
        b.1 == 0,
    ensures
        line_content(s.push(b), height) == line_content(s, height),
        line_prev_y(s.push(b), height) == line_prev_y(s, height),
        sum_durations(s.push(b)) == sum_durations(s) + b.0,
{
    assert(s.push(b).drop_last() =~= s);
    assert(line_content(s.push(b), height) =~= line_content(s, height));
}

} // verus!
