//! The roll layout: one bar per non-gap block, each one base cell high,
//! hanging at a vertical offset proportional to its own intensity, with the
//! canvas height derived from the full intensity sum.
use super::{
    bg_rect, col_lines, draw_onto, lemma_col_lines_in_canvas, lemma_row_lines_in_canvas,
    push_col_lines, push_row_lines, row_lines, Graph,
};
use crate::ppm::raster_can_draw;
use crate::{
    blocks_ok, count_non_gap, has_positive, is_gap, lemma_intensity_le_sum,
    lemma_sum_durations_bounds, lemma_sum_intensities_bounds, spec_color, sum_durations,
    sum_intensities, Block, Dimension, Point, Renderable, ShapeRenderer, Style,
};
use vstd::prelude::*;
use vstd::slice::slice_to_vec;

verus! {

/// The style every roll bar is drawn with: a fill with a border.
pub open spec fn roll_style() -> Style {
    Style {
        color: spec_color(0xDEAD00),
        background: Some(spec_color(0xBADA55)),
        border: Some(2),
    }
}

/// The canvas width for the blocks: the duration sum scaled by the base
/// width, plus the margin on both sides.
pub open spec fn roll_width(s: Seq<Block>) -> int {
    10 * sum_durations(s) + 2 * 20
}

/// The canvas height for the blocks: the intensity sum scaled by the base
/// height, plus the margin on both sides.
pub open spec fn roll_height(s: Seq<Block>) -> int {
    5 * sum_intensities(s) + 2 * 20
}

/// The bar for one non-gap block whose left edge sits at `x`.
pub open spec fn roll_block_rect(b: Block, x: int) -> Renderable {
    Renderable::Rect(
        Point { x: x as i64, y: (20 + 5 * b.1) as i64 },
        Dimension { w: (10 * b.0) as i64, h: 5 },
        roll_style(),
    )
}

/// One bar per non-gap block, left to right; every block, gap or not,
/// advances the cursor by its scaled duration.
pub open spec fn roll_content(s: Seq<Block>) -> Seq<Renderable>
    decreases s.len(),
{
    if s.len() == 0 {
        Seq::empty()
    } else {
        roll_content(s.drop_last()) + if is_gap(s.last()) {
            Seq::empty()
        } else {
            seq![roll_block_rect(s.last(), 20 + 10 * sum_durations(s.drop_last()))]
        }
    }
}

/// The roll grid: background, then rows every base height and columns every
/// base width, both ranges closed at the far margin.
pub open spec fn roll_grid(size: Dimension) -> Seq<Renderable> {
    seq![bg_rect(size)] + row_lines(size.w as int, 20, 20, size.h - 20 + 1, 5) + col_lines(
        size.h as int,
        20,
        20,
        size.w - 20 + 1,
        10,
    )
}

/// A roll layout: size and base computed once from the blocks.
pub struct Roll {
    pub size: Dimension,
    pub base: Block,
    pub blocks: Vec<Block>,
}

impl Roll {
    /// Computes the canvas size for the blocks and keeps a copy of them.
    pub fn new(blocks: &[Block]) -> (g: Roll)
        requires
            blocks_ok(blocks@),
            has_positive(blocks@),
        ensures
            g.wf(),
            g.blocks@ == blocks@,
            g.size.w as int == roll_width(blocks@),
            g.size.h as int == roll_height(blocks@),
            g.base == Block(10, 5),
    {
        let base = Block(10, 5);
        let mut sum_d: i64 = 0;
        let mut sum_i: i64 = 0;
        let mut i: usize = 0;
        while i < blocks.len()
            invariant
                blocks_ok(blocks@),
                0 <= i <= blocks@.len(),
                sum_d as int == sum_durations(blocks@.take(i as int)),
                sum_i as int == sum_intensities(blocks@.take(i as int)),
                0 <= sum_d <= (i as int) * 100_000,
                0 <= sum_i <= (i as int) * 100_000,
            decreases blocks@.len() - i,
        {
            let b = blocks[i];
            proof {
                let t = blocks@.take(i as int + 1);
                assert(t.drop_last() =~= blocks@.take(i as int));
                assert(t.last() == blocks@[i as int]);
                assert forall|j: int| 0 <= j < t.len() implies crate::block_ok(#[trigger] t[j]) by {
                    assert(t[j] == blocks@[j]);
                }
                lemma_sum_durations_bounds(t);
                lemma_sum_intensities_bounds(t);
            }
            sum_d = sum_d + b.0;
            sum_i = sum_i + b.1;
            i = i + 1;
        }
        proof {
            assert(blocks@.take(blocks@.len() as int) =~= blocks@);
        }
        let width = 20 * 2 + 10 * sum_d;
        let height = 20 * 2 + 5 * sum_i;
        Roll { size: Dimension { w: width, h: height }, base, blocks: slice_to_vec(blocks) }
    }

    /// `new`, with its precondition checked at run time: `None` exactly when
    /// the blocks are out of range, empty, or all rests.
    pub fn try_new(blocks: &[Block]) -> (r: Option<Roll>)
        ensures
            (match r {
                Some(g) => blocks_ok(blocks@) && has_positive(blocks@) && g.wf() && g.blocks@
                    == blocks@,
                None => !(blocks_ok(blocks@) && has_positive(blocks@)),
            }),
    {
        if super::check_blocks(blocks) {
            Some(Self::new(blocks))
        } else {
            None
        }
    }

    pub fn get_blocks(&self) -> (r: &[Block])
        ensures
            r@ == self.blocks@,
    {
        self.blocks.as_slice()
    }
}

impl Graph for Roll {
    open spec fn wf(&self) -> bool {
        &&& blocks_ok(self.blocks@)
        &&& has_positive(self.blocks@)
        &&& self.base == Block(10, 5)
        &&& self.size.w as int == roll_width(self.blocks@)
        &&& self.size.h as int == roll_height(self.blocks@)
    }

    open spec fn spec_size(&self) -> Dimension {
        self.size
    }

    open spec fn spec_base(&self) -> Block {
        self.base
    }

    open spec fn spec_margin(&self) -> Dimension {
        Dimension { w: 20, h: 20 }
    }

    open spec fn spec_padding(&self) -> Block {
        Block(0, 0)
    }

    open spec fn spec_grid(&self) -> Seq<Renderable> {
        roll_grid(self.size)
    }

    open spec fn spec_renderables(&self) -> Seq<Renderable> {
        roll_grid(self.size) + roll_content(self.blocks@)
    }

    fn size(&self) -> (d: Dimension) {
        self.size
    }

    fn base(&self) -> (b: Block) {
        self.base
    }

    fn margin(&self) -> (m: Dimension) {
        Dimension { w: 20, h: 20 }
    }

    fn padding(&self) -> (p: Block) {
        Block(0, 0)
    }

    fn grid(&self) -> (g: Vec<Renderable>) {
        proof {
            lemma_sum_durations_bounds(self.blocks@);
            lemma_sum_intensities_bounds(self.blocks@);
        }
        let mut g: Vec<Renderable> = Vec::new();
        g.push(
            Renderable::Rect(
                Point { x: 0, y: 0 },
                Dimension { w: self.size.w, h: self.size.h },
                Style::color(0x060910),
            ),
        );
        assert(g@ =~= seq![bg_rect(self.size)]);
        push_row_lines(&mut g, self.size.w, 20, 20, self.size.h - 20 + 1, 5);
        push_col_lines(&mut g, self.size.h, 20, 20, self.size.w - 20 + 1, 10);
        assert(g@ =~= roll_grid(self.size));
        g
    }

    fn renderables(&self) -> (r: Vec<Renderable>) {
        let mut rend = self.grid();
        let ghost gr = self.spec_grid();
        let mut x: i64 = 20;
        let mut i: usize = 0;
        proof {
            assert(self.blocks@.take(0) =~= Seq::<Block>::empty());
            assert(rend@ =~= gr + roll_content(self.blocks@.take(0)));
        }
        while i < self.blocks.len()
            invariant
                self.wf(),
                0 <= i <= self.blocks@.len(),
                x as int == 20 + 10 * sum_durations(self.blocks@.take(i as int)),
                0 <= sum_durations(self.blocks@.take(i as int)) <= (i as int) * 100_000,
                rend@ == gr + roll_content(self.blocks@.take(i as int)),
                gr == self.spec_grid(),
            decreases self.blocks@.len() - i,
        {
            let b = self.blocks[i];
            proof {
                let t = self.blocks@.take(i as int + 1);
                assert(t.drop_last() =~= self.blocks@.take(i as int));
                assert(t.last() == self.blocks@[i as int]);
                assert forall|j: int| 0 <= j < t.len() implies crate::block_ok(#[trigger] t[j]) by {
                    assert(t[j] == self.blocks@[j]);
                }
                lemma_sum_durations_bounds(t);
            }
            if b.0 != 0 && b.1 != 0 {
                rend.push(
                    Renderable::Rect(
                        Point { x, y: 20 + 5 * b.1 },
                        Dimension { w: 10 * b.0, h: 5 },
                        Style::color(0xDEAD00).with_border(2).with_background(0xBADA55),
                    ),
                );
                proof {
                    assert(rend@ =~= gr + roll_content(self.blocks@.take(i as int + 1)));
                }
            } else {
                proof {
                    assert(rend@ =~= gr + roll_content(self.blocks@.take(i as int + 1)));
                }
            }
            x = x + b.0 * 10;
            i = i + 1;
        }
        proof {
            assert(self.blocks@.take(self.blocks@.len() as int) =~= self.blocks@);
        }
        rend
    }

    fn draw<T: ShapeRenderer>(&self, renderer: T) -> (buf: Vec<u8>) {
        let shapes = self.renderables();
        draw_onto(shapes.as_slice(), renderer)
    }
}

/// The content emits exactly one renderable per non-gap block.
pub proof fn lemma_roll_content_len(s: Seq<Block>)
    ensures
        roll_content(s).len() == count_non_gap(s),
    decreases s.len(),
{
    if s.len() > 0 {
        lemma_roll_content_len(s.drop_last());
    }
}

/// The renderable list is exactly the grid followed by one bar per non-gap
/// block.
pub proof fn lemma_roll_renderable_count(g: &Roll)
    requires
        g.wf(),
    ensures
        g.spec_renderables().len() == g.spec_grid().len() + count_non_gap(g.blocks@),
{
    lemma_roll_content_len(g.blocks@);
}

/// A rest advances the cursor by its duration but emits no renderable: the
/// content for the extended sequence is unchanged, while the cursor offset
/// (the duration sum) has grown by the rest's duration.
pub proof fn lemma_roll_gap_advances_cursor(s: Seq<Block>, b: Block)
    requires
        b.1 == 0,
    ensures
        roll_content(s.push(b)) == roll_content(s),
        sum_durations(s.push(b)) == sum_durations(s) + b.0,
{
    assert(s.push(b).drop_last() =~= s);
    assert(roll_content(s.push(b)) =~= roll_content(s));
}

} // verus!

verus! {

/// Every content bar is a rectangle that rasterizes within a canvas at
/// least as large as the one computed for the blocks.
pub proof fn lemma_roll_content_in_canvas(s: Seq<Block>, d: Dimension)
    requires
        blocks_ok(s),
        roll_width(s) <= d.w as int,
        forall|j: int| 0 <= j < s.len() ==> 25 + 5 * (#[trigger] s[j]).1 <= d.h as int,
    ensures
        forall|i: int|
            0 <= i < roll_content(s).len() ==> raster_can_draw(d, #[trigger] roll_content(s)[i])
                && roll_content(s)[i] is Rect,
    decreases s.len(),
{
    if s.len() > 0 {
        let dl = s.drop_last();
        assert forall|j: int| 0 <= j < dl.len() implies crate::block_ok(#[trigger] dl[j]) by {
            assert(dl[j] == s[j]);
        }
        assert forall|j: int| 0 <= j < dl.len() implies 25 + 5 * (#[trigger] dl[j]).1
            <= d.h as int by {
            assert(dl[j] == s[j]);
        }
        lemma_roll_content_in_canvas(dl, d);
        lemma_sum_durations_bounds(dl);
        let c = roll_content(s);
        let cdl = roll_content(dl);
        assert forall|i: int| 0 <= i < c.len() implies raster_can_draw(d, #[trigger] c[i])
            && c[i] is Rect by {
            if i < cdl.len() {
                assert(c[i] == cdl[i]);
            } else {
                assert(!is_gap(s.last()));
                assert(c[i] == roll_block_rect(s.last(), 20 + 10 * sum_durations(dl)));
                assert(25 + 5 * s[s.len() - 1].1 <= d.h as int);
            }
        }
    }
}

/// Every renderable of a roll layout, grid and content alike, is a
/// rectangle that rasterizes within the layout's own canvas.
pub proof fn lemma_roll_renderables_in_canvas(g: &Roll)
    requires
        g.wf(),
    ensures
        forall|i: int|
            0 <= i < g.spec_renderables().len() ==> raster_can_draw(
                g.size,
                #[trigger] g.spec_renderables()[i],
            ) && g.spec_renderables()[i] is Rect,
{
    lemma_sum_durations_bounds(g.blocks@);
    lemma_sum_intensities_bounds(g.blocks@);
    let rl = row_lines(g.size.w as int, 20, 20, g.size.h - 20 + 1, 5);
    let cl = col_lines(g.size.h as int, 20, 20, g.size.w - 20 + 1, 10);
    lemma_row_lines_in_canvas(g.size, 20, 20, g.size.h - 20 + 1, 5);
    lemma_col_lines_in_canvas(g.size, 20, 20, g.size.w - 20 + 1, 10);
    assert forall|j: int| 0 <= j < g.blocks@.len() implies 25 + 5 * (#[trigger] g.blocks@[j]).1
        <= g.size.h as int by {
        lemma_intensity_le_sum(g.blocks@, j);
    }
    lemma_roll_content_in_canvas(g.blocks@, g.size);
    let gr = roll_grid(g.size);
    let c = roll_content(g.blocks@);
    let all = g.spec_renderables();
    assert forall|i: int| 0 <= i < all.len() implies raster_can_draw(g.size, #[trigger] all[i])
        && all[i] is Rect by {
        if i == 0 {
            assert(all[i] == bg_rect(g.size));
        } else if i < 1 + rl.len() {
            assert(all[i] == rl[i - 1]);
        } else if i < 1 + rl.len() + cl.len() {
            assert(all[i] == cl[i - 1 - rl.len()]);
        } else {
            assert(all[i] == c[i - gr.len()]);
        }
    }
}

} // verus!
