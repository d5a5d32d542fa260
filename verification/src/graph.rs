//! The layout engine: interchangeable strategies that map a block sequence
//! into a canvas size and an ordered list of renderables, each consisting of
//! a grid (background plus unit lattice lines) followed by the content.
use crate::ppm::raster_can_draw;
use crate::{
    blocks_ok, has_positive, spec_color, steps, Block, Dimension, Point, Renderable, ShapeRenderer,
    Style,
};
use vstd::prelude::*;
use vstd::slice::slice_to_vec;

mod hits;
mod line;
mod roll;
mod track;

pub use hits::{
    hits_block_rect, hits_content, hits_height, hits_style, hits_width, lemma_hits_content_len,
    lemma_hits_gap_advances_cursor, lemma_hits_renderable_count, lemma_hits_renderables_in_canvas,
    Hits,
};
pub use line::{
    band_y, lemma_line_content_len, lemma_line_gap_advances_cursor, lemma_line_renderable_count,
    line_content, line_height, line_prev_y, line_style, line_width, Line,
};
pub use roll::{
    lemma_roll_content_len, lemma_roll_gap_advances_cursor, lemma_roll_renderable_count,
    lemma_roll_renderables_in_canvas, roll_block_rect, roll_content, roll_grid, roll_height,
    roll_style, roll_width, Roll,
};
pub use track::{lemma_track_renderables_in_canvas, shift_shape, shifted, Track};

verus! {

/// The dark color that fills the whole canvas under everything else.
pub open spec fn bg_style() -> Style {
    Style { color: spec_color(0x060910), background: None, border: None }
}

/// The light color of the one-unit-wide lattice lines.
pub open spec fn grid_line_style() -> Style {
    Style { color: spec_color(0x303030), background: None, border: None }
}

/// The background rectangle covering the canvas.
pub open spec fn bg_rect(size: Dimension) -> Renderable {
    Renderable::Rect(Point { x: 0, y: 0 }, Dimension { w: size.w, h: size.h }, bg_style())
}

/// One horizontal lattice line at row `y`, spanning the content area of a
/// canvas `w` wide with horizontal margin `mw`.
pub open spec fn row_rect(w: int, mw: int, y: int) -> Renderable {
    Renderable::Rect(
        Point { x: mw as i64, y: y as i64 },
        Dimension { w: (w - 2 * mw) as i64, h: 1 },
        grid_line_style(),
    )
}

/// One vertical lattice line at column `x`, spanning the content area of a
/// canvas `h` high with vertical margin `mh`.
pub open spec fn col_rect(h: int, mh: int, x: int) -> Renderable {
    Renderable::Rect(
        Point { x: x as i64, y: mh as i64 },
        Dimension { w: 1, h: (h - 2 * mh) as i64 },
        grid_line_style(),
    )
}

/// The horizontal lattice lines at `y`, `y + step`, ... below `limit`.
pub open spec fn row_lines(w: int, mw: int, y: int, limit: int, step: int) -> Seq<Renderable>
    decreases limit - y + step,
    when step >= 1
{
    if y >= limit {
        Seq::empty()
    } else {
        seq![row_rect(w, mw, y)] + row_lines(w, mw, y + step, limit, step)
    }
}

/// The vertical lattice lines at `x`, `x + step`, ... left of `limit`.
pub open spec fn col_lines(h: int, mh: int, x: int, limit: int, step: int) -> Seq<Renderable>
    decreases limit - x + step,
    when step >= 1
{
    if x >= limit {
        Seq::empty()
    } else {
        seq![col_rect(h, mh, x)] + col_lines(h, mh, x + step, limit, step)
    }
}

/// The shared grid: background, horizontal lines spaced every `base.1`
/// inside the margin plus one closing line, then vertical lines spaced
/// every `base.0` plus one closing line.
pub open spec fn shared_grid(size: Dimension, margin: Dimension, base: Block) -> Seq<Renderable> {
    seq![bg_rect(size)] + row_lines(
        size.w as int,
        margin.w as int,
        margin.h as int,
        size.h - margin.h,
        base.1 as int,
    ) + seq![row_rect(size.w as int, margin.w as int, size.h - margin.h)] + col_lines(
        size.h as int,
        margin.h as int,
        margin.w as int,
        size.w - margin.w,
        base.0 as int,
    ) + seq![col_rect(size.h as int, margin.h as int, size.w - margin.w)]
}

/// Appends the horizontal lattice lines from `y0` up to `limit`.
fn push_row_lines(rend: &mut Vec<Renderable>, w: i64, mw: i64, y0: i64, limit: i64, step: i64)
    requires
        1 <= step <= 1_000_000_000_000,
        0 <= mw <= 1_000_000_000_000,
        0 <= y0 <= 1_000_000_000_000,
        -1_000_000_000_000 <= limit <= 1_000_000_000_000,
        0 <= w <= 1_000_000_000_000,
    ensures
        final(rend)@ == old(rend)@ + row_lines(w as int, mw as int, y0 as int, limit as int, step as int),
{
    let ghost target = old(rend)@ + row_lines(w as int, mw as int, y0 as int, limit as int, step as int);
    let mut y = y0;
    while y < limit
        invariant
            1 <= step <= 1_000_000_000_000,
            0 <= mw <= 1_000_000_000_000,
            0 <= y0 <= y,
            y <= 2_000_000_000_000,
            -1_000_000_000_000 <= limit <= 1_000_000_000_000,
            0 <= w <= 1_000_000_000_000,
            target == rend@ + row_lines(w as int, mw as int, y as int, limit as int, step as int),
        decreases limit - y + step,
    {
        rend.push(Renderable::Rect(
            Point { x: mw, y },
            Dimension { w: w - mw * 2, h: 1 },
            Style::color(0x303030),
        ));
        proof {
            assert(rend@.last() == row_rect(w as int, mw as int, y as int));
            assert(target =~= rend@ + row_lines(
                w as int,
                mw as int,
                y as int + step,
                limit as int,
                step as int,
            ));
        }
        y = y + step;
    }
    proof {
        assert(final(rend)@ =~= target);
    }
}

/// Appends the vertical lattice lines from `x0` up to `limit`.
fn push_col_lines(rend: &mut Vec<Renderable>, h: i64, mh: i64, x0: i64, limit: i64, step: i64)
    requires
        1 <= step <= 1_000_000_000_000,
        0 <= mh <= 1_000_000_000_000,
        0 <= x0 <= 1_000_000_000_000,
        -1_000_000_000_000 <= limit <= 1_000_000_000_000,
        0 <= h <= 1_000_000_000_000,
    ensures
        final(rend)@ == old(rend)@ + col_lines(h as int, mh as int, x0 as int, limit as int, step as int),
{
    let ghost target = old(rend)@ + col_lines(h as int, mh as int, x0 as int, limit as int, step as int);
    let mut x = x0;
    while x < limit
        invariant
            1 <= step <= 1_000_000_000_000,
            0 <= mh <= 1_000_000_000_000,
            0 <= x0 <= x,
            x <= 2_000_000_000_000,
            -1_000_000_000_000 <= limit <= 1_000_000_000_000,
            0 <= h <= 1_000_000_000_000,
            target == rend@ + col_lines(h as int, mh as int, x as int, limit as int, step as int),
        decreases limit - x + step,
    {
        rend.push(Renderable::Rect(
            Point { x, y: mh },
            Dimension { w: 1, h: h - mh * 2 },
            Style::color(0x303030),
        ));
        proof {
            assert(rend@.last() == col_rect(h as int, mh as int, x as int));
            assert(target =~= rend@ + col_lines(
                h as int,
                mh as int,
                x as int + step,
                limit as int,
                step as int,
            ));
        }
        x = x + step;
    }
    proof {
        assert(final(rend)@ =~= target);
    }
}

/// Builds the shared grid for the given canvas, margin and unit cell.
pub fn build_shared_grid(size: Dimension, margin: Dimension, base: Block) -> (g: Vec<Renderable>)
    requires
        1 <= base.0 <= 1_000_000_000_000,
        1 <= base.1 <= 1_000_000_000_000,
        0 <= margin.w,
        0 <= margin.h,
        2 * margin.w <= size.w <= 1_000_000_000_000,
        2 * margin.h <= size.h <= 1_000_000_000_000,
    ensures
        g@ == shared_grid(size, margin, base),
{
    let mut g: Vec<Renderable> = Vec::new();
    g.push(Renderable::Rect(
        Point { x: 0, y: 0 },
        Dimension { w: size.w, h: size.h },
        Style::color(0x060910),
    ));
    assert(g@ =~= seq![bg_rect(size)]);
    push_row_lines(&mut g, size.w, margin.w, margin.h, size.h - margin.h, base.1);
    g.push(Renderable::Rect(
        Point { x: margin.w, y: size.h - margin.h },
        Dimension { w: size.w - margin.w * 2, h: 1 },
        Style::color(0x303030),
    ));
    push_col_lines(&mut g, size.h, margin.h, margin.w, size.w - margin.w, base.0);
    g.push(Renderable::Rect(
        Point { x: size.w - margin.w, y: margin.h },
        Dimension { w: 1, h: size.h - margin.h * 2 },
        Style::color(0x303030),
    ));
    assert(g@ =~= shared_grid(size, margin, base));
    g
}

/// A layout: computed once from a block sequence, then queried for its
/// canvas size, unit cell and renderable list, and drawn onto a backend.
pub trait Graph: Sized {
    spec fn wf(&self) -> bool;

    spec fn spec_size(&self) -> Dimension;

    spec fn spec_base(&self) -> Block;

    spec fn spec_margin(&self) -> Dimension;

    spec fn spec_padding(&self) -> Block;

    spec fn spec_grid(&self) -> Seq<Renderable>;

    spec fn spec_renderables(&self) -> Seq<Renderable>;

    fn size(&self) -> (d: Dimension)
        ensures
            d == self.spec_size(),
    ;

    fn base(&self) -> (b: Block)
        ensures
            b == self.spec_base(),
    ;

    /// Distance between the canvas edge and the gridded content area.
    fn margin(&self) -> (m: Dimension)
        ensures
            m == self.spec_margin(),
    ;

    /// Distance between the margin and the first renderable, expressed
    /// relative to the base cell.
    fn padding(&self) -> (p: Block)
        ensures
            p == self.spec_padding(),
    ;

    fn grid(&self) -> (g: Vec<Renderable>)
        requires
            self.wf(),
        ensures
            g@ == self.spec_grid(),
    ;

    /// The full ordered renderable list: the grid first, then one shape per
    /// non-gap block. A pure function of the layout: every call returns the
    /// same sequence.
    fn renderables(&self) -> (r: Vec<Renderable>)
        requires
            self.wf(),
        ensures
            r@ == self.spec_renderables(),
    ;

    /// Feeds every renderable, in order, to the backend and returns the
    /// backend's final buffer.
    fn draw<T: ShapeRenderer>(&self, renderer: T) -> (buf: Vec<u8>)
        requires
            self.wf(),
            renderer.wf(),
            forall|i: int|
                0 <= i < self.spec_renderables().len() ==> T::can_draw_at(
                    renderer.dims(),
                    #[trigger] self.spec_renderables()[i],
                ),
        ensures
            buf@ == steps::<T>(renderer.dims(), renderer.buf_model(), self.spec_renderables()),
    ;
}

/// Draws every renderable, in order, onto `renderer` and returns the
/// resulting buffer: the shared body of every layout's `draw`.
pub fn draw_onto<T: ShapeRenderer>(shapes: &[Renderable], renderer: T) -> (buf: Vec<u8>)
    requires
        renderer.wf(),
        forall|i: int|
            0 <= i < shapes@.len() ==> T::can_draw_at(renderer.dims(), #[trigger] shapes@[i]),
    ensures
        buf@ == steps::<T>(renderer.dims(), renderer.buf_model(), shapes@),
{
    let ghost d = renderer.dims();
    let ghost buf0 = renderer.buf_model();
    let ghost shapes0 = shapes@;
    let mut r = renderer;
    let mut i: usize = 0;
    proof {
        assert(shapes0.take(0) =~= Seq::<Renderable>::empty());
    }
    while i < shapes.len()
        invariant
            r.wf(),
            shapes@ == shapes0,
            r.dims() == d,
            0 <= i <= shapes0.len(),
            forall|j: int| 0 <= j < shapes0.len() ==> T::can_draw_at(d, #[trigger] shapes0[j]),
            r.buf_model() == steps::<T>(d, buf0, shapes0.take(i as int)),
        decreases shapes0.len() - i,
    {
        let shape = shapes[i];
        r.draw(shape);
        proof {
            assert(shapes0.take(i as int + 1).drop_last() =~= shapes0.take(i as int));
            assert(shapes0.take(i as int + 1).last() == shapes0[i as int]);
        }
        i = i + 1;
    }
    proof {
        assert(shapes0.take(shapes0.len() as int) =~= shapes0);
    }
    let buf = r.get_buffer();
    slice_to_vec(buf)
}

/// Every horizontal lattice line is a rectangle that rasterizes within the
/// canvas.
pub proof fn lemma_row_lines_in_canvas(d: Dimension, mw: int, y: int, limit: int, step: int)
    requires
        step >= 1,
        0 <= mw,
        2 * mw <= d.w as int,
        0 <= y,
        limit <= d.h as int,
    ensures
        forall|i: int|
            0 <= i < row_lines(d.w as int, mw, y, limit, step).len() ==> raster_can_draw(
                d,
                #[trigger] row_lines(d.w as int, mw, y, limit, step)[i],
            ) && row_lines(d.w as int, mw, y, limit, step)[i] is Rect,
    decreases limit - y + step,
{
    if y < limit {
        lemma_row_lines_in_canvas(d, mw, y + step, limit, step);
        let rl = row_lines(d.w as int, mw, y, limit, step);
        let tail = row_lines(d.w as int, mw, y + step, limit, step);
        assert forall|i: int| 0 <= i < rl.len() implies raster_can_draw(d, #[trigger] rl[i])
            && rl[i] is Rect by {
            if i == 0 {
                assert(rl[i] == row_rect(d.w as int, mw, y));
            } else {
                assert(rl[i] == tail[i - 1]);
            }
        }
    }
}

/// Every vertical lattice line is a rectangle that rasterizes within the
/// canvas.
pub proof fn lemma_col_lines_in_canvas(d: Dimension, mh: int, x: int, limit: int, step: int)
    requires
        step >= 1,
        0 <= mh,
        2 * mh <= d.h as int,
        0 <= x,
        limit <= d.w as int,
    ensures
        forall|i: int|
            0 <= i < col_lines(d.h as int, mh, x, limit, step).len() ==> raster_can_draw(
                d,
                #[trigger] col_lines(d.h as int, mh, x, limit, step)[i],
            ) && col_lines(d.h as int, mh, x, limit, step)[i] is Rect,
    decreases limit - x + step,
{
    if x < limit {
        lemma_col_lines_in_canvas(d, mh, x + step, limit, step);
        let cl = col_lines(d.h as int, mh, x, limit, step);
        let tail = col_lines(d.h as int, mh, x + step, limit, step);
        assert forall|i: int| 0 <= i < cl.len() implies raster_can_draw(d, #[trigger] cl[i])
            && cl[i] is Rect by {
            if i == 0 {
                assert(cl[i] == col_rect(d.h as int, mh, x));
            } else {
                assert(cl[i] == tail[i - 1]);
            }
        }
    }
}

/// Every renderable of the shared grid is a rectangle that rasterizes
/// within the canvas.
pub proof fn lemma_shared_grid_in_canvas(size: Dimension, margin: Dimension, base: Block)
    requires
        1 <= base.0,
        1 <= base.1,
        1 <= margin.w,
        1 <= margin.h,
        2 * margin.w <= size.w,
        2 * margin.h <= size.h,
    ensures
        forall|i: int|
            0 <= i < shared_grid(size, margin, base).len() ==> raster_can_draw(
                size,
                #[trigger] shared_grid(size, margin, base)[i],
            ) && shared_grid(size, margin, base)[i] is Rect,
{
    let rl = row_lines(size.w as int, margin.w as int, margin.h as int, size.h - margin.h, base.1 as int);
    let cl = col_lines(size.h as int, margin.h as int, margin.w as int, size.w - margin.w, base.0 as int);
    lemma_row_lines_in_canvas(size, margin.w as int, margin.h as int, size.h - margin.h, base.1 as int);
    lemma_col_lines_in_canvas(size, margin.h as int, margin.w as int, size.w - margin.w, base.0 as int);
    let g = shared_grid(size, margin, base);
    assert forall|i: int| 0 <= i < g.len() implies raster_can_draw(size, #[trigger] g[i]) && g[i] is Rect by {
        if i == 0 {
            assert(g[i] == bg_rect(size));
        } else if i < 1 + rl.len() {
            assert(g[i] == rl[i - 1]);
        } else if i == 1 + rl.len() {
            assert(g[i] == row_rect(size.w as int, margin.w as int, size.h - margin.h));
        } else if i < 2 + rl.len() + cl.len() {
            assert(g[i] == cl[i - 2 - rl.len()]);
        } else {
            assert(g[i] == col_rect(size.h as int, margin.h as int, size.w - margin.w));
        }
    }
}

/// The renderable list of a layout is a pure function of that layout: any
/// two calls of `renderables` return the same sequence, since each is
/// pinned to `spec_renderables`.
pub proof fn lemma_renderables_deterministic<G: Graph>(
    g: &G,
    r1: Seq<Renderable>,
    r2: Seq<Renderable>,
)
    requires
        r1 == g.spec_renderables(),
        r2 == g.spec_renderables(),
    ensures
        r1 == r2,
{
}

/// Whether the blocks meet every layout's construction precondition:
/// extents in range, and at least one positive intensity to derive a
/// vertical extent from.
pub fn check_blocks(blocks: &[Block]) -> (r: bool)
    ensures
        r == (blocks_ok(blocks@) && has_positive(blocks@)),
{
    if blocks.len() > 100_000 {
        return false;
    }
    let mut any_positive = false;
    let mut i: usize = 0;
    while i < blocks.len()
        invariant
            0 <= i <= blocks@.len(),
            forall|j: int| 0 <= j < i ==> crate::block_ok(#[trigger] blocks@[j]),
            any_positive == exists|j: int| 0 <= j < i && blocks@[j].1 > 0,
        decreases blocks@.len() - i,
    {
        let b = blocks[i];
        if b.0 < 0 || b.0 > 100_000 || b.1 < 0 || b.1 > 100_000 {
            return false;
        }
        if b.1 > 0 {
            any_positive = true;
        }
        i = i + 1;
    }
    any_positive
}

} // verus!
