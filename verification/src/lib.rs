//! Turns a sequence of blocks (duration and intensity pairs, like notes in a
//! piano roll) into a two-dimensional chart, and emits that chart either as a
//! raster pixel buffer or as a vector markup document.
//!
//! Geometry is modelled in whole device units (`i64`): every layout and both
//! backends compute exclusively over integers, so sizes, positions and pixel
//! offsets are exact.
use vstd::prelude::*;

mod graph;
mod numfmt;
mod style;

pub mod ppm;
pub mod svg;
pub mod writer;

pub use crate::graph::{
    band_y, bg_rect, bg_style, build_shared_grid, check_blocks, col_lines, col_rect, draw_onto,
    grid_line_style, hits_block_rect, hits_content, hits_height, hits_style, hits_width,
    lemma_hits_content_len, lemma_hits_gap_advances_cursor, lemma_hits_renderable_count,
    lemma_hits_renderables_in_canvas, lemma_line_content_len, lemma_line_gap_advances_cursor,
    lemma_line_renderable_count, lemma_renderables_deterministic, lemma_roll_content_len,
    lemma_roll_gap_advances_cursor, lemma_roll_renderable_count, lemma_roll_renderables_in_canvas,
    lemma_track_renderables_in_canvas, line_content, line_height, line_prev_y, line_style,
    line_width, roll_block_rect, roll_content, roll_grid, roll_height, roll_style, roll_width,
    row_lines, row_rect, shared_grid, shift_shape, shifted, Graph, Hits, Line, Roll, Track,
};
pub use crate::style::{hex_color, spec_color, Color, Style};
pub use crate::writer::{FileWriter, StdoutWriter};

verus! {

/// A position on the canvas, in device units.
#[derive(Debug, Copy, Clone, PartialEq, Eq)]
pub struct Point {
    pub x: i64,
    pub y: i64,
}

/// A width and height, in device units.
#[derive(Debug, Copy, Clone, PartialEq, Eq)]
pub struct Dimension {
    pub w: i64,
    pub h: i64,
}

/// One bar/note: a duration (horizontal extent) and an intensity (vertical
/// extent), both in abstract block units; intensity 0 means a rest.
#[derive(Debug, Copy, Clone, PartialEq, Eq)]
pub struct Block(pub i64, pub i64);

impl Block {
    pub fn new(w: i64, h: i64) -> (b: Block)
        ensures
            b == Block(w, h),
    {
        Block(w, h)
    }

    pub fn intensity(&self) -> (r: Option<i64>)
        ensures
            r == Some(self.1),
    {
        Some(self.1)
    }

    pub fn duration(&self) -> (r: i64)
        ensures
            r == self.0,
    {
        self.0
    }
}

/// A block both of whose extents lie within the range every layout
/// computation stays exact in.
pub open spec fn block_ok(b: Block) -> bool {
    0 <= b.0 <= 100_000 && 0 <= b.1 <= 100_000
}

/// A block sequence a layout accepts without any arithmetic overflowing.
pub open spec fn blocks_ok(s: Seq<Block>) -> bool {
    s.len() <= 100_000 && (forall|i: int| 0 <= i < s.len() ==> block_ok(#[trigger] s[i]))
}

/// A gap: a block that occupies horizontal room (possibly none) but draws
/// nothing. Rests have intensity 0; degenerate blocks have duration 0.
pub open spec fn is_gap(b: Block) -> bool {
    b.0 == 0 || b.1 == 0
}

/// Whether some block has a positive intensity: the precondition every
/// layout construction needs to derive its vertical extent.
pub open spec fn has_positive(s: Seq<Block>) -> bool {
    exists|i: int| 0 <= i < s.len() && s[i].1 > 0
}

/// Sum of the durations of all blocks.
pub open spec fn sum_durations(s: Seq<Block>) -> int
    decreases s.len(),
{
    if s.len() == 0 {
        0
    } else {
        sum_durations(s.drop_last()) + s.last().0
    }
}

/// Sum of the intensities of all blocks.
pub open spec fn sum_intensities(s: Seq<Block>) -> int
    decreases s.len(),
{
    if s.len() == 0 {
        0
    } else {
        sum_intensities(s.drop_last()) + s.last().1
    }
}

/// Largest intensity among the blocks (0 for the empty sequence).
pub open spec fn max_intensity(s: Seq<Block>) -> int
    decreases s.len(),
{
    if s.len() == 0 {
        0
    } else if s.last().1 >= max_intensity(s.drop_last()) {
        s.last().1 as int
    } else {
        max_intensity(s.drop_last())
    }
}

/// How many blocks are not gaps, i.e. emit a renderable.
pub open spec fn count_non_gap(s: Seq<Block>) -> int
    decreases s.len(),
{
    if s.len() == 0 {
        0
    } else {
        count_non_gap(s.drop_last()) + if is_gap(s.last()) {
            0int
        } else {
            1int
        }
    }
}

pub proof fn lemma_sum_durations_bounds(s: Seq<Block>)
    requires
        forall|i: int| 0 <= i < s.len() ==> block_ok(#[trigger] s[i]),
    ensures
        0 <= sum_durations(s) <= s.len() * 100_000,
    decreases s.len(),
{
    if s.len() > 0 {
        lemma_sum_durations_bounds(s.drop_last());
        assert(block_ok(s[s.len() - 1]));
        assert(s.drop_last().len() * 100_000 + 100_000 == s.len() * 100_000) by (nonlinear_arith)
            requires
                s.len() >= 1,
                s.drop_last().len() == s.len() - 1,
        ;
    }
}

pub proof fn lemma_sum_intensities_bounds(s: Seq<Block>)
    requires
        forall|i: int| 0 <= i < s.len() ==> block_ok(#[trigger] s[i]),
    ensures
        0 <= sum_intensities(s) <= s.len() * 100_000,
    decreases s.len(),
{
    if s.len() > 0 {
        lemma_sum_intensities_bounds(s.drop_last());
        assert(block_ok(s[s.len() - 1]));
        assert(s.drop_last().len() * 100_000 + 100_000 == s.len() * 100_000) by (nonlinear_arith)
            requires
                s.len() >= 1,
                s.drop_last().len() == s.len() - 1,
        ;
    }
}

pub proof fn lemma_max_intensity_bounds(s: Seq<Block>)
    requires
        forall|i: int| 0 <= i < s.len() ==> block_ok(#[trigger] s[i]),
    ensures
        0 <= max_intensity(s) <= 100_000,
        forall|i: int| 0 <= i < s.len() ==> #[trigger] s[i].1 <= max_intensity(s),
    decreases s.len(),
{
    if s.len() > 0 {
        lemma_max_intensity_bounds(s.drop_last());
        assert(block_ok(s[s.len() - 1]));
        assert forall|i: int| 0 <= i < s.len() implies #[trigger] s[i].1 <= max_intensity(s) by {
            if i < s.len() - 1 {
                assert(s.drop_last()[i] == s[i]);
            }
        }
    }
}

/// Every intensity is at most the intensity sum: each bar of a stacked
/// roll therefore fits inside the summed content height.
pub proof fn lemma_intensity_le_sum(s: Seq<Block>, i: int)
    requires
        0 <= i < s.len(),
        forall|j: int| 0 <= j < s.len() ==> #[trigger] s[j].1 >= 0,
    ensures
        s[i].1 <= sum_intensities(s),
    decreases s.len(),
{
    if i == s.len() - 1 {
        lemma_sum_intensities_nonneg(s.drop_last());
    } else {
        lemma_intensity_le_sum(s.drop_last(), i);
        assert(s.drop_last()[i] == s[i]);
    }
}

pub proof fn lemma_sum_intensities_nonneg(s: Seq<Block>)
    requires
        forall|j: int| 0 <= j < s.len() ==> #[trigger] s[j].1 >= 0,
    ensures
        sum_intensities(s) >= 0,
    decreases s.len(),
{
    if s.len() > 0 {
        lemma_sum_intensities_nonneg(s.drop_last());
    }
}

pub proof fn lemma_count_non_gap_nonneg(s: Seq<Block>)
    ensures
        0 <= count_non_gap(s) <= s.len(),
    decreases s.len(),
{
    if s.len() > 0 {
        lemma_count_non_gap_nonneg(s.drop_last());
    }
}

/// A drawable primitive: a styled, positioned rectangle or line segment.
#[derive(Debug, Copy, Clone, PartialEq, Eq)]
pub enum Renderable {
    Rect(Point, Dimension, Style),
    Line(Point, Point, Style),
}

/// A backend that consumes renderables one by one into an owned byte buffer.
///
/// `dims` is the canvas size the backend was created with and never changes;
/// `step` is the backend's whole effect of drawing one shape on its buffer,
/// as a function of that size, so a fold of `step` describes any sequence of
/// draw calls.
pub trait ShapeRenderer: Sized {
    /// The canvas size this renderer was constructed for.
    spec fn dims(&self) -> Dimension;

    /// The bytes accumulated so far.
    spec fn buf_model(&self) -> Seq<u8>;

    spec fn wf(&self) -> bool;

    /// Which shapes this backend accepts on a canvas of size `d`.
    spec fn can_draw_at(d: Dimension, shape: Renderable) -> bool;

    /// The buffer after drawing `shape` on a canvas of size `d`.
    spec fn step(d: Dimension, buf: Seq<u8>, shape: Renderable) -> Seq<u8>;

    fn draw(&mut self, shape: Renderable)
        requires
            old(self).wf(),
            Self::can_draw_at(old(self).dims(), shape),
        ensures
            final(self).wf(),
            final(self).dims() == old(self).dims(),
            final(self).buf_model() == Self::step(
                old(self).dims(),
                old(self).buf_model(),
                shape,
            ),
    ;

    fn get_buffer(&self) -> (r: &[u8])
        ensures
            r@ == self.buf_model(),
    ;
}

/// The buffer obtained by drawing `shapes` in order on a canvas of size `d`,
/// starting from `buf`.
pub open spec fn steps<T: ShapeRenderer>(d: Dimension, buf: Seq<u8>, shapes: Seq<Renderable>) -> Seq<
    u8,
>
    decreases shapes.len(),
{
    if shapes.len() == 0 {
        buf
    } else {
        T::step(d, steps::<T>(d, buf, shapes.drop_last()), shapes.last())
    }
}

/// A backend whose byte stream is framed by an optional header and footer.
pub trait ImageRenderer: ShapeRenderer {
    /// The header bytes emitted for a canvas of size `d`, if any.
    spec fn header_model(d: Dimension) -> Option<Seq<u8>>;

    /// The footer bytes emitted for a canvas of size `d`, if any.
    spec fn footer_model(d: Dimension) -> Option<Seq<u8>>;

    fn get_header(&self) -> (r: Option<Vec<u8>>)
        requires
            self.wf(),
        ensures
            (match (r, Self::header_model(self.dims())) {
                (Some(v), Some(m)) => v@ == m,
                (None, None) => true,
                _ => false,
            }),
    ;

    fn get_footer(&self) -> (r: Option<Vec<u8>>)
        requires
            self.wf(),
        ensures
            (match (r, Self::footer_model(self.dims())) {
                (Some(v), Some(m)) => v@ == m,
                (None, None) => true,
                _ => false,
            }),
    ;
}

} // verus!
