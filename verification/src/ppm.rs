//! Raster backend: scan-converts renderables into a row-major RGB byte
//! buffer, three bytes per pixel, and frames it with a portable-pixmap
//! header.
use crate::numfmt::{dec_bytes, push_i64, push_str_bytes};
use crate::{Color, Dimension, ImageRenderer, Point, Renderable, ShapeRenderer};
use vstd::arithmetic::div_mod::{
    lemma_fundamental_div_mod, lemma_fundamental_div_mod_converse, lemma_div_pos_is_pos,
    lemma_mod_bound,
};
use vstd::arithmetic::mul::lemma_mul_inequality;
use vstd::math::abs;
use vstd::prelude::*;
use vstd::string::StringSliceAdditionalSpecFns;

verus! {

/// The byte of `c` for channel `k`: red, green, blue in that order.
pub open spec fn channel_of(c: Color, k: int) -> u8 {
    if k == 0 {
        c.0
    } else if k == 1 {
        c.1
    } else {
        c.2
    }
}

/// The buffer with every pixel selected by `sel` painted `c` and every
/// other byte unchanged, on a canvas `w` pixels wide. Byte `i` belongs to
/// channel `i % 3` of the pixel at column `(i / 3) % w`, row `(i / 3) / w`.
pub open spec fn paint(buf: Seq<u8>, w: int, sel: spec_fn(int, int) -> bool, c: Color) -> Seq<u8> {
    Seq::new(
        buf.len(),
        |i: int|
            if sel((i / 3) % w, (i / 3) / w) {
                channel_of(c, i % 3)
            } else {
                buf[i]
            },
    )
}

/// The pixels of an axis-aligned rectangle.
pub open spec fn rect_sel(pos: Point, size: Dimension) -> spec_fn(int, int) -> bool {
    |x: int, y: int| pos.x <= x < pos.x + size.w && pos.y <= y < pos.y + size.h
}

/// The pixels of a rectangle within `t` units of one of its four edges.
pub open spec fn frame_sel(pos: Point, size: Dimension, t: int) -> spec_fn(int, int) -> bool {
    |x: int, y: int|
        (pos.x <= x < pos.x + size.w && pos.y <= y < pos.y + size.h) && (x < pos.x + t || x
            >= pos.x + size.w - t || y < pos.y + t || y >= pos.y + size.h - t)
}

/// A single pixel.
pub open spec fn pixel_sel(x: int, y: int) -> spec_fn(int, int) -> bool {
    |xx: int, yy: int| xx == x && yy == y
}

/// The pixels of a rectangle already covered by a row-major sweep that has
/// finished every row before `y` and, on row `y`, every column before `x`.
pub open spec fn rect_prefix_sel(pos: Point, size: Dimension, y: int, x: int) -> spec_fn(
    int,
    int,
) -> bool {
    |xx: int, yy: int|
        (pos.x <= xx < pos.x + size.w && pos.y <= yy < pos.y + size.h) && (yy < y || (yy == y && xx
            < x))
}

/// The buffer after one left-to-right scan of the incremental
/// slope-accumulation line walk: one pixel per column from `x` up to `end`,
/// stepping the row down by one whenever the error term `delta` overflows.
pub open spec fn scan(
    buf: Seq<u8>,
    w: int,
    c: Color,
    x: int,
    end: int,
    y: int,
    delta: int,
    dx: int,
    dy: int,
) -> Seq<u8>
    decreases end - x,
{
    if x >= end {
        buf
    } else {
        let b2 = paint(buf, w, pixel_sel(x, y), c);
        if delta > 0 {
            scan(b2, w, c, x + 1, end, y + 1, delta - 2 * dx + 2 * dy, dx, dy)
        } else {
            scan(b2, w, c, x + 1, end, y, delta + 2 * dy, dx, dy)
        }
    }
}

/// One full line walk from column `xs` to `end` between rows `y1` and `y2`,
/// with the error term freshly derived from this walk's own horizontal span.
pub open spec fn scan_from(buf: Seq<u8>, w: int, c: Color, xs: int, end: int, y1: int, y2: int) -> Seq<
    u8,
> {
    scan(buf, w, c, xs, end, y1, 2 * (y2 - y1) - (end - xs), end - xs, y2 - y1)
}

/// The thickness approximation: the same walk repeated at horizontal
/// offsets `-i` and `+i` for `i` from `lo` up to `t`.
pub open spec fn thick_scans(
    buf: Seq<u8>,
    w: int,
    c: Color,
    x1: int,
    end: int,
    y1: int,
    y2: int,
    lo: int,
    t: int,
) -> Seq<u8>
    decreases t - lo + 1,
{
    if lo > t {
        buf
    } else {
        thick_scans(
            scan_from(scan_from(buf, w, c, x1 - lo, end, y1, y2), w, c, x1 + lo, end, y1, y2),
            w,
            c,
            x1,
            end,
            y1,
            y2,
            lo + 1,
            t,
        )
    }
}

/// The whole effect of one line draw: the plain walk, then the offset walks
/// that simulate thickness. Offsets are horizontal only, so steep thick
/// lines degrade; that approximation is kept as documented behaviour.
pub open spec fn line_model(
    buf: Seq<u8>,
    w: int,
    p1: Point,
    p2: Point,
    c: Color,
    t: int,
) -> Seq<u8> {
    thick_scans(
        scan_from(buf, w, c, p1.x as int, p2.x as int, p1.y as int, p2.y as int),
        w,
        c,
        p1.x as int,
        p2.x as int,
        p1.y as int,
        p2.y as int,
        0,
        t,
    )
}

/// When a line draw stays inside a canvas of size `d`: every walk starts at
/// a valid column, and even a walk that steps down at every column stays
/// above the bottom edge.
pub open spec fn line_ok(d: Dimension, p1: Point, p2: Point, t: int) -> bool {
    &&& 0 <= t
    &&& t <= p1.x
    &&& p1.x <= d.w
    &&& p2.x <= d.w
    &&& 0 <= p1.y
    &&& 0 <= p2.y <= d.h
    &&& (p1.x - t < p2.x ==> p1.y + (p2.x - (p1.x - t)) <= d.h)
}

/// The canvas-relative conditions under which each renderable rasterizes
/// without touching any byte outside the buffer.
pub open spec fn raster_can_draw(d: Dimension, shape: Renderable) -> bool {
    match shape {
        Renderable::Rect(pos, size, style) => {
            &&& 0 <= pos.x
            &&& 0 <= pos.y
            &&& 0 <= size.w
            &&& 0 <= size.h
            &&& pos.x + size.w <= d.w
            &&& pos.y + size.h <= d.h
            &&& (match style.border {
                Some(t) => 0 <= t <= size.w && t <= size.h,
                None => true,
            })
        },
        Renderable::Line(p1, p2, style) => {
            let t = match style.border {
                Some(t) => t as int,
                None => 1,
            };
            line_ok(d, p1, p2, t)
        },
    }
}

/// The buffer after drawing one renderable: a fill first where the style
/// has one, then the frame painted over it where a border is set.
pub open spec fn raster_step(d: Dimension, buf: Seq<u8>, shape: Renderable) -> Seq<u8> {
    match shape {
        Renderable::Rect(pos, size, style) => {
            let b1 = if style.spec_has_fill() {
                paint(buf, d.w as int, rect_sel(pos, size), style.spec_fill_color())
            } else {
                buf
            };
            match style.spec_frame() {
                Some((c, t)) => paint(b1, d.w as int, frame_sel(pos, size, t as int), c),
                None => b1,
            }
        },
        Renderable::Line(p1, p2, style) => {
            match style.spec_frame() {
                Some((c, t)) => line_model(buf, d.w as int, p1, p2, c, t as int),
                None => if style.spec_has_fill() {
                    line_model(buf, d.w as int, p1, p2, style.spec_fill_color(), 1)
                } else {
                    buf
                },
            }
        },
    }
}

/// For a byte index `i` of the buffer: its channel, column and row are in
/// range, and decoding is consistent with the row-major encoding.
proof fn lemma_decode(i: int, w: int, h: int)
    requires
        0 < w,
        0 < h,
        0 <= i < w * h * 3,
    ensures
        0 <= i % 3 < 3,
        0 <= i / 3 < w * h,
        i == 3 * (i / 3) + (i % 3),
        0 <= (i / 3) % w < w,
        0 <= (i / 3) / w < h,
        i / 3 == ((i / 3) / w) * w + ((i / 3) % w),
{
    lemma_mod_bound(i, 3);
    lemma_fundamental_div_mod(i, 3);
    lemma_div_pos_is_pos(i, 3);
    assert(i / 3 < w * h) by {
        if i / 3 >= w * h {
            assert(3 * (i / 3) >= 3 * (w * h)) by (nonlinear_arith)
                requires
                    i / 3 >= w * h,
            ;
            assert(3 * (w * h) == w * h * 3) by (nonlinear_arith);
        }
    }
    let p = i / 3;
    lemma_mod_bound(p, w);
    lemma_fundamental_div_mod(p, w);
    lemma_div_pos_is_pos(p, w);
    assert(p == w * (p / w) + (p % w));
    assert(p / w < h) by {
        if p / w >= h {
            lemma_mul_inequality(h, p / w, w);
            assert(h * w == w * h) by (nonlinear_arith);
            assert((p / w) * w == w * (p / w)) by (nonlinear_arith);
            assert(p >= w * h);
            assert(p < w * h) by {
                assert(w * h * 3 == 3 * (w * h)) by (nonlinear_arith);
            }
        }
    }
    assert(p < w * h) by {
        assert(w * h * 3 == 3 * (w * h)) by (nonlinear_arith);
    }
    assert(((i / 3) / w) * w == w * ((i / 3) / w)) by (nonlinear_arith);
}

/// The byte offset of channel `k` of the pixel at column `x`, row `y`
/// decodes back to exactly that channel, column and row.
proof fn lemma_encode(x: int, y: int, k: int, w: int, h: int)
    requires
        0 < w,
        0 <= x < w,
        0 <= y < h,
        0 <= k < 3,
    ensures
        0 <= y * w + x < w * h,
        0 <= 3 * (y * w + x) + k < w * h * 3,
        (3 * (y * w + x) + k) / 3 == y * w + x,
        (3 * (y * w + x) + k) % 3 == k,
        (y * w + x) % w == x,
        (y * w + x) / w == y,
{
    assert(0 <= y * w + x && y * w + x < w * h) by (nonlinear_arith)
        requires
            0 <= x < w,
            0 <= y < h,
    ;
    lemma_fundamental_div_mod_converse(3 * (y * w + x) + k, 3, y * w + x, k);
    lemma_fundamental_div_mod_converse(y * w + x, w, y, x);
    assert(3 * (y * w + x) + k < w * h * 3) by (nonlinear_arith)
        requires
            y * w + x < w * h,
            0 <= k < 3,
            y * w + x >= 0,
    ;
}

/// Two selectors that agree on every valid pixel paint the same buffer.
proof fn lemma_paint_agree(
    buf: Seq<u8>,
    w: int,
    h: int,
    sel0: spec_fn(int, int) -> bool,
    sel1: spec_fn(int, int) -> bool,
    c: Color,
)
    requires
        buf.len() == w * h * 3,
        0 <= w,
        0 <= h,
        forall|xx: int, yy: int|
            0 <= xx < w && 0 <= yy < h ==> (#[trigger] sel0(xx, yy) <==> #[trigger] sel1(xx, yy)),
    ensures
        paint(buf, w, sel0, c) == paint(buf, w, sel1, c),
{
    if buf.len() > 0 {
        assert(0 < w && 0 < h) by (nonlinear_arith)
            requires
                w * h * 3 > 0,
                0 <= w,
                0 <= h,
        ;
        assert forall|i: int| 0 <= i < buf.len() implies paint(buf, w, sel0, c)[i] == paint(
            buf,
            w,
            sel1,
            c,
        )[i] by {
            lemma_decode(i, w, h);
        }
    }
    assert(paint(buf, w, sel0, c) =~= paint(buf, w, sel1, c));
}

/// Painting one more pixel equals updating its three channel bytes.
proof fn lemma_paint_extend_pixel(
    b0: Seq<u8>,
    w: int,
    h: int,
    sel0: spec_fn(int, int) -> bool,
    sel1: spec_fn(int, int) -> bool,
    c: Color,
    x: int,
    y: int,
)
    requires
        b0.len() == w * h * 3,
        0 < w,
        0 <= x < w,
        0 <= y < h,
        sel1(x, y),
        forall|xx: int, yy: int|
            !(xx == x && yy == y) ==> (#[trigger] sel1(xx, yy) <==> #[trigger] sel0(xx, yy)),
    ensures
        paint(b0, w, sel1, c) == paint(b0, w, sel0, c).update(3 * (y * w + x), c.0).update(
            3 * (y * w + x) + 1,
            c.1,
        ).update(3 * (y * w + x) + 2, c.2),
{
    let off = 3 * (y * w + x);
    let lhs = paint(b0, w, sel1, c);
    let rhs = paint(b0, w, sel0, c).update(off, c.0).update(off + 1, c.1).update(off + 2, c.2);
    assert(0 < h) by (nonlinear_arith)
        requires
            0 <= y < h,
    ;
    lemma_encode(x, y, 0, w, h);
    assert forall|i: int| 0 <= i < b0.len() implies lhs[i] == rhs[i] by {
        lemma_decode(i, w, h);
        let p = i / 3;
        let k = i % 3;
        if p == y * w + x {
            assert(i == off + k);
            assert((i / 3) % w == x && (i / 3) / w == y) by {
                lemma_encode(x, y, k, w, h);
            }
            assert(lhs[i] == channel_of(c, k));
            assert(rhs[i] == channel_of(c, k));
        } else {
            assert(i != off && i != off + 1 && i != off + 2) by {
                if i == off || i == off + 1 || i == off + 2 {
                    lemma_encode(x, y, i - off, w, h);
                }
            }
            assert(!((i / 3) % w == x && (i / 3) / w == y)) by {
                if (i / 3) % w == x && (i / 3) / w == y {
                    assert(p == ((i / 3) / w) * w + ((i / 3) % w));
                }
            }
            assert(sel1((i / 3) % w, (i / 3) / w) <==> sel0((i / 3) % w, (i / 3) / w));
        }
    }
    assert(lhs =~= rhs);
}

/// Painting with one selector and then another, in the same color, paints
/// their union.
proof fn lemma_paint_compose(
    buf: Seq<u8>,
    w: int,
    sel0: spec_fn(int, int) -> bool,
    sel1: spec_fn(int, int) -> bool,
    selu: spec_fn(int, int) -> bool,
    c: Color,
)
    requires
        forall|xx: int, yy: int| #![trigger selu(xx, yy)]
            (selu(xx, yy) <==> (sel0(xx, yy) || sel1(xx, yy))),
    ensures
        paint(paint(buf, w, sel0, c), w, sel1, c) == paint(buf, w, selu, c),
{
    let lhs = paint(paint(buf, w, sel0, c), w, sel1, c);
    let rhs = paint(buf, w, selu, c);
    assert forall|i: int| 0 <= i < buf.len() implies lhs[i] == rhs[i] by {
        assert(selu((i / 3) % w, (i / 3) / w) <==> (sel0((i / 3) % w, (i / 3) / w) || sel1(
            (i / 3) % w,
            (i / 3) / w,
        )));
    }
    assert(lhs =~= rhs);
}

/// The raster backend: an owned, zero-initialized RGB byte buffer that
/// renderables are scan-converted into.
pub struct Renderer {
    pub size: Dimension,
    pub buffer: Vec<u8>,
}

impl Renderer {
    pub open spec fn inv(&self) -> bool {
        &&& 0 <= self.size.w <= 20_000
        &&& 0 <= self.size.h <= 20_000
        &&& self.buffer@.len() == self.size.w * self.size.h * 3
    }

    /// A renderer for a canvas of the given size, with every byte zero.
    pub fn new(size: &Dimension) -> (r: Renderer)
        requires
            0 <= size.w <= 20_000,
            0 <= size.h <= 20_000,
        ensures
            r.wf(),
            r.size == *size,
            r.buffer@ == Seq::new((size.w * size.h * 3) as nat, |i: int| 0u8),
    {
        proof {
            assert(0 <= size.w * size.h * 3 <= 20_000 * 20_000 * 3) by (nonlinear_arith)
                requires
                    0 <= size.w <= 20_000,
                    0 <= size.h <= 20_000,
            ;
        }
        let max_size = (size.w as usize) * (size.h as usize) * 3;
        let buffer = vec![0u8; max_size];
        assert(buffer@ =~= Seq::new((size.w * size.h * 3) as nat, |i: int| 0u8));
        Renderer { size: *size, buffer }
    }

    /// Paints every pixel of the rectangle with the given color.
    fn rect(&mut self, pos: Point, size: Dimension, color: Color)
        requires
            old(self).wf(),
            0 <= pos.x,
            0 <= pos.y,
            0 <= size.w,
            0 <= size.h,
            pos.x + size.w <= old(self).size.w,
            pos.y + size.h <= old(self).size.h,
        ensures
            final(self).wf(),
            final(self).size == old(self).size,
            final(self).buffer@ == paint(
                old(self).buffer@,
                old(self).size.w as int,
                rect_sel(pos, size),
                color,
            ),
    {
        let ghost b0 = self.buffer@;
        let ghost cw = self.size.w as int;
        let ghost ch = self.size.h as int;
        let xs = pos.x as usize;
        let xe = (pos.x + size.w) as usize;
        let ye = (pos.y + size.h) as usize;
        let mut y = pos.y as usize;
        proof {
            lemma_paint_agree(
                b0,
                cw,
                ch,
                rect_prefix_sel(pos, size, y as int, xs as int),
                (|xx: int, yy: int| false),
                color,
            );
            assert(b0 =~= paint(b0, cw, (|xx: int, yy: int| false), color));
        }
        while y < ye
            invariant
                self.wf(),
                self.size == old(self).size,
                self.buffer@.len() == b0.len(),
                b0.len() == cw * ch * 3,
                cw == self.size.w as int,
                ch == self.size.h as int,
                0 <= pos.x,
                0 <= pos.y,
                pos.x + size.w <= cw,
                pos.y + size.h <= ch,
                0 <= size.w,
                0 <= size.h,
                xs == pos.x as usize,
                xe == pos.x + size.w,
                ye == pos.y + size.h,
                pos.y <= (y as int) && (y as int) <= ye,
                self.buffer@ == paint(b0, cw, rect_prefix_sel(pos, size, y as int, xs as int), color),
            decreases ye - y,
        {
            let mut x = xs;
            while x < xe
                invariant
                    self.wf(),
                    self.size == old(self).size,
                    self.buffer@.len() == b0.len(),
                    b0.len() == cw * ch * 3,
                    cw == self.size.w as int,
                    ch == self.size.h as int,
                    0 <= pos.x,
                    0 <= pos.y,
                    pos.x + size.w <= cw,
                    pos.y + size.h <= ch,
                    0 <= size.w,
                    0 <= size.h,
                    xs == pos.x as usize,
                    xe == pos.x + size.w,
                    ye == pos.y + size.h,
                    pos.y <= (y as int) && (y as int) < ye,
                    pos.x <= (x as int) && (x as int) <= xe,
                    self.buffer@ == paint(b0, cw, rect_prefix_sel(pos, size, y as int, x as int), color),
                decreases xe - x,
            {
                proof {
                    lemma_encode(x as int, y as int, 0, cw, ch);
                    assert(cw * ch <= 20_000 * 20_000) by (nonlinear_arith)
                        requires
                            0 <= cw <= 20_000,
                            0 <= ch <= 20_000,
                    ;
                    assert(((y as int) * cw + (x as int)) * 3 + 2 < cw * ch * 3)
                        by (nonlinear_arith)
                        requires
                            0 <= (y as int) * cw + (x as int) < cw * ch,
                    ;
                }
                let w_us = self.size.w as usize;
                let off = (y * w_us + x) * 3;
                self.buffer.set(off, color.0);
                self.buffer.set(off + 1, color.1);
                self.buffer.set(off + 2, color.2);
                proof {
                    lemma_paint_extend_pixel(
                        b0,
                        cw,
                        ch,
                        rect_prefix_sel(pos, size, y as int, x as int),
                        rect_prefix_sel(pos, size, y as int, x as int + 1),
                        color,
                        x as int,
                        y as int,
                    );
                }
                x = x + 1;
            }
            proof {
                lemma_paint_agree(
                    b0,
                    cw,
                    ch,
                    rect_prefix_sel(pos, size, y as int, xe as int),
                    rect_prefix_sel(pos, size, y as int + 1, xs as int),
                    color,
                );
            }
            y = y + 1;
        }
        proof {
            lemma_paint_agree(
                b0,
                cw,
                ch,
                rect_prefix_sel(pos, size, ye as int, xs as int),
                rect_sel(pos, size),
                color,
            );
        }
    }

    /// Paints the four edge bands of the rectangle: the border takes visual
    /// precedence over any fill painted before it.
    fn frame(&mut self, pos: Point, size: Dimension, color: Color, thickness: i64)
        requires
            old(self).wf(),
            0 <= pos.x,
            0 <= pos.y,
            0 <= thickness <= size.w,
            thickness <= size.h,
            pos.x + size.w <= old(self).size.w,
            pos.y + size.h <= old(self).size.h,
        ensures
            final(self).wf(),
            final(self).size == old(self).size,
            final(self).buffer@ == paint(
                old(self).buffer@,
                old(self).size.w as int,
                frame_sel(pos, size, thickness as int),
                color,
            ),
    {
        let ghost b0 = self.buffer@;
        let ghost cw = self.size.w as int;
        let ghost ch = self.size.h as int;
        let ghost top = rect_sel(pos, Dimension { w: size.w, h: thickness });
        let ghost bottom = rect_sel(
            Point { x: pos.x, y: (pos.y + size.h - thickness) as i64 },
            Dimension { w: size.w, h: thickness },
        );
        let ghost left = rect_sel(pos, Dimension { w: thickness, h: size.h });
        let ghost right = rect_sel(
            Point { x: (pos.x + size.w - thickness) as i64, y: pos.y },
            Dimension { w: thickness, h: size.h },
        );
        self.rect(pos, Dimension { w: size.w, h: thickness }, color);
        self.rect(
            Point { x: pos.x, y: pos.y + size.h - thickness },
            Dimension { w: size.w, h: thickness },
            color,
        );
        self.rect(Point { x: pos.x, y: pos.y }, Dimension { w: thickness, h: size.h }, color);
        self.rect(
            Point { x: pos.x + size.w - thickness, y: pos.y },
            Dimension { w: thickness, h: size.h },
            color,
        );
        proof {
            let u1 = (|xx: int, yy: int| top(xx, yy) || bottom(xx, yy));
            let u2 = (|xx: int, yy: int| u1(xx, yy) || left(xx, yy));
            let u3 = (|xx: int, yy: int| u2(xx, yy) || right(xx, yy));
            lemma_paint_compose(b0, cw, top, bottom, u1, color);
            lemma_paint_compose(b0, cw, u1, left, u2, color);
            lemma_paint_compose(b0, cw, u2, right, u3, color);
            lemma_paint_agree(b0, cw, ch, u3, frame_sel(pos, size, thickness as int), color);
        }
    }

    /// One left-to-right walk of the line rasterizer, painting one pixel
    /// per column while accumulating the slope error term.
    fn line_scan(&mut self, x1: i64, x2: i64, y1: i64, y2: i64, color: Color)
        requires
            old(self).wf(),
            0 <= x1,
            x2 <= old(self).size.w,
            0 <= y1,
            abs(y2 as int) <= old(self).size.h,
            x1 < x2 ==> y1 + (x2 - x1) <= old(self).size.h,
        ensures
            final(self).wf(),
            final(self).size == old(self).size,
            final(self).buffer@ == scan_from(
                old(self).buffer@,
                old(self).size.w as int,
                color,
                x1 as int,
                x2 as int,
                y1 as int,
                y2 as int,
            ),
    {
        let ghost b0 = self.buffer@;
        let ghost cw = self.size.w as int;
        let ghost ch = self.size.h as int;
        if x1 >= x2 {
            return ;
        }
        let dx = x2 - x1;
        let dy = y2 - y1;
        let mut delta = 2 * dy - dx;
        let mut y = y1;
        let mut x = x1;
        let ghost k = 2 * abs(dy as int) + 2 * (dx as int);
        while x < x2
            invariant
                self.wf(),
                self.size == old(self).size,
                self.buffer@.len() == b0.len(),
                b0.len() == cw * ch * 3,
                cw == self.size.w as int,
                ch == self.size.h as int,
                dx == x2 - x1,
                dy == y2 - y1,
                0 <= x1 <= x <= x2 <= cw,
                x1 < x2,
                y1 <= y,
                y as int <= y1 + (x - x1),
                y1 + (x2 - x1) <= ch,
                abs(y2 as int) <= ch,
                0 <= y1,
                k == 2 * abs(dy as int) + 2 * (dx as int),
                abs(delta as int) <= abs(2 * (dy as int) - (dx as int)) + (x - x1) * k,
                scan(self.buffer@, cw, color, x as int, x2 as int, y as int, delta as int, dx as int, dy as int)
                    == scan(b0, cw, color, x1 as int, x2 as int, y1 as int, 2 * (dy as int) - (dx as int), dx as int, dy as int),
            decreases x2 - x,
        {
            proof {
                assert(0 <= (x - x1) * k <= (cw) * k) by (nonlinear_arith)
                    requires
                        0 <= x - x1 <= cw,
                        k >= 0,
                ;
                assert(cw * k <= 20_000 * (2 * 20_000 + 2 * 20_000 + 2 * 20_000)) by (nonlinear_arith)
                    requires
                        0 <= cw <= 20_000,
                        0 <= k <= 2 * 20_000 + 2 * 20_000 + 2 * 20_000,
                ;
                assert(k <= 2 * 20_000 + 2 * 20_000 + 2 * 20_000) by {
                    assert(abs(dy as int) <= 2 * 20_000);
                }
                lemma_encode(x as int, y as int, 0, cw, ch);
                assert(cw * ch <= 20_000 * 20_000) by (nonlinear_arith)
                    requires
                        0 <= cw <= 20_000,
                        0 <= ch <= 20_000,
                ;
                assert(((y as int) * cw + (x as int)) * 3 + 2 < cw * ch * 3)
                    by (nonlinear_arith)
                    requires
                        0 <= (y as int) * cw + (x as int) < cw * ch,
                ;
            }
            let w_us = self.size.w as usize;
            let off = ((y as usize) * w_us + (x as usize)) * 3;
            let ghost bpre = self.buffer@;
            self.buffer.set(off, color.0);
            self.buffer.set(off + 1, color.1);
            self.buffer.set(off + 2, color.2);
            proof {
                lemma_paint_extend_pixel(
                    bpre,
                    cw,
                    ch,
                    (|xx: int, yy: int| false),
                    pixel_sel(x as int, y as int),
                    color,
                    x as int,
                    y as int,
                );
                assert(paint(bpre, cw, (|xx: int, yy: int| false), color) =~= bpre);
                assert(self.buffer@ == paint(bpre, cw, pixel_sel(x as int, y as int), color));
                assert((x + 1 - x1) * k == (x - x1) * k + k) by (nonlinear_arith);
            }
            if delta > 0 {
                y = y + 1;
                delta = delta - 2 * dx;
            }
            delta = delta + 2 * dy;
            x = x + 1;
        }
    }

    /// Rasterizes the segment, then repeats it at growing horizontal
    /// offsets to simulate thickness.
    fn line(&mut self, p1: Point, p2: Point, color: Color, thickness: i64)
        requires
            old(self).wf(),
            line_ok(old(self).size, p1, p2, thickness as int),
        ensures
            final(self).wf(),
            final(self).size == old(self).size,
            final(self).buffer@ == line_model(
                old(self).buffer@,
                old(self).size.w as int,
                p1,
                p2,
                color,
                thickness as int,
            ),
    {
        let ghost b0 = self.buffer@;
        let ghost cw = self.size.w as int;
        self.line_scan(p1.x, p2.x, p1.y, p2.y, color);
        let ghost base = self.buffer@;
        let mut i: i64 = 0;
        while i <= thickness
            invariant
                self.wf(),
                self.size == old(self).size,
                cw == self.size.w as int,
                line_ok(self.size, p1, p2, thickness as int),
                0 <= i <= thickness + 1,
                base == scan_from(b0, cw, color, p1.x as int, p2.x as int, p1.y as int, p2.y as int),
                thick_scans(self.buffer@, cw, color, p1.x as int, p2.x as int, p1.y as int, p2.y as int, i as int, thickness as int)
                    == thick_scans(base, cw, color, p1.x as int, p2.x as int, p1.y as int, p2.y as int, 0, thickness as int),
            decreases thickness + 1 - i,
        {
            self.line_scan(p1.x - i, p2.x, p1.y, p2.y, color);
            self.line_scan(p1.x + i, p2.x, p1.y, p2.y, color);
            i = i + 1;
        }
    }
}

impl ShapeRenderer for Renderer {
    open spec fn dims(&self) -> Dimension {
        self.size
    }

    open spec fn buf_model(&self) -> Seq<u8> {
        self.buffer@
    }

    open spec fn wf(&self) -> bool {
        self.inv()
    }

    open spec fn can_draw_at(d: Dimension, shape: Renderable) -> bool {
        raster_can_draw(d, shape)
    }

    open spec fn step(d: Dimension, buf: Seq<u8>, shape: Renderable) -> Seq<u8> {
        raster_step(d, buf, shape)
    }

    fn draw(&mut self, shape: Renderable) {
        match shape {
            Renderable::Rect(pos, size, style) => {
                if style.has_fill() {
                    let c = style.get_color();
                    self.rect(pos, size, c);
                }
                if let Some((c, t)) = style.get_frame() {
                    self.frame(pos, size, c, t);
                }
            },
            Renderable::Line(p1, p2, style) => {
                if let Some((c, t)) = style.get_frame() {
                    self.line(p1, p2, c, t);
                } else if style.has_fill() {
                    let c = style.get_color();
                    self.line(p1, p2, c, 1);
                }
            },
        }
    }

    fn get_buffer(&self) -> (r: &[u8]) {
        self.buffer.as_slice()
    }
}

/// The buffer of a well-formed raster renderer always holds exactly
/// `size.w * size.h * 3` bytes: `new` establishes it, and every draw
/// preserves well-formedness, so it holds after any sequence of draws.
pub proof fn lemma_buffer_len(r: &Renderer)
    requires
        r.wf(),
    ensures
        r.buf_model().len() == r.size.w * r.size.h * 3,
{
}

impl ImageRenderer for Renderer {
    open spec fn header_model(d: Dimension) -> Option<Seq<u8>> {
        Some(
            ("P6 ").spec_bytes() + dec_bytes(d.w as int) + (" ").spec_bytes() + dec_bytes(
                d.h as int,
            ) + (" 255\n").spec_bytes(),
        )
    }

    open spec fn footer_model(d: Dimension) -> Option<Seq<u8>> {
        None
    }

    fn get_header(&self) -> (r: Option<Vec<u8>>) {
        let mut out: Vec<u8> = Vec::new();
        push_str_bytes(&mut out, "P6 ");
        push_i64(&mut out, self.size.w);
        push_str_bytes(&mut out, " ");
        push_i64(&mut out, self.size.h);
        push_str_bytes(&mut out, " 255\n");
        Some(out)
    }

    fn get_footer(&self) -> (r: Option<Vec<u8>>) {
        None
    }
}

} // verus!
