//! Vector backend: serializes renderables as textual markup elements into
//! an append-only byte buffer, wrapped by a document header and footer.
use crate::numfmt::{dec_bytes, push_i64, push_str_bytes};
use crate::style::hex_color;
use crate::{steps, Color, Dimension, ImageRenderer, Point, Renderable, ShapeRenderer};
use vstd::prelude::*;
use vstd::string::StringSliceAdditionalSpecFns;

verus! {

/// The markup element for a filled rectangle.
pub open spec fn rect_el(pos: Point, size: Dimension, c: Color) -> Seq<u8> {
    ("<rect x='").spec_bytes() + dec_bytes(pos.x as int) + ("' y='").spec_bytes() + dec_bytes(
        pos.y as int,
    ) + ("' width='").spec_bytes() + dec_bytes(size.w as int) + ("' height='").spec_bytes()
        + dec_bytes(size.h as int) + ("' fill='").spec_bytes() + hex_color(c) + ("' />\n").spec_bytes()
}

/// The markup element for a border-only rectangle.
pub open spec fn frame_el(pos: Point, size: Dimension, c: Color, t: int) -> Seq<u8> {
    ("<rect x='").spec_bytes() + dec_bytes(pos.x as int) + ("' y='").spec_bytes() + dec_bytes(
        pos.y as int,
    ) + ("' width='").spec_bytes() + dec_bytes(size.w as int) + ("' height='").spec_bytes()
        + dec_bytes(size.h as int) + ("' color='").spec_bytes() + hex_color(c) + ("' stroke='").spec_bytes()
        + dec_bytes(t) + ("' fill='transparent'/>\n").spec_bytes()
}

/// The markup element for a line segment.
pub open spec fn line_el(p1: Point, p2: Point, c: Color, t: int) -> Seq<u8> {
    ("<line x1='").spec_bytes() + dec_bytes(p1.x as int) + ("' y1='").spec_bytes() + dec_bytes(
        p1.y as int,
    ) + ("' x2='").spec_bytes() + dec_bytes(p2.x as int) + ("' y2='").spec_bytes() + dec_bytes(
        p2.y as int,
    ) + ("' stroke='").spec_bytes() + hex_color(c) + ("' stroke-width='").spec_bytes() + dec_bytes(
        t,
    ) + ("' />\n").spec_bytes()
}

/// The elements one renderable serializes to: its fill element where the
/// style has a fill, then its border element where a border is set.
pub open spec fn shape_els(shape: Renderable) -> Seq<u8> {
    match shape {
        Renderable::Rect(pos, size, style) => {
            (if style.spec_has_fill() {
                rect_el(pos, size, style.spec_fill_color())
            } else {
                Seq::empty()
            }) + (match style.spec_frame() {
                Some((c, t)) => frame_el(pos, size, c, t as int),
                None => Seq::empty(),
            })
        },
        Renderable::Line(p1, p2, style) => {
            match style.spec_frame() {
                Some((c, t)) => line_el(p1, p2, c, t as int),
                None => if style.spec_has_fill() {
                    line_el(p1, p2, style.spec_fill_color(), 1)
                } else {
                    Seq::empty()
                },
            }
        },
    }
}

/// The document header for a canvas of the given size.
pub open spec fn header_bytes(d: Dimension) -> Seq<u8> {
    ("<svg version='1.1' width='").spec_bytes() + dec_bytes(d.w as int) + ("' height='").spec_bytes()
        + dec_bytes(d.h as int) + ("' xmlns='http://www.w3.org/2000/svg'>\n").spec_bytes()
}

/// The document footer.
pub open spec fn footer_bytes() -> Seq<u8> {
    ("</svg>").spec_bytes()
}

/// The vector backend: an append-only byte buffer of markup elements.
pub struct Renderer {
    pub size: Dimension,
    pub buffer: Vec<u8>,
}

impl Renderer {
    /// A renderer for a canvas of the given size, with an empty body.
    pub fn new(size: &Dimension) -> (r: Renderer)
        ensures
            r.wf(),
            r.size == *size,
            r.buffer@ == Seq::<u8>::empty(),
    {
        let r = Renderer { size: *size, buffer: Vec::new() };
        proof {
            assert(r.buffer@ =~= Seq::<u8>::empty());
        }
        r
    }

    /// Appends the `#rrggbb` rendering of `c`.
    fn push_color(buf: &mut Vec<u8>, c: Color)
        ensures
            final(buf)@ == old(buf)@ + hex_color(c),
    {
        buf.push(35);
        crate::numfmt::push_hex_byte(buf, c.0);
        crate::numfmt::push_hex_byte(buf, c.1);
        crate::numfmt::push_hex_byte(buf, c.2);
        assert(buf@ =~= old(buf)@ + hex_color(c));
    }

    /// Appends the fill-rectangle element.
    fn rect(&mut self, pos: Point, size: Dimension, color: Color)
        ensures
            final(self).size == old(self).size,
            final(self).buffer@ == old(self).buffer@ + rect_el(pos, size, color),
    {
        push_str_bytes(&mut self.buffer, "<rect x='");
        push_i64(&mut self.buffer, pos.x);
        push_str_bytes(&mut self.buffer, "' y='");
        push_i64(&mut self.buffer, pos.y);
        push_str_bytes(&mut self.buffer, "' width='");
        push_i64(&mut self.buffer, size.w);
        push_str_bytes(&mut self.buffer, "' height='");
        push_i64(&mut self.buffer, size.h);
        push_str_bytes(&mut self.buffer, "' fill='");
        Self::push_color(&mut self.buffer, color);
        push_str_bytes(&mut self.buffer, "' />\n");
        assert(self.buffer@ =~= old(self).buffer@ + rect_el(pos, size, color));
    }

    /// Appends the border-rectangle element.
    fn frame(&mut self, pos: Point, size: Dimension, color: Color, thickness: i64)
        ensures
            final(self).size == old(self).size,
            final(self).buffer@ == old(self).buffer@ + frame_el(
                pos,
                size,
                color,
                thickness as int,
            ),
    {
        push_str_bytes(&mut self.buffer, "<rect x='");
        push_i64(&mut self.buffer, pos.x);
        push_str_bytes(&mut self.buffer, "' y='");
        push_i64(&mut self.buffer, pos.y);
        push_str_bytes(&mut self.buffer, "' width='");
        push_i64(&mut self.buffer, size.w);
        push_str_bytes(&mut self.buffer, "' height='");
        push_i64(&mut self.buffer, size.h);
        push_str_bytes(&mut self.buffer, "' color='");
        Self::push_color(&mut self.buffer, color);
        push_str_bytes(&mut self.buffer, "' stroke='");
        push_i64(&mut self.buffer, thickness);
        push_str_bytes(&mut self.buffer, "' fill='transparent'/>\n");
        assert(self.buffer@ =~= old(self).buffer@ + frame_el(pos, size, color, thickness as int));
    }

    /// Appends the line element.
    fn line(&mut self, p1: Point, p2: Point, color: Color, thickness: i64)
        ensures
            final(self).size == old(self).size,
            final(self).buffer@ == old(self).buffer@ + line_el(p1, p2, color, thickness as int),
    {
        push_str_bytes(&mut self.buffer, "<line x1='");
        push_i64(&mut self.buffer, p1.x);
        push_str_bytes(&mut self.buffer, "' y1='");
        push_i64(&mut self.buffer, p1.y);
        push_str_bytes(&mut self.buffer, "' x2='");
        push_i64(&mut self.buffer, p2.x);
        push_str_bytes(&mut self.buffer, "' y2='");
        push_i64(&mut self.buffer, p2.y);
        push_str_bytes(&mut self.buffer, "' stroke='");
        Self::push_color(&mut self.buffer, color);
        push_str_bytes(&mut self.buffer, "' stroke-width='");
        push_i64(&mut self.buffer, thickness);
        push_str_bytes(&mut self.buffer, "' />\n");
        assert(self.buffer@ =~= old(self).buffer@ + line_el(p1, p2, color, thickness as int));
    }
}

impl ShapeRenderer for Renderer {
    open spec fn dims(&self) -> Dimension {
        self.size
    }

    open spec fn buf_model(&self) -> Seq<u8> {
        self.buffer@
    }

    open spec fn wf(&self) -> bool {
        true
    }

    open spec fn can_draw_at(d: Dimension, shape: Renderable) -> bool {
        true
    }

    open spec fn step(d: Dimension, buf: Seq<u8>, shape: Renderable) -> Seq<u8> {
        buf + shape_els(shape)
    }

    fn draw(&mut self, shape: Renderable) {
        match shape {
            Renderable::Rect(pos, size, style) => {
                if style.has_fill() {
                    let c = style.get_color();
                    self.rect(pos, size, c);
                }
                if let Some((c, t)) = style.get_frame() {
                    self.frame(pos, size, c, t);
                }
                assert(self.buffer@ =~= old(self).buffer@ + shape_els(shape));
            },
            Renderable::Line(p1, p2, style) => {
                if let Some((c, t)) = style.get_frame() {
                    self.line(p1, p2, c, t);
                } else if style.has_fill() {
                    let c = style.get_color();
                    self.line(p1, p2, c, 1);
                }
                assert(self.buffer@ =~= old(self).buffer@ + shape_els(shape));
            },
        }
    }

    fn get_buffer(&self) -> (r: &[u8]) {
        self.buffer.as_slice()
    }
}

impl ImageRenderer for Renderer {
    open spec fn header_model(d: Dimension) -> Option<Seq<u8>> {
        Some(header_bytes(d))
    }

    open spec fn footer_model(d: Dimension) -> Option<Seq<u8>> {
        Some(footer_bytes())
    }

    fn get_header(&self) -> (r: Option<Vec<u8>>) {
        let mut out: Vec<u8> = Vec::new();
        push_str_bytes(&mut out, "<svg version='1.1' width='");
        push_i64(&mut out, self.size.w);
        push_str_bytes(&mut out, "' height='");
        push_i64(&mut out, self.size.h);
        push_str_bytes(&mut out, "' xmlns='http://www.w3.org/2000/svg'>\n");
        assert(out@ =~= header_bytes(self.size));
        Some(out)
    }

    fn get_footer(&self) -> (r: Option<Vec<u8>>) {
        let mut out: Vec<u8> = Vec::new();
        push_str_bytes(&mut out, "</svg>");
        assert(out@ =~= footer_bytes());
        Some(out)
    }
}

} // verus!

verus! {

/// The serialized elements of all shapes, in drawing order.
pub open spec fn body_bytes(shapes: Seq<Renderable>) -> Seq<u8>
    decreases shapes.len(),
{
    if shapes.len() == 0 {
        Seq::empty()
    } else {
        body_bytes(shapes.drop_last()) + shape_els(shapes.last())
    }
}

/// A whole vector document: the header declaring the canvas size, then
/// exactly the serialized elements of the shapes, then the closing footer.
pub open spec fn document_bytes(d: Dimension, shapes: Seq<Renderable>) -> Seq<u8> {
    header_bytes(d) + body_bytes(shapes) + footer_bytes()
}

/// Drawing any sequence of shapes appends exactly their serialized
/// elements, whatever the buffer already holds.
pub proof fn lemma_svg_steps_are_elements(d: Dimension, buf: Seq<u8>, shapes: Seq<Renderable>)
    ensures
        steps::<Renderer>(d, buf, shapes) == buf + body_bytes(shapes),
    decreases shapes.len(),
{
    if shapes.len() == 0 {
        assert(steps::<Renderer>(d, buf, shapes) =~= buf + body_bytes(shapes));
    } else {
        lemma_svg_steps_are_elements(d, buf, shapes.drop_last());
        assert(steps::<Renderer>(d, buf, shapes) =~= buf + body_bytes(shapes));
    }
}

/// The vector output is always a well-formed document: for a renderer that
/// starts empty, the header, the drawn buffer and the footer concatenate to
/// the document wrapping exactly the shapes' elements. In particular, a
/// grid-only layout yields the header, the grid elements alone, and the
/// footer.
pub proof fn lemma_svg_document_well_formed(d: Dimension, shapes: Seq<Renderable>)
    ensures
        header_bytes(d) + steps::<Renderer>(d, Seq::<u8>::empty(), shapes) + footer_bytes()
            == document_bytes(d, shapes),
{
    lemma_svg_steps_are_elements(d, Seq::<u8>::empty(), shapes);
    assert(Seq::<u8>::empty() + body_bytes(shapes) =~= body_bytes(shapes));
}

} // verus!
