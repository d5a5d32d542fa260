use rsound_graph::{ppm, svg};
use rsound_graph::{Block, Dimension, Graph, ImageRenderer, Line, Point, Renderable, Roll, ShapeRenderer, Style};

fn pixel(buf: &[u8], width: i64, x: i64, y: i64) -> (u8, u8, u8) {
    let off = ((y * width + x) * 3) as usize;
    (buf[off], buf[off + 1], buf[off + 2])
}

#[test]
fn ppm_buffer_length_is_rgb_area() {
    let renderer = ppm::Renderer::new(&Dimension { w: 10, h: 7 });
    assert_eq!(renderer.get_buffer().len(), 10 * 7 * 3);

    let mut renderer = ppm::Renderer::new(&Dimension { w: 10, h: 7 });
    renderer.draw(Renderable::Rect(
        Point { x: 1, y: 1 },
        Dimension { w: 4, h: 3 },
        Style::color(0xFF00FF),
    ));
    assert_eq!(renderer.get_buffer().len(), 10 * 7 * 3, "drawing never resizes the buffer");
}

#[test]
fn ppm_header_is_textual_preamble() {
    let renderer = ppm::Renderer::new(&Dimension { w: 200, h: 75 });
    assert_eq!(renderer.get_header(), Some(b"P6 200 75 255\n".to_vec()));
    assert_eq!(renderer.get_footer(), None);
}

#[test]
fn ppm_fill_rect_paints_exact_pixels() {
    let mut renderer = ppm::Renderer::new(&Dimension { w: 10, h: 7 });
    renderer.draw(Renderable::Rect(
        Point { x: 2, y: 1 },
        Dimension { w: 3, h: 2 },
        Style::color(0x010203),
    ));
    let buf = renderer.get_buffer();
    assert_eq!(pixel(buf, 10, 2, 1), (1, 2, 3), "inside the rectangle");
    assert_eq!(pixel(buf, 10, 4, 2), (1, 2, 3), "bottom-right corner");
    assert_eq!(pixel(buf, 10, 5, 1), (0, 0, 0), "right of the rectangle");
    assert_eq!(pixel(buf, 10, 2, 3), (0, 0, 0), "below the rectangle");
    assert_eq!(pixel(buf, 10, 1, 1), (0, 0, 0), "left of the rectangle");
}

#[test]
fn ppm_border_paints_over_fill() {
    let mut renderer = ppm::Renderer::new(&Dimension { w: 12, h: 12 });
    let style = Style::color(0x0000FF).with_border(1).with_background(0x00FF00);
    renderer.draw(Renderable::Rect(Point { x: 2, y: 2 }, Dimension { w: 6, h: 6 }, style));
    let buf = renderer.get_buffer();
    assert_eq!(pixel(buf, 12, 2, 2), (0, 0, 255), "edge painted in the border color");
    assert_eq!(pixel(buf, 12, 7, 7), (0, 0, 255), "far corner painted in the border color");
    assert_eq!(pixel(buf, 12, 4, 4), (0, 255, 0), "interior keeps the background fill");
    assert_eq!(pixel(buf, 12, 1, 1), (0, 0, 0), "outside untouched");
}

#[test]
fn ppm_line_walks_columns() {
    let mut renderer = ppm::Renderer::new(&Dimension { w: 10, h: 7 });
    renderer.draw(Renderable::Line(
        Point { x: 2, y: 1 },
        Point { x: 6, y: 1 },
        Style::color(0x040506),
    ));
    let buf = renderer.get_buffer();
    assert_eq!(pixel(buf, 10, 2, 1), (4, 5, 6));
    assert_eq!(pixel(buf, 10, 5, 1), (4, 5, 6));
    assert_eq!(pixel(buf, 10, 1, 1), (4, 5, 6), "the thickness offset reaches one column left");
    assert_eq!(pixel(buf, 10, 6, 1), (0, 0, 0), "the end column is exclusive");
    assert_eq!(pixel(buf, 10, 3, 2), (0, 0, 0), "a flat walk never leaves its row");
}

#[test]
fn svg_rect_element_is_exact() {
    let mut renderer = svg::Renderer::new(&Dimension { w: 10, h: 7 });
    renderer.draw(Renderable::Rect(
        Point { x: 2, y: 1 },
        Dimension { w: 3, h: 2 },
        Style::color(0x010203),
    ));
    let body = String::from_utf8(renderer.get_buffer().to_vec()).unwrap();
    assert_eq!(body, "<rect x='2' y='1' width='3' height='2' fill='#010203' />\n");
}

#[test]
fn svg_fill_and_border_emit_two_elements() {
    let mut renderer = svg::Renderer::new(&Dimension { w: 10, h: 7 });
    let style = Style::color(0xDEAD00).with_border(2).with_background(0xBADA55);
    renderer.draw(Renderable::Rect(Point { x: 0, y: 0 }, Dimension { w: 4, h: 4 }, style));
    let body = String::from_utf8(renderer.get_buffer().to_vec()).unwrap();
    assert_eq!(
        body,
        "<rect x='0' y='0' width='4' height='4' fill='#bada55' />\n\
         <rect x='0' y='0' width='4' height='4' color='#dead00' stroke='2' fill='transparent'/>\n"
    );
}

#[test]
fn svg_line_element_is_exact() {
    let mut renderer = svg::Renderer::new(&Dimension { w: 10, h: 7 });
    renderer.draw(Renderable::Line(
        Point { x: 2, y: 1 },
        Point { x: 6, y: 3 },
        Style::color(0x6495ED),
    ));
    let body = String::from_utf8(renderer.get_buffer().to_vec()).unwrap();
    assert_eq!(body, "<line x1='2' y1='1' x2='6' y2='3' stroke='#6495ed' stroke-width='1' />\n");
}

#[test]
fn svg_grid_only_document_is_well_formed() {
    let graph = Line::new(&[Block::new(4, 1)]);
    let grid_len = graph.grid().len();
    assert_eq!(graph.renderables().len(), grid_len, "a single point draws no segment");

    let renderer = svg::Renderer::new(&graph.size());
    let header = renderer.get_header().unwrap();
    let footer = renderer.get_footer().unwrap();
    let body = graph.draw(renderer);

    let mut document = Vec::new();
    document.extend_from_slice(&header);
    document.extend_from_slice(&body);
    document.extend_from_slice(&footer);
    let document = String::from_utf8(document).unwrap();

    assert!(document.starts_with("<svg version='1.1' width='84' height='120'"));
    assert!(document.ends_with("</svg>"));
    let inner = &document[document.find('\n').unwrap() + 1..document.len() - "</svg>".len()];
    assert_eq!(inner.matches("<rect ").count(), grid_len, "only grid elements in between");
    assert_eq!(inner.matches("<line ").count(), 0);
    for element in inner.lines() {
        assert!(element.starts_with("<rect "));
        assert!(element.ends_with("/>"));
    }
}

#[test]
fn ppm_sloped_line_steps_down() {
    let mut renderer = ppm::Renderer::new(&Dimension { w: 10, h: 10 });
    renderer.draw(Renderable::Line(
        Point { x: 2, y: 1 },
        Point { x: 8, y: 4 },
        Style::color(0x070809),
    ));
    let buf = renderer.get_buffer();
    assert_eq!(pixel(buf, 10, 2, 1), (7, 8, 9), "start of the walk");
    assert_eq!(pixel(buf, 10, 4, 2), (7, 8, 9), "the error term has stepped down once");
    assert_eq!(pixel(buf, 10, 6, 3), (7, 8, 9), "and twice");
    assert_eq!(pixel(buf, 10, 8, 4), (0, 0, 0), "the end column is exclusive");
    assert_eq!(pixel(buf, 10, 2, 0), (0, 0, 0), "the walk never climbs above its start");
}

#[test]
fn svg_serializes_negative_coordinates() {
    let mut renderer = svg::Renderer::new(&Dimension { w: 10, h: 7 });
    renderer.draw(Renderable::Rect(
        Point { x: -3, y: -14 },
        Dimension { w: 3, h: 2 },
        Style::color(0x010203),
    ));
    let body = String::from_utf8(renderer.get_buffer().to_vec()).unwrap();
    assert_eq!(body, "<rect x='-3' y='-14' width='3' height='2' fill='#010203' />\n");
}

#[test]
fn roll_raster_pins_a_content_pixel() {
    let graph = Roll::new(&[Block::new(4, 1), Block::new(4, 3), Block::new(4, 1), Block::new(4, 2)]);
    let renderer = ppm::Renderer::new(&graph.size());
    let buf = graph.draw(renderer);
    let w = graph.size.w;
    assert_eq!(pixel(&buf, w, 0, 0), (0x06, 0x09, 0x10), "background corner");
    assert_eq!(pixel(&buf, w, 22, 27), (0xBA, 0xDA, 0x55), "first bar interior: background fill");
    assert_eq!(pixel(&buf, w, 20, 25), (0xDE, 0xAD, 0x00), "first bar corner: border color");
}
