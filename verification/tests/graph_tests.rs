use rsound_graph::ppm;
use rsound_graph::{Block, Graph, Hits, Line, Renderable, Roll, Track};

fn standard_blocks() -> Vec<Block> {
    vec![Block::new(4, 1), Block::new(4, 3), Block::new(4, 1), Block::new(4, 2)]
}

fn expect_rect(r: &Renderable) -> (i64, i64, i64, i64) {
    match r {
        Renderable::Rect(pos, size, _) => (pos.x, pos.y, size.w, size.h),
        Renderable::Line(..) => panic!("expected a rectangle"),
    }
}

#[test]
fn graph_dimensions_from_blocks() {
    let graph = Roll::new(&standard_blocks());

    assert_eq!(graph.size.w, 160 + 20 + 20, "graph width");
    assert_eq!(graph.size.h, 35 + 20 + 20, "graph height");
}

#[test]
fn graph_draw() {
    let graph = Roll::new(&standard_blocks());
    let renderer = ppm::Renderer::new(&graph.size());
    let buf = graph.draw(renderer);

    assert_eq!(buf.len(), (graph.size.w * graph.size.h) as usize * 3);
}

#[test]
fn graph_rects() {
    let graph = Roll::new(&standard_blocks());
    let rects = graph.renderables();
    let grid = graph.grid();

    let idx = grid.len();

    assert_eq!(rects.len(), idx + 4);

    let (x, y, w, h) = expect_rect(&rects[idx]);
    assert_eq!(x, 20, "first rect should be at x=0+half padding+half margin");
    assert_eq!(y, 25, "first rect should be at y=5+half padding+half margin");
    assert_eq!(w, 40, "first rect should be at w=40");
    assert_eq!(h, 5, "first rect should be at h=5");

    let (x, y, w, h) = expect_rect(&rects[idx + 1]);
    assert_eq!(x, 60, "second rect should be at x=40+half padding+half margin");
    assert_eq!(y, 35, "second rect should be at y=15+half padding+half margin");
    assert_eq!(w, 40, "second rect should be at w=40");
    assert_eq!(h, 5, "second rect should be at h=5");

    let (x, y, w, h) = expect_rect(&rects[idx + 2]);
    assert_eq!(x, 100, "third rect should be at x=80+half padding+half margin");
    assert_eq!(y, 25, "third rect should be at y=5+half padding+half margin");
    assert_eq!(w, 40, "third rect should be at w=40");
    assert_eq!(h, 5, "third rect should be at h=5");

    let (x, y, w, h) = expect_rect(&rects[idx + 3]);
    assert_eq!(x, 140, "fourth rect should be at x=120+half padding+half margin");
    assert_eq!(y, 30, "fourth rect should be at y=10+half padding+half margin");
    assert_eq!(w, 40, "fourth rect should be at w=40");
    assert_eq!(h, 5, "fourth rect should be at h=5");
}

#[test]
fn hits_dimensions_from_blocks() {
    let graph = Hits::new(&standard_blocks());

    assert_eq!(graph.size.w, 320 + 40 + 40, "graph width");
    assert_eq!(graph.size.h, 80 + 40 + 40, "graph height");
}

#[test]
fn hits_rects() {
    let graph = Hits::new(&standard_blocks());
    let rects = graph.renderables();
    let idx = graph.grid().len();

    assert_eq!(rects.len(), idx + 4);

    let (x, y, w, h) = expect_rect(&rects[idx]);
    assert_eq!((x, y, w, h), (40, 100, 20, 20), "first column");

    let (x, y, w, h) = expect_rect(&rects[idx + 1]);
    assert_eq!((x, y, w, h), (120, 60, 20, 60), "second column");

    let (x, y, w, h) = expect_rect(&rects[idx + 3]);
    assert_eq!((x, y, w, h), (280, 80, 20, 40), "fourth column");
}

#[test]
fn line_dimensions_from_blocks() {
    let graph = Line::new(&standard_blocks());

    assert_eq!(graph.size.w, 16 + 40 + 40, "graph width");
    assert_eq!(graph.size.h, 80 + 40 + 40, "graph height");
}

#[test]
fn line_segments() {
    let graph = Line::new(&standard_blocks());
    let rects = graph.renderables();
    let idx = graph.grid().len();

    assert_eq!(rects.len(), idx + 3, "segments connect pairs of points");

    match &rects[idx] {
        Renderable::Line(p1, p2, _) => {
            assert_eq!((p1.x, p1.y), (44, 100), "first segment start");
            assert_eq!((p2.x, p2.y), (48, 60), "first segment end");
        }
        Renderable::Rect(..) => panic!("expected a segment"),
    }
    match &rects[idx + 2] {
        Renderable::Line(p1, p2, _) => {
            assert_eq!((p1.x, p1.y), (52, 100), "third segment start");
            assert_eq!((p2.x, p2.y), (56, 80), "third segment end");
        }
        Renderable::Rect(..) => panic!("expected a segment"),
    }
}

#[test]
fn track_composes_vertically() {
    let hsrc = vec![Block::new(4, 1)];
    let rsrc = vec![Block::new(4, 2)];
    let track = Track::new(&hsrc, &rsrc);
    let hits = Hits::new(&hsrc);
    let roll = Roll::new(&rsrc);

    assert_eq!(track.size.w, hits.size.w, "track width is the hits width");
    assert_eq!(track.size.h, hits.size.h + roll.size.h, "heights stack");

    let rects = track.renderables();
    let roll_rects = roll.renderables();
    let hits_rects = hits.renderables();
    assert_eq!(rects.len(), roll_rects.len() + hits_rects.len());

    for (moved, unshifted) in rects[roll_rects.len()..].iter().zip(hits_rects.iter()) {
        let (sx, sy, sw, sh) = expect_rect(moved);
        let (ox, oy, ow, oh) = expect_rect(unshifted);
        assert_eq!(sx, ox);
        assert_eq!(sy, oy + roll.size.h, "hits shapes move down by the roll height");
        assert_eq!((sw, sh), (ow, oh));
    }
    assert_eq!(rects[..roll_rects.len()], roll_rects[..], "roll shapes come first, unshifted");
}

#[test]
fn gap_advances_cursor_without_renderable() {
    let blocks = vec![Block::new(4, 1), Block::new(2, 0), Block::new(3, 2)];

    let hits = Hits::new(&blocks);
    let rects = hits.renderables();
    let idx = hits.grid().len();
    assert_eq!(rects.len(), idx + 2, "the rest emits nothing");
    let (x, _, _, _) = expect_rect(&rects[idx + 1]);
    assert_eq!(x, 40 + 20 * (4 + 2), "the rest still advances the cursor");

    let roll = Roll::new(&blocks);
    let rr = roll.renderables();
    let ridx = roll.grid().len();
    assert_eq!(rr.len(), ridx + 2);
    let (x, _, _, _) = expect_rect(&rr[ridx + 1]);
    assert_eq!(x, 20 + 10 * (4 + 2));

    let line = Line::new(&blocks);
    let lr = line.renderables();
    let lidx = line.grid().len();
    assert_eq!(lr.len(), lidx + 1, "no segment is drawn for the rest");
}

#[test]
fn renderables_idempotent() {
    let graph = Roll::new(&standard_blocks());
    assert_eq!(graph.renderables(), graph.renderables());

    let hits = Hits::new(&standard_blocks());
    assert_eq!(hits.renderables(), hits.renderables());

    let line = Line::new(&standard_blocks());
    assert_eq!(line.renderables(), line.renderables());
}

#[test]
fn construction_rejects_degenerate_blocks() {
    assert!(Roll::try_new(&[]).is_none(), "empty input has no maximum");
    assert!(Roll::try_new(&[Block::new(4, 0), Block::new(2, 0)]).is_none(), "all rests");
    assert!(Roll::try_new(&[Block::new(4, -1)]).is_none(), "negative extent");
    assert!(Roll::try_new(&standard_blocks()).is_some());

    assert!(Hits::try_new(&[]).is_none());
    assert!(Hits::try_new(&standard_blocks()).is_some());
    assert!(Line::try_new(&[Block::new(0, 0)]).is_none());
    assert!(Line::try_new(&standard_blocks()).is_some());

    assert!(Track::try_new(&[], &standard_blocks()).is_none());
    assert!(Track::try_new(&standard_blocks(), &standard_blocks()).is_some());
}

#[test]
fn construction_accepts_extents_at_the_limit() {
    assert!(Roll::try_new(&[Block::new(100_000, 100_000)]).is_some());
    assert!(Roll::try_new(&[Block::new(100_001, 1)]).is_none(), "duration out of range");
    assert!(Roll::try_new(&[Block::new(1, 100_001)]).is_none(), "intensity out of range");
}

#[test]
fn accessors_return_configuration() {
    let graph = Roll::new(&standard_blocks());
    assert_eq!(graph.base().0, 10);
    assert_eq!(graph.base().1, 5);
    assert_eq!(graph.margin().w, 20);
    assert_eq!(graph.padding().0, 0);
    assert_eq!(graph.get_blocks(), &standard_blocks()[..]);
    assert_eq!(graph.get_blocks()[1].duration(), 4);
    assert_eq!(graph.get_blocks()[1].intensity(), Some(3));

    let hits = Hits::new(&standard_blocks());
    assert_eq!(hits.base().0, 20);
    assert_eq!(hits.margin().h, 40);

    let track = Track::new(&standard_blocks(), &standard_blocks());
    assert_eq!(track.margin().w, 0, "the track delegates margins to its children");
    assert_eq!(track.padding().1, 0);
}
