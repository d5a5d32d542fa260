use rsound_graph::{Color, FileWriter, StdoutWriter, Style};

#[test]
fn color_extracts_channels() {
    let c = Color::from(0xDEAD00);
    assert_eq!((c.0, c.1, c.2), (0xDE, 0xAD, 0x00));
    let c = Color::from(0x00_01_02);
    assert_eq!((c.0, c.1, c.2), (0, 1, 2));
    let c = Color::from(0xFF_FF_FF_FFu32);
    assert_eq!((c.0, c.1, c.2), (255, 255, 255), "only the low 24 bits matter");
}

#[test]
fn color_renders_lowercase_hex() {
    assert_eq!(Color::from(0x0F10FF).rgb(), b"#0f10ff".to_vec());
    assert_eq!(Color::from(0).rgb(), b"#000000".to_vec());
    assert_eq!(Color::from(0xBADA55).rgb(), b"#bada55".to_vec());
}

#[test]
fn style_fill_resolution() {
    let plain = Style::color(0x112233);
    assert!(plain.has_fill());
    assert!(plain.get_frame().is_none());
    assert_eq!(plain.get_color(), Color::from(0x112233));

    let bordered = Style::color(0x112233).with_border(2);
    assert!(!bordered.has_fill(), "a pure-border style without background is frame-only");
    assert_eq!(bordered.get_frame(), Some((Color::from(0x112233), 2)));
    assert_eq!(bordered.get_color(), Color::from(0x112233), "only-border falls back to the border color");

    let both = Style::color(0x112233).with_border(2).with_background(0x445566);
    assert!(both.has_fill());
    assert_eq!(both.get_frame(), Some((Color::from(0x112233), 2)));
    assert_eq!(both.get_color(), Color::from(0x445566), "background fills when a border is present");
}

#[test]
fn writers_name_their_destination() {
    let f = FileWriter::new(String::from("foo.ppm"));
    assert_eq!(f.fname, "foo.ppm");
    let _out = StdoutWriter::new();
}
