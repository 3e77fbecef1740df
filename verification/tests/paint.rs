use palette_tracer_engine::ir::paint::{Color, SpreadMethod};

#[test]
fn a_palette_colour_survives_verbatim() {
    let c = Color::from_array([0x12, 0x34, 0x56, 0xff]);
    assert_eq!(c.to_hex_rgb(), "#123456");
    assert_eq!(c, Color::rgb(0x12, 0x34, 0x56));
}

#[test]
fn transparency_is_detected_regardless_of_colour() {
    assert!(Color::rgba(255, 255, 255, 0).is_transparent());
    assert!(!Color::rgba(0, 0, 0, 1).is_transparent());
}

#[test]
fn hex_output_carries_no_alpha() {
    let half = Color::rgba(255, 128, 0, 128);
    assert_eq!(half.to_hex_rgb(), "#ff8000");
    assert_eq!(Color::white().to_hex_rgb(), "#ffffff");
    assert_eq!(Color::black(), Color::rgb(0, 0, 0));
    assert!(Color::transparent().is_transparent());
    assert_ne!(SpreadMethod::Pad, SpreadMethod::Repeat);
}
