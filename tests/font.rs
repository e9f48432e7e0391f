use locket::font::{background, fill, fill_background, FontBuilder, MAROON};

#[test]
fn builder_wraps_styles() {
    let styled = FontBuilder::new("Hi").bold().underline().fill(MAROON).to_string();
    assert_eq!(styled, "\x1B[38;5;1m\x1B[4m\x1B[1mHi\x1B[0m");
}

#[test]
fn builder_every_style() {
    let styled = FontBuilder::new("x")
        .faint()
        .italic()
        .inverse()
        .strikethrough()
        .background(200)
        .to_string();
    assert_eq!(styled, "\x1B[48;5;200m\x1B[9m\x1B[7m\x1B[3m\x1B[2mx\x1B[0m");
}

#[test]
fn color_helpers() {
    assert_eq!(fill("a", 42), "\x1B[38;5;42ma\x1B[0m");
    assert_eq!(background("a", 255), "\x1B[48;5;255ma\x1B[0m");
    assert_eq!(fill_background("a", 0, 9), "\x1B[38;5;0m\x1B[48;5;9ma\x1B[0m");
}
