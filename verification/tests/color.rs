//! Tests of the colour codec.

use ass_parser::{AssFileOptions, Dialogue, Rgb};

#[test]
fn test_color_style_encoding() {
    // channels reorder to blue-green-red, and a zero channel renders as a
    // single digit: red is blue 0, green 0, red ff
    let red = Rgb { r: 255, g: 0, b: 0 };
    assert_eq!(AssFileOptions::get_ass_color(red), "&H00ff");
    let yellow = Rgb { r: 255, g: 255, b: 0 };
    assert_eq!(AssFileOptions::get_ass_color(yellow), "&H0ffff");
}

#[test]
fn test_color_no_zero_padding() {
    // a channel below 16 renders as a single hex digit, not two
    let c = Rgb { r: 1, g: 2, b: 3 };
    assert_eq!(AssFileOptions::get_ass_color(c), "&H321");
    let white = Rgb { r: 255, g: 255, b: 255 };
    assert_eq!(AssFileOptions::get_ass_color(white), "&Hffffff");
    let black = Rgb { r: 0, g: 0, b: 0 };
    assert_eq!(AssFileOptions::get_ass_color(black), "&H000");
}

#[test]
fn test_color_override_tag() {
    let red = Rgb { r: 255, g: 0, b: 0 };
    assert_eq!(AssFileOptions::get_ass_color_text(red), "{\\c&H00ff&}");
}

#[test]
fn test_set_colour_prepends_tag() {
    let red = Rgb { r: 255, g: 0, b: 0 };
    let d = Dialogue::default().set_text("Hello").set_colour(red);
    assert_eq!(d.get_text().unwrap(), "{\\c&H00ff&}Hello");
    assert_eq!(d.get_colour().unwrap(), "{\\c&H00ff&}");
}

#[test]
fn test_set_colour_without_text() {
    // with no text set, the tag becomes the whole text
    let blue = Rgb { r: 0, g: 0, b: 255 };
    let d = Dialogue::new().set_colour(blue);
    assert_eq!(d.get_text().unwrap(), "{\\c&Hff00&}");
    assert_eq!(d.get_colour().unwrap(), "{\\c&Hff00&}");
}

#[test]
fn test_set_colour_compounds() {
    // repeated attachment prepends again rather than replacing
    let red = Rgb { r: 255, g: 0, b: 0 };
    let green = Rgb { r: 0, g: 255, b: 0 };
    let d = Dialogue::default()
        .set_text("Hi")
        .set_colour(red)
        .set_colour(green);
    assert_eq!(d.get_text().unwrap(), "{\\c&H0ff0&}{\\c&H00ff&}Hi");
    assert_eq!(d.get_colour().unwrap(), "{\\c&H0ff0&}");
}
