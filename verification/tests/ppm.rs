use sugar_ray::canvas::color::Rgb;
use sugar_ray::ppm::{header_text, layout, push_decimal, PpmColor, PIXELS_PER_LINE};

fn decimal(n: usize) -> String {
    let mut s = String::new();
    push_decimal(&mut s, n);
    s
}

#[test]
fn decimal_numerals() {
    assert_eq!("0", decimal(0));
    assert_eq!("7", decimal(7));
    assert_eq!("9", decimal(9));
    assert_eq!("10", decimal(10));
    assert_eq!("128", decimal(128));
    assert_eq!("255", decimal(255));
    assert_eq!("1024", decimal(1024));
    assert_eq!("1234567890", decimal(1234567890));
    assert_eq!(usize::MAX.to_string(), decimal(usize::MAX));
}

#[test]
fn decimal_numerals_are_those_of_the_standard_library() {
    for n in 0..2000usize {
        assert_eq!(n.to_string(), decimal(n));
    }
}

#[test]
fn a_numeral_is_appended_to_what_is_there() {
    let mut s = String::from("width ");
    push_decimal(&mut s, 640);
    assert_eq!("width 640", s);
}

#[test]
fn the_header_has_three_lines() {
    assert_eq!("P3\n5 3\n255\n", header_text(5, 3));
    assert_eq!("P3\n0 0\n255\n", header_text(0, 0));
    assert_eq!("P3\n1024 768\n255\n", header_text(1024, 768));
}

#[test]
fn five_pixels_stand_on_a_line() {
    assert_eq!(5, PIXELS_PER_LINE);
    let cells: Vec<String> = (0..12).map(|i| format!("{} {} {}", i, i, i)).collect();
    let expected = "P3\n4 3\n255\n\
                    0 0 0 1 1 1 2 2 2 3 3 3 4 4 4\n\
                    5 5 5 6 6 6 7 7 7 8 8 8 9 9 9\n\
                    10 10 10 11 11 11\n";
    assert_eq!(expected, layout(4, 3, &cells));
}

#[test]
fn a_pixmap_without_pixels_is_its_header() {
    assert_eq!("P3\n0 0\n255\n", layout(0, 0, &vec![]));
    assert_eq!("P3\n0 9\n255\n", layout(0, 9, &vec![]));
}

#[test]
fn a_pixmap_of_one_pixel() {
    assert_eq!("P3\n1 1\n255\n1 2 3\n", layout(1, 1, &vec![String::from("1 2 3")]));
}

#[test]
fn a_pixmap_of_a_full_line_ends_with_one_line_break() {
    let cells: Vec<String> = (0..5).map(|_| String::from("0 0 0")).collect();
    assert_eq!("P3\n5 1\n255\n0 0 0 0 0 0 0 0 0 0 0 0 0 0 0\n", layout(5, 1, &cells));
}

#[test]
fn a_pixmap_with_an_empty_text_at_its_end() {
    // The last character is replaced, also where the last pixel wrote
    // nothing.
    let cells = vec![String::from("1 1 1"), String::new()];
    assert_eq!("P3\n2 1\n255\n1 1 1 \n", layout(2, 1, &cells));
}

#[test]
fn an_encoded_color_is_written_as_three_numerals() {
    assert_eq!("255 0 128", Rgb::new(255, 0, 128).to_ppm_color());
    assert_eq!("255 204 153", Rgb::new(255, 204, 153).to_ppm_color());
    assert_eq!("0 0 0", Rgb::new(0, 0, 0).to_ppm_color());
    assert_eq!("7 42 100", Rgb::new(7, 42, 100).to_ppm_color());
}

#[test]
fn encoded_colors_are_equal_channel_by_channel() {
    assert_eq!(Rgb::new(1, 2, 3), Rgb::new(1, 2, 3));
    assert_ne!(Rgb::new(1, 2, 3), Rgb::new(0, 2, 3));
    assert_ne!(Rgb::new(1, 2, 3), Rgb::new(1, 0, 3));
    assert_ne!(Rgb::new(1, 2, 3), Rgb::new(1, 2, 0));
    assert_eq!(Rgb { r: 9, g: 8, b: 7 }, Rgb::new(9, 8, 7));
}
