use sugar_ray::canvas::color::Rgb;
use sugar_ray::canvas::Canvas;
use sugar_ray::ppm::{Ppm, PpmColor};

/// A color with channels between 0 and 1, as an application of the library
/// would have it.
#[derive(Debug, Clone, Copy)]
struct Color {
    r: f32,
    g: f32,
    b: f32,
}

impl Color {
    fn new(red: f32, green: f32, blue: f32) -> Self {
        Color { r: red, g: green, b: blue }
    }
}

impl PartialEq for Color {
    fn eq(&self, other: &Self) -> bool {
        ((self.r - other.r).abs() <= f32::EPSILON)
            && ((self.g - other.g).abs() <= f32::EPSILON)
            && ((self.b - other.b).abs() <= f32::EPSILON)
    }
}

fn channel(i: f32) -> u8 {
    if i < 0.0 {
        0
    } else if i > 1.0 {
        255
    } else {
        (i * 255.0).ceil() as u8
    }
}

impl PpmColor for Color {
    fn to_ppm_color(&self) -> String {
        Rgb::new(channel(self.r), channel(self.g), channel(self.b)).to_ppm_color()
    }
}

fn black() -> Color {
    Color::new(0.0, 0.0, 0.0)
}

#[test]
fn creating_a_canvas() {
    let mut c = Canvas::new(10, 20, Color::new(1.0, 1.0, 1.0));
    for y in 0..20 {
        for x in 0..10 {
            c.write_pixel(x, y, Color::new(0.0, 0.0, 0.0));
        }
    }

    assert_eq!(c, Canvas::new(10, 20, black()));
    assert_eq!(10, c.width());
    assert_eq!(20, c.height());
}

#[test]
fn rows_not_equal() {
    let c = Canvas::new(10, 19, Color::new(0.0, 0.0, 0.0));

    assert_ne!(c, Canvas::new(10, 20, black()));
}

#[test]
fn widths_not_equal() {
    let c = Canvas::new(9, 20, Color::new(0.0, 0.0, 0.0));

    assert_ne!(c, Canvas::new(10, 20, black()));
}

#[test]
fn not_initial_color_black() {
    let c = Canvas::new(10, 20, Color::new(1.0, 0.0, 0.0));

    assert_ne!(c, Canvas::new(10, 20, black()));
}

#[test]
fn one_other_pixel_makes_canvases_unequal() {
    let mut c = Canvas::new(10, 20, black());
    c.write_pixel(9, 19, Color::new(0.0, 0.0, 0.5));
    assert_ne!(c, Canvas::new(10, 20, black()));
    c.write_pixel(9, 19, black());
    assert_eq!(c, Canvas::new(10, 20, black()));
}

#[test]
fn canvases_without_lines_are_equal() {
    assert_eq!(Canvas::new(3, 0, black()), Canvas::new(4, 0, black()));
}

#[test]
fn writing_pixels_to_a_canvas() {
    let mut c = Canvas::new(10, 10, black());
    c.write_pixel(6, 4, Color::new(1.0, 0.0, 0.0));
    assert_eq!(Color::new(1.0, 0.0, 0.0), c.pixel_at(6, 4));
    for y in 0..10 {
        for x in 0..10 {
            if (x, y) != (6, 4) {
                assert_eq!(black(), c.pixel_at(x, y));
            }
        }
    }
}

#[test]
fn pixel_at_test() {
    let mut c = Canvas::new(10, 10, black());
    c.write_pixel(6, 4, Color::new(1.0, 0.0, 0.0));
    assert_eq!(Color::new(1.0, 0.0, 0.0), c.pixel_at(6, 4));
}

#[test]
fn a_pixel_keeps_a_color_that_cannot_be_shown() {
    let mut c = Canvas::new(2, 2, black());
    c.write_pixel(1, 0, Color::new(1.5, -0.5, 0.25));
    let p = c.pixel_at(1, 0);
    assert_eq!(1.5, p.r);
    assert_eq!(-0.5, p.g);
    assert_eq!(0.25, p.b);
}

#[test]
fn constructing_the_ppm_header() {
    let expected = String::from(
        "P3\n5 3\n255\n0 0 0 0 0 0 0 0 0 0 0 0 0 0 0\n0 0 0 0 0 0 0 0 0 0 0 0 0 0 0\n0 0 0 0 0 0 0 0 0 0 0 0 0 0 0\n",
    );
    assert_eq!(expected, Canvas::new(5, 3, black()).to_ppm());
}

#[test]
fn constructing_the_pixel_data() {
    let expected = String::from(
        "P3\n5 3\n255\n255 0 0 0 0 0 0 0 0 0 0 0 0 0 0\n0 0 0 0 0 0 0 128 0 0 0 0 0 0 0\n0 0 0 0 0 0 0 0 0 0 0 0 0 0 255\n",
    );
    let mut canvas = Canvas::new(5, 3, black());
    canvas.write_pixel(0, 0, Color::new(1.5, 0.0, 0.0));
    canvas.write_pixel(2, 1, Color::new(0.0, 0.5, 0.0));
    canvas.write_pixel(4, 2, Color::new(-0.5, 0.0, 1.0));

    assert_eq!(expected, canvas.to_ppm());
}

#[test]
fn ends_with_new_line() {
    assert_eq!('\n', Canvas::new(5, 3, black()).to_ppm().pop().unwrap());
}

#[test]
fn lines_of_the_pixmap_run_on_over_the_lines_of_the_canvas() {
    let mut canvas = Canvas::new(3, 2, Rgb::new(0, 0, 0));
    canvas.write_pixel(2, 0, Rgb::new(1, 2, 3));
    canvas.write_pixel(0, 1, Rgb::new(4, 5, 6));
    canvas.write_pixel(2, 1, Rgb::new(7, 8, 9));
    assert_eq!("P3\n3 2\n255\n0 0 0 0 0 0 1 2 3 4 5 6 0 0 0\n7 8 9\n", canvas.to_ppm());
}

#[test]
fn the_pixmap_of_a_canvas_without_pixels() {
    assert_eq!("P3\n0 0\n255\n", Canvas::new(0, 0, black()).to_ppm());
    assert_eq!("P3\n4 0\n255\n", Canvas::new(4, 0, black()).to_ppm());
    assert_eq!("P3\n0 4\n255\n", Canvas::new(0, 4, black()).to_ppm());
}

#[test]
fn the_texts_of_the_pixels_come_in_reading_order() {
    let mut canvas = Canvas::new(2, 2, Rgb::new(0, 0, 0));
    canvas.write_pixel(1, 0, Rgb::new(1, 1, 1));
    canvas.write_pixel(0, 1, Rgb::new(2, 2, 2));
    canvas.write_pixel(1, 1, Rgb::new(3, 3, 3));
    assert_eq!(vec!["0 0 0", "1 1 1", "2 2 2", "3 3 3"], canvas.pixel_texts());
}

#[test]
fn to_ppm_color_tuple() {
    assert_eq!(String::from("255 0 128"), Color::new(1.0, 0.0, 0.5).to_ppm_color());
}

#[test]
fn to_ppm_color_tuple_2() {
    assert_eq!(String::from("255 204 153"), Color::new(1.0, 0.8, 0.6).to_ppm_color());
}

#[test]
fn to_ppm_color_tuple_3() {
    assert_eq!(String::from("255 128 0"), Color::new(1.5, 0.5, -0.5).to_ppm_color());
}
