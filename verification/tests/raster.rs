use rrt::io::{display_bytes, pixels_to_uint8_arr, ppm_text, push_decimal, rgba_bytes, Buffer};
use rrt::radiance::Radiance;

/// A colour of three levels between 0 and 255, shown as they are.
#[derive(Clone, Copy, Debug, PartialEq)]
struct Levels(f64, f64, f64);

impl Radiance for Levels {
    fn black() -> Self {
        Levels(0.0, 0.0, 0.0)
    }

    fn plus(self, other: Self) -> Self {
        Levels(self.0 + other.0, self.1 + other.1, self.2 + other.2)
    }

    fn times(self, other: Self) -> Self {
        Levels(self.0 * other.0, self.1 * other.1, self.2 * other.2)
    }

    fn scale(self, count: usize) -> Self {
        let f = count as f64;
        Levels(self.0 * f, self.1 * f, self.2 * f)
    }

    fn average(self, count: usize) -> Self {
        let f = count as f64;
        Levels(self.0 / f, self.1 / f, self.2 / f)
    }

    fn to_u8(self) -> (u8, u8, u8) {
        (self.0 as u8, self.1 as u8, self.2 as u8)
    }
}

fn decimal(n: usize) -> String {
    let mut text = String::new();
    push_decimal(&mut text, n);
    text
}

#[test]
fn decimal_of_small_and_large_numbers() {
    assert_eq!(decimal(0), "0");
    assert_eq!(decimal(7), "7");
    assert_eq!(decimal(10), "10");
    assert_eq!(decimal(255), "255");
    assert_eq!(decimal(1000), "1000");
    assert_eq!(decimal(90210), "90210");
    assert_eq!(decimal(usize::MAX), format!("{}", usize::MAX));
}

#[test]
fn decimal_is_appended() {
    let mut text = String::from("n=");
    push_decimal(&mut text, 42);
    push_decimal(&mut text, 0);
    assert_eq!(text, "n=420");
}

#[test]
fn ppm_of_two_pixels() {
    let pixels = vec![(255u8, 0u8, 7u8), (10u8, 200u8, 31u8)];
    assert_eq!(ppm_text(2, 1, &pixels), "P3\n2 1\n255\n255 0 7\n10 200 31\n");
}

#[test]
fn ppm_without_pixels_is_the_header() {
    assert_eq!(ppm_text(0, 0, &Vec::new()), "P3\n0 0\n255\n");
    assert_eq!(ppm_text(800, 0, &Vec::new()), "P3\n800 0\n255\n");
}

#[test]
fn ppm_has_a_line_for_each_pixel_in_order() {
    let mut pixels: Vec<(u8, u8, u8)> = Vec::new();
    for k in 0..12u8 {
        pixels.push((k, 100 + k, 200 + k));
    }
    let text = ppm_text(4, 3, &pixels);
    let lines: Vec<&str> = text.lines().collect();
    assert_eq!(lines.len(), 3 + 12);
    assert_eq!(&lines[..3], &["P3", "4 3", "255"]);
    for k in 0..12usize {
        assert_eq!(lines[3 + k], format!("{} {} {}", k, 100 + k, 200 + k));
    }
    assert!(text.ends_with('\n'));
}

#[test]
fn rgba_of_two_pixels() {
    let pixels = vec![(255u8, 0u8, 7u8), (10u8, 200u8, 31u8)];
    assert_eq!(rgba_bytes(&pixels), vec![255, 0, 7, 255, 10, 200, 31, 255]);
}

#[test]
fn rgba_of_no_pixels() {
    assert_eq!(rgba_bytes(&Vec::new()), Vec::<u8>::new());
}

#[test]
fn display_bytes_keep_the_order() {
    let pixels = vec![Levels(1.0, 2.0, 3.0), Levels(4.0, 5.0, 6.0), Levels(255.0, 0.0, 128.0)];
    assert_eq!(display_bytes(&pixels), vec![(1, 2, 3), (4, 5, 6), (255, 0, 128)]);
}

#[test]
fn uint8_arr_of_a_two_by_one_image() {
    let pixels = vec![Levels(1.0, 2.0, 3.0), Levels(4.0, 5.0, 6.0)];
    assert_eq!(pixels_to_uint8_arr(&pixels, 2, 1), vec![1, 2, 3, 255, 4, 5, 6, 255]);
    assert_eq!(pixels_to_uint8_arr(&Vec::<Levels>::new(), 0, 3), Vec::<u8>::new());
}

#[test]
fn buffer_keeps_pixels_and_size() {
    let pixels = vec![Levels(1.0, 2.0, 3.0), Levels(4.0, 5.0, 6.0)];
    let buffer = Buffer::new(pixels.clone(), 1, 2);
    assert_eq!(buffer.width(), 1);
    assert_eq!(buffer.height(), 2);
    assert_eq!(buffer.pixels(), &pixels);
    assert_eq!(buffer.into_pixels(), pixels);
}

#[test]
fn buffer_to_ppm_writes_display_bytes() {
    let pixels = vec![
        Levels(255.0, 0.0, 0.0),
        Levels(0.0, 255.0, 0.0),
        Levels(0.0, 0.0, 255.0),
        Levels(12.0, 34.0, 56.0),
    ];
    let buffer = Buffer::new(pixels, 2, 2);
    assert_eq!(buffer.to_ppm(), "P3\n2 2\n255\n255 0 0\n0 255 0\n0 0 255\n12 34 56\n");
}
