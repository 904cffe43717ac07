use raytracing_weekend::{PPMWriter, Pixel, RenderingResult};

fn text(result: &RenderingResult) -> String {
    let writer = PPMWriter::new("./assets/test.ppm");
    String::from_utf8(writer.encode(result)).unwrap()
}

#[test]
fn test_writer_keeps_its_path() {
    let writer = PPMWriter::new("./assets/default.ppm");
    assert_eq!(writer.path(), "./assets/default.ppm");
    assert_eq!(PPMWriter::new("").path(), "");
}

#[test]
fn test_encode_a_small_image() {
    let result = RenderingResult {
        width: 2,
        height: 2,
        pixels: vec![
            Pixel::from(255, 0, 0),
            Pixel::from(0, 255, 0),
            Pixel::from(0, 0, 255),
            Pixel::from(12, 130, 9),
        ],
    };
    assert_eq!(text(&result), "P3\n2 2\n255\n255 0 0\n0 255 0\n0 0 255\n12 130 9\n");
}

#[test]
fn test_encode_without_pixels_is_the_header() {
    let result = RenderingResult { width: 0, height: 0, pixels: vec![] };
    assert_eq!(text(&result), "P3\n0 0\n255\n");
}

#[test]
fn test_encode_writes_the_size_as_given() {
    let result = RenderingResult { width: 720, height: 576, pixels: vec![Pixel::new()] };
    assert_eq!(text(&result), "P3\n720 576\n255\n0 0 0\n");
}

#[test]
fn test_encode_writes_negative_numbers_with_a_sign() {
    let result = RenderingResult {
        width: -1,
        height: -20,
        pixels: vec![Pixel::from(-1, -10, -999)],
    };
    assert_eq!(text(&result), "P3\n-1 -20\n255\n-1 -10 -999\n");
}

#[test]
fn test_encode_writes_the_largest_and_smallest_numbers() {
    let result = RenderingResult {
        width: i32::MAX,
        height: i32::MIN,
        pixels: vec![Pixel::from(i32::MIN, i32::MAX, 1000000000)],
    };
    assert_eq!(
        text(&result),
        "P3\n2147483647 -2147483648\n255\n-2147483648 2147483647 1000000000\n"
    );
}

#[test]
fn test_encode_agrees_with_the_standard_formatter() {
    let numbers = [
        0, 1, 9, 10, 11, 99, 100, 101, 255, 256, 999, 1000, 65535, 65536, 99999, 100000, 123456789,
        -1, -9, -10, -100, -255, -65536, i32::MAX, i32::MIN, i32::MIN + 1, i32::MAX - 1,
    ];
    for &r in numbers.iter() {
        for &g in [0, 7, -42, 1000].iter() {
            let result = RenderingResult { width: r, height: g, pixels: vec![Pixel::from(r, g, r)] };
            let expected = format!("P3\n{} {}\n255\n{} {} {}\n", r, g, r, g, r);
            assert_eq!(text(&result), expected);
        }
    }
}

#[test]
fn test_encode_keeps_the_order_of_the_pixels() {
    let mut pixels = vec![];
    let mut expected = String::from("P3\n3 4\n255\n");
    for k in 0..12 {
        pixels.push(Pixel::from(k, k + 1, k + 2));
        expected.push_str(&format!("{} {} {}\n", k, k + 1, k + 2));
    }
    let result = RenderingResult { width: 3, height: 4, pixels };
    assert_eq!(text(&result), expected);
}

#[test]
fn test_encode_is_plain_ascii() {
    let result = RenderingResult {
        width: 1,
        height: 1,
        pixels: vec![Pixel::from(-128, 64, 255)],
    };
    let bytes = PPMWriter::new("out.ppm").encode(&result);
    assert!(bytes.iter().all(|b| b.is_ascii()));
    assert_eq!(bytes[0], b'P');
    assert_eq!(bytes[1], b'3');
    assert_eq!(bytes[2], b'\n');
    assert_eq!(*bytes.last().unwrap(), b'\n');
}
