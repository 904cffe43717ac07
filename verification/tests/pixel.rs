use raytracing_weekend::Pixel;

#[test]
fn test_pixel_from_keeps_channels() {
    let p = Pixel::from(1, 2, 3);
    assert_eq!(p.r(), 1);
    assert_eq!(p.g(), 2);
    assert_eq!(p.b(), 3);
}

#[test]
fn test_pixel_from_keeps_any_number() {
    let p = Pixel::from(-7, 300, i32::MAX);
    assert_eq!(p.r(), -7);
    assert_eq!(p.g(), 300);
    assert_eq!(p.b(), i32::MAX);
}

#[test]
fn test_pixel_new_is_black() {
    let p = Pixel::new();
    assert_eq!(p.r(), 0);
    assert_eq!(p.g(), 0);
    assert_eq!(p.b(), 0);
    assert_eq!(p, Pixel::from(0, 0, 0));
}

#[test]
fn test_pixel_is_copied() {
    let p = Pixel::from(9, 8, 7);
    let q = p;
    assert_eq!(p, q);
    assert_ne!(q, Pixel::from(7, 8, 9));
}
