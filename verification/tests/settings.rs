use raytracing_weekend::{ConfigError, ImageSettings};

#[test]
fn test_default_image_size() {
    let image: ImageSettings = Default::default();
    assert_eq!(image.width, 720);
    assert_eq!(image.height, 576);
}

#[test]
fn test_validate_accepts_a_size_with_pixels() {
    assert_eq!(ImageSettings { width: 1, height: 1 }.validate(), Ok(()));
    assert_eq!(ImageSettings { width: 400, height: 280 }.validate(), Ok(()));
    assert_eq!(ImageSettings { width: i32::MAX, height: i32::MAX }.validate(), Ok(()));
}

#[test]
fn test_validate_refuses_a_width_that_is_not_positive() {
    assert_eq!(
        ImageSettings { width: 0, height: 10 }.validate(),
        Err(ConfigError::NonPositiveWidth)
    );
    assert_eq!(
        ImageSettings { width: -3, height: 10 }.validate(),
        Err(ConfigError::NonPositiveWidth)
    );
}

#[test]
fn test_validate_refuses_a_height_that_is_not_positive() {
    assert_eq!(
        ImageSettings { width: 10, height: 0 }.validate(),
        Err(ConfigError::NonPositiveHeight)
    );
    assert_eq!(
        ImageSettings { width: 10, height: i32::MIN }.validate(),
        Err(ConfigError::NonPositiveHeight)
    );
}

#[test]
fn test_validate_names_the_width_first() {
    assert_eq!(
        ImageSettings { width: 0, height: 0 }.validate(),
        Err(ConfigError::NonPositiveWidth)
    );
}
