//! What a caller fixes before rendering: the image size and the sampling mode.
use vstd::prelude::*;

verus! {

/// How many samples a pixel gets.
#[allow(non_camel_case_types)]
pub enum Antialiasing {
    /// Several jittered samples for each pixel, averaged.
    MSAA { samples_per_pixel: i32 },
    /// One sample for each pixel.
    NONE,
}

/// The size of the image in pixels.
pub struct ImageSettings {
    pub width: i32,
    pub height: i32,
}

/// Why a configuration is refused before any rendering work begins.
#[derive(Copy, Clone, Debug, PartialEq, Eq, Structural)]
pub enum ConfigError {
    /// The width is zero or negative.
    NonPositiveWidth,
    /// The height is zero or negative.
    NonPositiveHeight,
}

impl ImageSettings {
    /// An image has at least one column and one row.
    pub open spec fn valid(&self) -> bool {
        self.width > 0 && self.height > 0
    }

    /// Accepts the size of an image, or names what is wrong with it; of two
    /// faults the one of the width is named.
    pub fn validate(&self) -> (res: Result<(), ConfigError>)
        ensures
            self.valid() <==> res is Ok,
            self.width <= 0 <==> res == Err::<(), ConfigError>(ConfigError::NonPositiveWidth),
            self.width > 0 && self.height <= 0 <==> res == Err::<(), ConfigError>(
                ConfigError::NonPositiveHeight,
            ),
    {
        if self.width <= 0 {
            Err(ConfigError::NonPositiveWidth)
        } else if self.height <= 0 {
            Err(ConfigError::NonPositiveHeight)
        } else {
            Ok(())
        }
    }
}

impl Default for ImageSettings {
    /// 720 columns and 576 rows.
    fn default() -> (settings: Self)
        ensures
            settings.width == 720,
            settings.height == 576,
    {
        Self { width: 720, height: 576 }
    }
}

} // verus!
