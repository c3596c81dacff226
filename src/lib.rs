//! Renders video frames as ASCII art: frames are tagged in decode order,
//! converted to grayscale at a fixed size, reordered after parallel
//! conversion and mapped onto a ramp of characters.

pub mod ascii;
pub mod frame;
pub mod pipeline;
pub mod transform;

pub use ascii::{convert_image_to_ascii_line, convert_pixel, CLEAR_SCREEN, RAMP};
pub use frame::{DecodedFrame, Image, RawFrame, Video};
pub use transform::{transform, transform_fits};
pub use pipeline::{collect_results, FrameCoordinator};
