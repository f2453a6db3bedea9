//! Frame delivery and YUYV (packed 4:2:2) to RGB pixel conversion for a webcam viewer.

pub mod pixel;
pub mod color_converter;
pub mod frame;

pub use color_converter::yuv422_to_rgb24;
pub use color_converter::yuv422_to_rgb32;
pub use color_converter::yuv422_to_rgba8;
pub use color_converter::ConvertError;
pub use frame::FrameChannel;
pub use frame::UserEvent;
