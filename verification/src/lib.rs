//! Verified core of a single-camera HTTP server: JPEG frame extraction from a
//! raw MJPEG byte stream, arbitration between one-shot capture and continuous
//! streaming of one exclusive camera, and configuration handling.

pub mod config;
pub mod digits;
pub mod frame;
pub mod mjpeg;
pub mod session;

pub use config::CameraConfig;
pub use config::Config;
pub use config::ServerConfig;
pub use frame::FrameExtractor;
pub use session::CameraError;
pub use session::CameraManager;
