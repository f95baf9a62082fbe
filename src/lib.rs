//! Frame pipeline for addressable WS2812-family LED strings: colour model,
//! pulse encoding, per-channel frame buffers and network ingestion.

pub mod color;
pub mod error;
pub mod frame;
pub mod ingest;
pub mod pulse;
pub mod shared;

pub use color::Rgb;
pub use error::{LedError, PacketFault};
pub use frame::FrameBuffer;
pub use ingest::{
    admit_control_body, control_status, parse_lighting_frame, rainbow_pixels, ControlRequest,
    FrameReport, LightingFrame,
};
pub use pulse::{encode_waveform, PinLevel, Pulse, PulsePair, TimingProfile};
pub use shared::SharedFrame;
