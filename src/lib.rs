//! Discovery and wire decoding for networked LED controllers that announce
//! themselves with a fixed-size status header over UDP.
mod byte_order;
pub mod codec;
pub mod device;
pub mod discovery;
pub mod pixels;

pub use codec::{parse_header, DecodeError};
pub use device::{BaseHeader, DeviceHeader, DeviceType, PixelPusherHeader};
pub use discovery::{filter_by_type, DiscoverySession, Observation, Step};
pub use pixels::{Color, PixelError, PixelPusher};
