//! Client-side codec and session logic for the LIFX LAN protocol.
//!
//! Messages travel as UDP datagrams: a fixed 36-byte header followed by a
//! payload whose layout is selected by the type code in the header. All
//! integers are little-endian.
//!
//! The `wire` and `text` modules say what the bytes of a number and of a
//! string are, `serialize` holds the byte-level codec, `header`, `payload`
//! and `message` the wire format, and `client` the session: the devices
//! found so far and what each datagram does to them.

pub mod client;
pub mod header;
pub mod message;
pub mod payload;
pub mod serialize;
pub mod text;
pub mod wire;

pub use client::Bulb;
pub use client::Client;
pub use client::DiscoverOptions;
pub use header::Header;
pub use message::Message;
pub use payload::Color;
pub use payload::Device;
pub use payload::Light;
pub use payload::Payload;
pub use payload::Power;
pub use payload::Service;
pub use payload::HSBK;
pub use payload::MAX_BRIGHTNESS;
