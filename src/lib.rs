//! Values and links of the two lowest layers of a network simulator: fixed
//! width addresses, link-layer and physical-layer frames, and a point-to-point
//! cable that relays frames between its two endpoints.
pub mod ethernet_cable;
pub mod ethernet_frame;
pub mod ipv4_address;
pub mod ipv6_address;
pub mod mac_address;
pub mod physical_layer_frame;
mod random;
pub mod text;

pub use ethernet_cable::{Endpoint, EthernetCable, EthernetCableState, FrameLog, FrameReceiver};
pub use ethernet_frame::EthernetFrame;
pub use ipv4_address::IPv4Address;
pub use ipv6_address::IPv6Address;
pub use mac_address::MacAddress;
pub use physical_layer_frame::PhysicalLayerFrame;
