//! A verified virtual Ethernet bridge: a software switch that connects
//! virtual machine guests at the link layer.
//!
//! The crate models frames as owned byte buffers, parses Ethernet II,
//! IPv4 and TCP headers, repairs TCP checksums that virtualized network
//! stacks leave incorrect, and routes each frame either to the egress
//! queue of the member owning the destination address or to a broadcast
//! channel fanned out to every subscriber.

pub mod bridge;
pub mod checksum;
pub mod event;
pub mod frame;
pub mod laws;
pub mod wire;

pub use bridge::BridgeError;
pub use bridge::BROADCAST_QUEUE_LEN;
pub use bridge::FROM_BRIDGE_QUEUE_LEN;
pub use bridge::TO_BRIDGE_QUEUE_LEN;
pub use bridge::BroadcastRecv;
pub use bridge::SubmitOutcome;
pub use bridge::VirtualBridge;
pub use checksum::internet_checksum;
pub use event::DaemonEvent;
pub use event::DaemonEventGenerator;
pub use event::GuestInfo;
pub use frame::process_frame;
pub use frame::DropReason;
pub use frame::FrameAction;
pub use wire::mac_is_multicast;
