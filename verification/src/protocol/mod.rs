//! The packets of the Minecraft Classic protocol and of its classic protocol
//! extension (CPE) handshake.

pub mod client_cpe_packets;
pub mod client_packets;
pub mod server_cpe_packets;
pub mod server_packets;
