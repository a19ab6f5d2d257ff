//! RSCube: the protocol logic of a Minecraft Classic server, with its
//! contracts proved by Verus.
//!
//! The library computes: it parses the packets a client sends, builds the
//! packets the server answers with, keeps the state of the connected players
//! and of the world, and reads and writes the gzipped world file.  Sockets,
//! files and threads belong to the program around it.

pub mod wire;
pub mod text;
pub mod compress;
pub mod client;
pub mod server;
pub mod protocol;
pub mod outgoing;
pub mod dispatch;
