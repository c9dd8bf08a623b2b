//! World representation and wire protocol of a voxel multiplayer game.
//!
//! The crate holds the chunk store with its run-length compression, the
//! face-culling mesh builder, the packet codec, and the decision functions of
//! the server and client loops. Sockets, threads and rendering live outside.

pub mod chunk;
pub mod connection;
pub mod contents;
pub mod items;
pub mod mesh;
pub mod packets;
pub mod player_data;
pub mod server;
pub mod transport;
pub mod wire;
pub mod world;
