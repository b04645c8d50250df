//! The verified core of a voxel-game server: the wire codec and connection phases, the
//! per-player runtime state, and the reading of chunks out of region files.
pub mod chat;
pub mod chunk_format;
pub mod chunk_manager;
pub mod codec;
pub mod compression;
pub mod connection;
pub mod experience;
pub mod frame;
pub mod palette;
pub mod player;
pub mod region;
pub mod serverbound;
pub mod transport;
pub mod world_format;
