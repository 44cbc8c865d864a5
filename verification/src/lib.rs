//! The session protocol of a voxel game, and the world data that its client
//! draws.
//!
//! The protocol part is the packet codec ([`packet`], over [`wire`]), the
//! handshake of both peers ([`handshake`], [`client`]), the accept loop's
//! decisions ([`acceptor`]) and the server actor with its table of sessions
//! ([`server`], [`session`]). The modules whose names end in `_laws` hold
//! what is proved of them for all inputs.
//!
//! The world part is the blocks ([`block`]), the chunk ([`chunk`]), its mesh
//! ([`mesh`], [`vertex`]), the texture atlas ([`atlas`]) and the movement
//! keys ([`key_state`]).
//!
//! Nothing here waits, reads a file or touches a socket. The caller moves
//! the bytes and hands in what happened as plain values.

pub mod acceptor;
pub mod atlas;
pub mod block;
pub mod chunk;
pub mod client;
pub mod config;
pub mod handshake;
pub mod handshake_laws;
pub mod key_state;
pub mod mesh;
pub mod packet;
pub mod packet_laws;
pub mod server;
pub mod server_laws;
pub mod session;
pub mod vertex;
pub mod wire;
