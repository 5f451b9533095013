//! Engine core for turn-based multiplayer games whose rules run as sandboxed
//! guest modules.
//!
//! A guest holds the rules of one game. It talks to its host through one blocking
//! call that carries a request out and a reply back, both JSON text. The host
//! seats a few players in a room, runs the guest, and decides for each request
//! whom to tell what; each player is reached over a channel that numbers and
//! acknowledges every message.
//!
//! - `player`, `wire`, `frame`: the values that travel, and how they are written
//!   and read.
//! - `channel`: the reliable channel, one step at a time.
//! - `room`, `session`: who sees the game, and what the host does with each
//!   request of the rules.
//! - `adapter`: the guest's memory on each call.
//! - `runtime`, `lobby`: the games a host offers, and who may take a seat.
//! - `guest`: what the rules of a game call.
//! - `agent`: a player's client, which runs the rules beside the host.
//! - `json`, `text`, `rng`, `sandbox`: the calls into other crates; `decimal`:
//!   numbers as text.
//!
//! Nothing here holds a connection or a file: every part says what is to be
//! sent, shown or awaited, and takes what came back as an argument.

pub mod adapter;
pub mod agent;
pub mod channel;
pub mod decimal;
pub mod frame;
pub mod guest;
pub mod json;
pub mod lobby;
pub mod player;
pub mod rng;
pub mod room;
pub mod runtime;
pub mod sandbox;
pub mod session;
pub mod text;
pub mod wire;
