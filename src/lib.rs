//! Authoritative state and decision logic of a real-time multiplayer session
//! server: the session store of players, the registry of live connections,
//! broadcast fan-out, the per-connection envelope state machine and the
//! server supervisor's start/stop lifecycle.
pub mod player;
pub mod store;
pub mod registry;
pub mod lobby;
pub mod envelope;
pub mod connection;
pub mod text;
pub mod supervisor;
