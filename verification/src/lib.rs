//! Mira: the decision logic of a Broadcast Box stream notifier.
//!
//! The library holds what the bot and its command line tool decide: which
//! callbacks a host worker runs, how stream summaries become statuses, how
//! STUN replies and H.264 access units are read, which messages a stream
//! change produces and how the interactive commands answer. The programs
//! around it perform the network, database and chat I/O.
pub mod broadcast_box;
pub mod cli;
pub mod codec;
pub mod commands;
pub mod datetime;
pub mod dispatcher;
pub mod error;
pub mod h264;
pub mod models;
pub mod notifier;
pub mod storage;
pub mod stun;
pub mod subscription;
pub mod templates;
pub mod text;
pub mod ids;
pub mod whep;
pub mod worker;
