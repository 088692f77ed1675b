//! Client-side decoding for a line-oriented, text-based music-player-daemon
//! protocol: the grammar that splits raw response lines into key/value pairs,
//! the structured `ACK` error decoder, the typed entity decoders (song,
//! status, statistics, output, playlist, plugin, mount, neighbor, channel
//! message), command serialization, and the idle/notification state machine.
//!
//! Every decoder's contract pins its result to a specification function of
//! the raw text alone, so a response decodes the same way every time it is
//! replayed. The transport itself — sockets, buffering, blocking reads —
//! lives outside the library; callers hand in whole lines and take typed
//! records or structured errors back.

pub mod command;
pub mod error;
pub mod idle;
pub mod message;
pub mod mount;
pub mod output;
pub mod playlist;
pub mod plugin;
pub mod record;
pub mod response;
pub mod song;
pub mod stats;
pub mod status;
pub mod text;

pub use error::{AckError, Error, MisuseError, ParseError, ProtoError};
pub use idle::{IdleController, IdleState, Subsystem};
pub use message::{Channel, Message};
pub use mount::{Mount, Neighbor};
pub use output::Output;
pub use playlist::Playlist;
pub use plugin::Plugin;
pub use song::{Id, QueuePlace, Range, Song};
pub use stats::Stats;
pub use status::{AudioFormat, ReplayGain, State, Status};
