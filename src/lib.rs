//! A client library for the niri compositor's IPC socket: the window
//! registry, the decoding of event-stream lines, the correlation of a spawn
//! request with the window it creates, and the encoding of actions.
pub mod action;
pub mod drive;
pub mod events;
pub mod json;
pub mod laws;
pub mod registry;
pub mod session;

pub use action::{Action, Arg, ColumnMode, LayoutTarget, WorkspaceRef};
pub use drive::{Bootstrap, SpawnWait};
pub use events::{same_text, window_record_of};
pub use json::Json;
pub use registry::Registry;
pub use session::{spawn_action, split_words, white_space, App, SpawnProgress, StreamRead};
