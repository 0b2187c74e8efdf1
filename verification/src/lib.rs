//! Recording orchestration for replay-driven gameplay capture.
//!
//! A game client writes a replay file while a match runs. This library
//! decides, from the file system events under the replay directory and from
//! the commands of the user, when a capture session starts and stops, which
//! window it records and where the video is written. Every function is stated
//! by contract and proved against it.
//!
//! The parts, from the leaves up:
//!
//! - [`text`], [`paths`], [`slippi_paths`]: characters, file names and the
//!   video path that belongs to a replay.
//! - [`quality`], [`error`], [`settings`], [`target`]: the values that the
//!   engine decides by.
//! - [`recorder`], [`mock`]: the capture session and its stand-in.
//! - [`window`], [`resolve`], [`preview`]: the windows of the desktop, the
//!   choice among them, and the preview picture of the chosen one.
//! - [`detector`]: file system events turned into signals.
//! - [`app_state`]: the shared state and the rules that move it.
//! - [`replay`], [`events`], [`recordings`]: what a replay tells about its
//!   game, and the list of recordings.
//! - [`audio`]: the chunks in which captured audio reaches the encoder.

pub mod app_state;
pub mod audio;
pub mod detector;
pub mod error;
pub mod events;
pub mod mock;
pub mod paths;
pub mod preview;
pub mod quality;
pub mod recorder;
pub mod recordings;
pub mod replay;
pub mod resolve;
pub mod settings;
pub mod slippi_paths;
pub mod target;
pub mod text;
pub mod window;
