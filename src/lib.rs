// Keyboard and mouse macros: the event model and its text format, the
// recorder that assembles a timeline, the player that schedules its replay,
// the key-name table, and the controller that drives recording and playback.
pub mod text;
pub mod events;
pub mod roundtrip;
pub mod keys;
pub mod recorder;
pub mod player;
pub mod controller;
