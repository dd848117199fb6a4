//! Event routing and wire protocol for a multi-device input hub.
//!
//! Physical input devices feed streams of raw events; each stream is cut
//! into synchronization-delimited batches, and every batch is handed to the
//! sink that is currently selected, either a local virtual device or a
//! serial link to a remote peer. For the serial path the events travel in a
//! compact, self-synchronizing wire format.

pub mod capture;
pub mod codec;
pub mod events;
pub mod selector;
pub mod sink;
pub mod stream;

pub use events::InputEvent;
pub use events::InputEventKind;
