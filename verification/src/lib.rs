//! Core engine of a modal, keyboard-driven terminal text editor.
//!
//! The crate holds the verified heart of the editor: the text buffer with
//! undo, mark/selection and search, the visual-layout cache, the minibuffer
//! state machine, the hook and command registries, the key map with modifier
//! resolution, and the top-level controller that routes input, executes
//! commands and drives scrolling.  Terminal drawing, raw keyboard decoding,
//! the script interpreter and file-system access are left to the host
//! program, which talks to the core through plain values and the request
//! queues the controller exposes.

pub mod buffer;
pub mod command;
pub mod config;
pub mod edit;
pub mod dispatch;
pub mod editor;
pub mod events;
pub mod highlight;
pub mod hooks;
pub mod isearch;
pub mod keys;
pub mod laws;
pub mod layout;
pub mod metrics;
pub mod minibuffer;
pub mod motion;
pub mod persist;
pub mod prefix;
pub mod region;
pub mod scroll;
pub mod search;
pub mod status;
pub mod text;

pub use buffer::Buffer;
pub use editor::Editor;
pub use text::to_chars;
