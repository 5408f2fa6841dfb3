//! The core of a hex editor: a file held as bytes, an edit log that
//! survives the loss of what was not yet settled, a stack machine that
//! annotates the bytes around the cursor, and the arithmetic of the window
//! that shows them. Input, output and storage are the caller's; the
//! library says what each event makes of the session and what the caller
//! then has to draw and to store.

pub mod buffer;
pub mod bytes;
pub mod command;
pub mod config;
pub mod decode;
pub mod display;
pub mod file;
pub mod machine;
pub mod mouse;
pub mod row;
pub mod session;
pub mod structs;
pub mod text;
pub mod undo_file;
pub mod viewport;
mod vm;
