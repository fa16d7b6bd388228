//! Core of a single-document text editor: a line buffer with a cursor,
//! a session state machine tying buffer, file path, dirty flag and pending
//! file operations together, and the pure decision logic of the asynchronous
//! file access service. All file and dialog I/O is performed by the host
//! around this crate; the core only decides and records.

pub mod buffer;
pub mod error;
pub mod service;
pub mod session;

pub use buffer::Buffer;
pub use buffer::EditAction;
pub use buffer::Motion;
pub use error::Error;
pub use error::IoErrorKind;
pub use service::SaveStep;
pub use service::default_file;
pub use session::Appearance;
pub use session::Command;
pub use session::Event;
pub use session::HighlightTheme;
pub use session::Pending;
pub use session::Session;
