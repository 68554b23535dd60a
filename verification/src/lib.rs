//! A small verified grid editor: a 5x5 character board with a clamped
//! cursor, a pure rendering plan, an event-driven editor state machine,
//! and a dictionary built from lines of text.

pub mod board;
pub mod dictionary;
pub mod editor;
pub mod render;

pub use board::Board;
pub use dictionary::Dictionary;
pub use editor::Editor;
pub use editor::Key;
pub use render::Piece;
