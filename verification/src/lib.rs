//! A small terminal text editor: the line buffer, the undo history and the
//! editing and cursor rules, with their contracts.
pub mod buffer;
pub mod edit_laws;
pub mod editor;
pub mod terminal;
pub mod text;
pub mod undoredo;
pub mod view;

pub use buffer::Buffer;
pub use editor::{Action, Editor, Event, KeyCode, Modifiers};
pub use terminal::Size;
pub use undoredo::{ChangeType, TextChange, UndoRedo, UndoType};
pub use view::View;
