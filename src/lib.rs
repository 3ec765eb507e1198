//! A terminal line editor's core: a text buffer with cursor-addressed edits,
//! cursor movement over it, windows over a character screen, and the
//! controller that turns keys into edits and keeps the view on the cursor.

pub mod buf;
pub mod ed;
pub mod scr;
pub mod term;

pub use buf::{BufCursor, Buffer};
pub use ed::{BufEditor, Key};
pub use scr::{Position, Screen, Size, Window, WindowManager};
pub use term::cursor_goto;
