pub mod editor;
pub mod gap_buffer;
pub mod laws;

pub use editor::{Line, MainApp};
pub use gap_buffer::{GapBuffer, GapBufferIterator};
