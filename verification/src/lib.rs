//! Text I/O core of a framebuffer console: a character-cell renderer over a
//! pixel surface, a single-slot key-event mailbox, and a line editor that
//! consumes mailbox events and echoes through the renderer.

use vstd::prelude::*;

pub mod font;
pub mod writer;
pub mod mailbox;
pub mod editor;
pub mod tree;

verus! {

/// Width in pixels of every rasterized glyph cell (the font is monospaced).
pub const GLYPH_WIDTH: usize = 7;

/// Height in pixels of every rasterized glyph cell.
pub const GLYPH_HEIGHT: usize = 16;

/// Additional vertical space between lines.
pub const LINE_SPACING: usize = 2;

/// Additional horizontal space between characters.
pub const LETTER_SPACING: usize = 0;

/// Padding from the border, so that text never touches the physical edge.
pub const BORDER_PADDING: usize = 2;

/// The backspace control character: erases one glyph cell leftward.
pub const BACKSPACE: char = '\u{0008}';

/// Drawn in place of a character that the font does not know.
pub const BACKUP_CHAR: char = '\u{FFFD}';

/// Cancels line input: the line editor discards the buffer and reports no result.
pub const CANCEL_CHAR: char = '\u{000A}';

/// Ends line input: the line editor hands the accumulated buffer to the caller.
pub const LINE_TERMINATOR: char = '\u{000D}';

} // verus!
