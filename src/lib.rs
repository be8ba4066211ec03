//! A terminal rendering core: a cell grid, the diff between two grids, and a
//! double-buffered terminal that plays that diff against a backend.
//!
//! - `layout`: positions, sizes and rectangles.
//! - `style`: colors, modifiers and styles.
//! - `buffer`: cells, buffers, and the diff between two buffers with its laws.
//! - `backend`: the capability a terminal draws through.
//! - `terminal`: the double-buffered terminal and the viewport geometry.
//! - `commands`: the terminal commands that draw a list of updates.
//! - `test_backend`: an in-memory screen.
//! - `masked`, `sparkline`: two small widgets.
pub mod layout;
pub mod style;
pub mod buffer;
pub mod backend;
pub mod terminal;
pub mod commands;
pub mod test_backend;
pub mod masked;
pub mod sparkline;
mod strings;
