pub mod csv;
pub mod tui;
