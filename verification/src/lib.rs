pub mod app;
pub mod git;
pub mod text;
pub mod order;
pub mod path;
pub mod keybind;
pub mod tui;
pub mod theme;
