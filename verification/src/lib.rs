//! Which-key style leader menus for tmux and kitty: argument parsing, key dispatch,
//! pickers with fuzzy filtering, command plans and pill layout.
pub mod text;
pub mod tmux;
pub mod fuzzy;
pub mod picker;
pub mod pills;
pub mod layout;
pub mod pick;
pub mod theme;
pub mod tmux_leader;
pub mod kitty;
