//! The tmux leader: key tree, UI state, key dispatch, event handling and tmux command plans.
pub mod keynode;
pub mod keymap;
pub mod input;
pub mod state;
pub mod commands;
pub mod dispatch;
pub mod events;
