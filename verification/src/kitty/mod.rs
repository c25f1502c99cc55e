//! The kitty leader: the `kitten @ ls` model, the key tree, UI state, event handling and
//! the `kitten @` commands of each action.
pub mod model;
pub mod keymap;
pub mod state;
pub mod commands;
pub mod events;
