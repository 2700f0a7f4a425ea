//! Looks up `.gitignore` templates by name or alias, and offers inline hints
//! while the names are typed at a prompt.

pub mod alias;
pub mod args;
pub mod catalog;
pub mod output;
pub mod resolve;
pub mod simpline;
pub mod text;
