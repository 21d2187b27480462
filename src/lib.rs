//! A terminal mail reader's core: the pane/view state machine, the lazily
//! loaded folder tree, and the pieces the live mirror reads.
pub mod app;
pub mod email;
pub mod folder;
pub mod folder_list;
pub mod input;
pub mod mirror;
pub mod scanner;
pub mod store;
pub mod text;
pub mod view;
