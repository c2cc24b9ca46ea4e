pub mod bytes;
pub mod gopher;
pub mod lemmas;
pub mod menu;
pub mod page;
pub mod render;
pub mod status;
pub mod term;
pub mod ui;
