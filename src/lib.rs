pub mod ansi;
pub mod bochs;
pub mod dom;
pub mod gfx;
pub mod io;
pub mod laws;
pub mod pci;
pub mod pic;
pub mod registry;
pub mod schema;
pub mod sys;
pub mod tables;
pub mod video;
