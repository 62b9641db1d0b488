pub mod emu;
pub mod error;
pub mod font;
pub mod laws;
pub mod machine;
pub mod random;
pub mod sprite;
pub mod screen;
