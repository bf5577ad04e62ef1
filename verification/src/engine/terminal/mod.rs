pub mod ascii;
pub mod color;

pub use ascii::AsciiTerminal;
pub use color::ColorTerminal;
