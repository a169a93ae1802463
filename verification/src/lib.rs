pub mod utils;
pub mod memory;
pub mod bit;
pub mod registers;
pub mod cpu;
pub mod io;
pub mod ppu;
pub mod instructions;
pub mod window;
pub mod text;
