pub mod boot;
pub mod console;
pub mod display;
pub mod font;
pub mod gdt;
pub mod interrupts;
pub mod keyboard;
