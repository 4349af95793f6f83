//! The logic of a small x86 kernel: the descriptor table encoding, the
//! keyboard's scancode table, four scrolling text terminals, the shell's
//! input line and commands, and hex dumps of memory, each with its
//! contract. The hardware access around them (ports, VGA memory, registers)
//! is not part of this crate.
pub mod fixed_string;
pub mod gdt;
pub mod kb_scancodes;
pub mod microshell;
pub mod parse;
pub mod screen;
pub mod stack_dump;
