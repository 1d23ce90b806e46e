//! Finds the entry points of an embedded ELF image from its DWARF debugging
//! information, and summarises the stack use that symbolic execution
//! reports for an entry point.
use vstd::prelude::*;

pub mod debug_str;
pub mod dwarf_model;
pub mod dwarf_reader;
pub mod elf_parser;
pub mod entry_filter;
pub mod namespace;
pub mod program1;
pub mod stack_usage;
pub mod text;

pub use elf_parser::{get_entry_points, get_subprograms_in_namespace, ParseElf, ParsedElf};
pub use stack_usage::{analyze_path_results, ParsedEntryPoint, PathResult};

verus! {
} // verus!
