# stack_analyzer

Finds the entry points of an embedded ELF image and summarises their stack
use.

- `src/` is the verified library:
  - `namespace`: the crate namespace named by the image's path;
  - `debug_str`, `text`: strings of `.debug_str` and their UTF-8 decoding;
  - `dwarf_reader`: reading sections (`object`) and unit entries (`gimli`)
    into plain records, each namespace with its children as gimli's entry
    tree lists them;
  - `dwarf_model`: the rule that selects the exported functions declared
    in the crate's namespace;
  - `entry_filter`: removal of the runtime's `main` entry points (`regex`);
  - `elf_parser`: `ParseElf`, `ParsedElf` and `get_entry_points`;
  - `stack_usage`: the deepest stack use among the paths that symbolic
    execution explored;
  - `program1`: the sample firmware functions of the `program1` image.
- `app/main.rs` is the command-line tool: it reads the image, runs `symex`
  on each entry point and prints the results.
- `tests/` builds small ELF images with `gimli` and `object` and checks the
  library on them.
