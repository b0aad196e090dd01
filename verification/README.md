# rvi

Pieces of a vi-compatible text editor, written in Verus: the buffer model
and cursor positions, registers, undo history, key notation and mappings,
the keys of normal, insert, visual and operator-pending mode that need no
multi-key parsing (with the word motion `w`),
the ex commands (as parsed commands), line operators (`dd`, `yy`, `>>`,
`gUU`, ...), the line-range ex commands, put and yank, visual-mode
operators, jumps and marks, scrolling, reflow, file encoding (BOM, line
endings, UTF-8) and the crash-recovery file names. Every function in `src/`
carries a contract that Verus checks; laws relating functions (undo after an
edit, key and notation round trips, write-then-read, map/unmap, jump back
and forth, line-ending normalization) are proof functions in the modules
they speak of.

Work that needs the file system, a shell or the terminal is not done in the
library: its functions hand it back to the caller as an outcome (a write to
make, a file to read, a prompt to open), and take the result as an argument.
Multi-key command parsing and counts, the word motions other than `w`, motions
for operators, text objects, search and substitution, and tags are not part
of this crate.

- `src/` — the verified library.
- `tests/` — tests that run the library.
- `app/` — the command-line program: argument handling and file I/O around
  the library.
