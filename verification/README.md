# A verified hobby kernel

A small 32-bit x86 kernel whose logic is verified with Verus.

- `src/` is the verified library:
  - `gdt`: segment flag helpers, access constants, descriptor encoding;
  - `kb_scancodes`: the scancode set 1 table and what each key press does;
  - `screen`: four terminals with a scroll-back of four screens, writing,
    scrolling, clearing, and the terminal switch command;
  - `microshell`: the editable input line, its cells and hardware cursor,
    and the commands it runs;
  - `parse`: splitting a line into words and reading decimal numbers;
  - `stack_dump`: hex dump lines of memory;
  - `fixed_string`: a byte string of fixed capacity.
- `app/` is the kernel around it: port I/O, VGA memory, the GDT in memory,
  registers, the global state, logging macros and the main loop.
- `tests/` runs the library on concrete values.
