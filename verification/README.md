# gbc

A Game Boy emulator core whose logic is verified with Verus.

- `src/` is the verified library:
  - `utils/bit.rs`, `bit.rs`: bit access, masks and carry/borrow tests.
  - `memory.rs`: the 64 KiB address space with its address and data lines,
    bank views, snapshots (`state`/`load_state`) and the buses.
  - `registers.rs`: a labelled 16-bit register with byte access.
  - `instructions.rs` and `cpu.rs`: an instruction decoder and a processor
    that runs one decoded instruction at a time.
  - `cpu/instr.rs`, `cpu/cpu.rs`, `cpu/exec.rs`: a decoder into machine-cycle
    steps and a processor that runs them one machine cycle (`tick`) at a time.
  - `io.rs`: interrupt registers, the divider and the timer control register.
  - `ppu/ppu.rs`: colors, palettes, tiles and background drawing.
  - `window.rs`, `text.rs`: window sizes and the text of numbers.
- `app/` runs a ROM in SDL2 windows; it also holds the JSON forms of the
  recorded processor cases and the error types with messages.
- `tests/` exercises the library on concrete values.
