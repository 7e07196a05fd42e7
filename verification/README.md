# intel4004

An Intel 4004 emulator whose instruction set is verified with Verus.

- `src/machine.rs`: the mathematical model of the machine state (4-bit
  registers and accumulator, carry bit, 12-bit program counter, three-level
  stack, RAM and ROM ports) and of each instruction, and `execution`, the run
  from address 0 up to a limit on the number of ROM words executed.
- `src/i4004emu.rs`: the `CPU` type; `execute` and `try_execute` run the ROM,
  proved to compute `execution`.
- `src/fileio.rs`: settings types, the ROM image text format (hexadecimal
  bytes separated by spaces or line feeds) and the state snapshot.
- `src/separator.rs`: the trusted interface to the `regex` crate.
- `src/laws.rs`: properties proved of every state.
- `app/`: the program: reads `config/settings.toml` and the ROM file, runs
  (printing the byte each FIM loads), and writes the snapshot files at the
  paths `CPU::snapshot_path` gives (`<cycle count>_<pc>.log`).
