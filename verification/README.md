# gbemu

A Game Boy (DMG) emulator core whose logic is verified with Verus.

- `src/cpu.rs` and `src/cpu/`: the SM83 CPU, stepped one machine cycle at a
  time. `semantics.rs` states what each machine cycle does as spec functions
  (the decode table, every operation, interrupt dispatch, fetch);
  `decode.rs`, `execute.rs` and `machine.rs` implement it and are proved
  against those statements; `registers.rs` holds the register file;
  `laws.rs` proves what whole instructions and operations add up to (ALU
  and register loads in one cycle, PUSH/POP, CALL/RET, JP, INC/DEC, 16-bit
  additions, stores and loads through HL, interrupt dispatch, and facts
  about the opcode table).
- `src/context.rs`: interrupts, the timer, the I/O registers, the `Memory`
  interface the CPU runs against, a flat 64 KiB memory and the Game Boy
  memory bus.
- `src/ppu.rs` and `src/ppu/`: LCD registers, VRAM, OAM, and the pixel
  processing unit's OAM scan and pixel transfer; its queues come from the
  `array_deque` crate behind the specifications in `queues.rs`.
- `src/opcode.rs`: the opcode table and how an opcode is written in a
  listing.
- `src/system.rs`: the dot clock that the CPU and the PPU share, and when a
  frame is ready to show.
- `app/`: the window (iced), the opcode table's JSON form (serde), and a
  wall-clock pacer.
