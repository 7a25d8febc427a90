# chalice8

A CHIP-8 machine with its behaviour stated and proved in Verus.

- `src/parser.rs`: opcode decoding (`decode`) and the keyboard-to-keypad map.
- `src/machine/mod.rs`: the machine state and its view, loading, fetching,
  cycling, keys, timers and the random number generator.
- `src/machine/execute.rs`: what each instruction does (`step`) and when it
  cannot be executed (`op_fault`).
- `src/frontend.rs`: the tone decision of the front end.
- `src/laws.rs`: properties that span several operations (sprite XOR,
  collisions, call/return, store/load, decimal digits, font glyphs, waiting
  for a key, timers).
- `app/`: the window (iced), speaker (rodio), clock and file reading.
