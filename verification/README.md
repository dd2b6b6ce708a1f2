# ternary_bridge

Bridges between the representations used by ternary subsystems, written in
Verus with every function's behaviour stated in its contract and proved.

- `ternary` — the trit type and its integer values.
- `bridge` — the `Bridge<A, B>` trait (`forward` / `backward`).
- `codec` — byte-per-trit, packed-nibble and text wire formats, with the
  formats stated as spec functions and both round trips proved.
- `protocol` — protocol messages ↔ oracle messages; forward numbers messages.
- `memory` — short-term ↔ long-term memory entries.
- `skill` — TypeScript ↔ Rust skill descriptors.
- `registry` — named bridge descriptions, modelled as a map.
- `error`, `text` — the error type and the decimal text used in its messages.
