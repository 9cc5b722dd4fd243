# pdcn_common

Host-side logic of a WebAssembly runtime for small devices, verified with Verus.

- `src/memory.rs` — a module's linear memory: bounded reads and writes.
- `src/host.rs` — the host functions a module imports (`copy`, `get_hash_size`,
  `hash`, `get_signature_size`, `sign`): name resolution, signatures and calls.
- `src/crypto.rs` — SHA-256 (through the `sha2` crate) and the signing
  interface a device supplies.
- `src/registry.rs` — module identities and the table of bundled modules.
- `src/define_text.rs` — the module table source that the build step writes.
- `src/fault.rs` — what the runtime does on a panic or a failed allocation.
- `app/` — the build step's file handling and the glue to `wasmi`,
  `embedded-hal` serial ports and timers.
