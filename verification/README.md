# rs-smarttcp

Adaptive network control and host-protection building blocks: WAN line and
router settings, WiFi channel labels, adapter detection output parsing,
multi-path bookkeeping, a streaming bandwidth cap, download scanning
decisions, removable-drive tracking, a write-ahead log record format, an
AEAD channel with replay protection, and local TLS inspection certificates.

## Layout

- `src/` is the library, written in Verus. The verified functions state
  what they return in `requires`/`ensures` contracts, and the properties
  that span several calls (for example that a log reads back what was
  appended, or that a replayed frame is refused) are stated as public proof
  functions next to the code they are about. Calls into chacha20poly1305,
  rand, rcgen and ring (key generation, where rcgen's own call could panic)
  go through small trusted wrappers: Verus believes their contracts
  without proof, some of them promise nothing of their result, and each
  doc comment says what is assumed.
- `tests/` runs the library on concrete values.
- `app/` is ordinary Rust around the library: the RTT statistics in
  floating point, the simulated-bifurcation path search, PowerShell and
  scanner processes, files, and threads. It hands plain values to the
  library and acts on what comes back.

Verify with `verus src/lib.rs --crate-type lib` (with the outside crates on
the library path).
