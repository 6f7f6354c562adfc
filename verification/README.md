# engine_core

A deterministic falling-block engine written in Verus: the bitboard, pieces and
SRS+ rotation, reachability search, spins, timing and input handling, game and
frame-session state, TETR.IO rules profiles, score-free versus rules (attack
terms, packets, cancellation, garbage insertion), the two-player session by
shared frame and by placement (lock, attack, cancel, same-frame zero
passthrough, garbage travel and insertion at the lock boundary, spawn, round
result), its snapshots and per-player candidate features, a frame session
that can stop at a lock so garbage rises before the next spawn, a solo
rollout with the teacher, afterstate features and the linear teacher, solo dataset records, a closed-loop solo
batch, reference-trace comparison and functional conformance, normalized
fixture checking, and the manual playground's state machine. The library's
functions carry contracts that Verus proves; the SHA-256 digest is the one
call into an outside crate, and its contract is trusted.

Not included: driving the two-player session from raw input edges (a frame
takes each player's lock, if any, as a chosen afterstate), and the
human-versus-model and batched self-play tools built on it.

Layout:

- `src/` — the verified library, one module per subject.
- `tests/` — ordinary Rust tests of the library.
- `app/` — the command-line program: dataset files (gzip JSON lines), the
  playground HTTP server, JSON fixture parsing, and the garbage multiplier in
  floating point, which scales each frame's or placement step's attack terms
  between the two halves of the step, and a self-play command.
