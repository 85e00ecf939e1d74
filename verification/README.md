# pulseseek

The backend core of PulseSeek, an audio browser and player, written in Verus.

- `src/` is the verified library: the command boundary and its routing, the
  playback control handshakes and the producer's counters and decisions, the
  analysis lanes, event runtime, capture and FFT-bank bookkeeping, the
  visualization framing, session registries, mount and root handling, log
  retention, file-watcher decisions and folder-entry conversion. Public
  functions state their behaviour in `requires`/`ensures`; where a command
  handler drives a service given by a trait, the trait names what the
  service may answer (`answers`, `reports_lost`, `trashes`) and the handler
  states its result in those terms, exactly for the services the library
  itself provides. The laws that span several operations are public proof
  functions named `law_*`.
- `app/` is ordinary Rust around the library: JSON envelopes, threads and
  lock-free queues, file-system and process I/O, logging, and the
  floating-point signal processing (FFT, resampling, mixing).
- `tests/` exercises the library from outside.
