# hocket_store

Verified core of Hocket's project storage and of Strophe's host and view
decisions, written in Verus.

- `src/project_store.rs`: entry names (`manifest.cbor`, `media/<hash>.wav`)
  and the save and load runs. A run is a chain of steps; the host performs
  the backend read, the WAV coding or the hashing a step asks for and hands
  the outcome to the next step. Laws on the write batch and on the missing
  media of a load are proved here.
- `src/media_ref.rs`: 32-byte content references, their lexicographic order
  and the ordered reference set of a manifest.
- `src/media_format.rs`: the stored WAV format and the header check a blob
  passes before its samples are read (through `hound`).
- `src/error.rs`: the store's failures and their messages.
- `src/identity.rs`, `src/view.rs`, `src/host.rs`: the identity fingerprint
  and data-root choice, surface labels and strip text, and the desktop
  host's layout decisions.
- `src/text.rs`: hex and decimal rendering with exact views.
- `app/`: the async driver over a `muniment` backend, float-sample WAV
  coding, and the `personae`-backed local identity.
