# avicore

The skill layer of the Avi voice assistant: skill manifests and
configuration, the script library installer, intent routing, the user
record, and the helper functions that skill scripts call (strings, JSON
paths, slots, arrays, translations, hashing, durations).

- `src/` is the library, verified with Verus. Each public function states
  its result in its `ensures`; where a result comes from the clock, from
  randomness or from the environment (timestamps, user ids, the data
  directory), only what holds of every outcome is stated. The `law_*` proof
  functions state what holds across calls (reading back a written path,
  installing twice, joining a split text, and so on).
- `tests/` runs the library on concrete values.
- `app/` is the runtime around it: file and YAML/JSON reading and writing,
  the shared user record behind an async lock, the fallback registry and
  the terminal output.
