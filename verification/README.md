# ash_renderer

A Vulkan mesh renderer hosted in a Bevy app, whose decision logic is a
library verified with Verus.

- `src/` — the verified library: memory-type choice, buffer ledgers and
  host-access plans with atom-aligned flush ranges (`resources`), the bump
  pools and residency ledger (`pool`), the staging ring and timeline tickets
  (`uploader`), mesh byte layout (`mesh_convert`), upload planning for a
  scene snapshot (`upload`), device and queue-family choice (`context`),
  swapchain decisions (`swapchain`), the frame-slot cursor (`frames`), the
  resize gate of the frame loop (`host`), error-handling helpers (`syntax`)
  and the error type (`error`). Vulkan constants come from `ash`.
- `app/` — the program: Bevy plugins and systems, and the Vulkan calls made
  through `ash`, driven by the library's decisions.
- `tests/` — tests of the library on concrete values.
