# spell-framework Wayland adapter core

The decisions of a layer-shell window and its XDG popups, verified with
Verus. Each decision is a function from plain values (sizes, flags, protocol
object ids, what the compositor reported) to the requests that the event
loop sends.

- `src/wayland_adapter/window.rs`: the `wl_surface` requests shared by
  windows and popups.
- `src/wayland_adapter/window/internal.rs`: window frames, layer-surface
  configuration and anchors, available monitors, popup placement, and the
  log-filter command file.
- `src/wayland_adapter/window/popup.rs`: `PopupManager`, which keeps the
  open popups under fresh ids, and `SpellXDGPopup`.
- `src/wayland_adapter/window/wayland.rs`: which input device to create or
  release when a seat gains or loses a capability.
- `app/`: the glue that carries the requests out with smithay-client-toolkit,
  calloop, slint and tracing-subscriber.
