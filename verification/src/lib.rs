//! Verified core of the spell shell framework's Wayland adapter: the
//! decisions that a layer-shell window and its popups take on every frame,
//! configure and seat event, expressed as plain requests that the event loop
//! carries out against the compositor.
pub mod wayland_adapter;
