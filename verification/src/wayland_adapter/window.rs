//! Requests that the adapter sends to a Wayland surface, shared by the
//! layer-shell window and its popups.
pub mod internal;
pub mod popup;
pub mod wayland;

use vstd::prelude::*;

verus! {

/// One request on a `wl_surface`, in the order in which it is to be sent.
#[derive(Debug, Clone, Copy, PartialEq, Eq, Structural)]
pub enum SurfaceRequest {
    /// `wl_surface.damage_buffer(x, y, width, height)`.
    DamageBuffer { x: i32, y: i32, width: i32, height: i32 },
    /// `wl_surface.attach(buffer, 0, 0)` with the adapter's current buffer.
    AttachBuffer,
    /// `wl_surface.frame(..)`: ask for the next frame callback.
    Frame,
    /// `wl_surface.commit()`.
    Commit,
}

/// The damage that covers a whole buffer of `width` by `height` pixels, the
/// sizes converted to the protocol's `i32` as Rust's `as` does.
pub open spec fn spec_full_damage(width: u32, height: u32) -> SurfaceRequest {
    SurfaceRequest::DamageBuffer { x: 0, y: 0, width: width as i32, height: height as i32 }
}

/// Damage the whole buffer of `width` by `height` pixels.
pub fn full_damage(width: u32, height: u32) -> (r: SurfaceRequest)
    ensures
        r == spec_full_damage(width, height),
        r == (SurfaceRequest::DamageBuffer { x: 0, y: 0, width: width as i32, height: height as i32 }),
{
    SurfaceRequest::DamageBuffer { x: 0, y: 0, width: width as i32, height: height as i32 }
}

/// What a change of the preferred scale sends, around the scale change that
/// the renderer adapter makes: the damage of the whole buffer at its size
/// before the change, the size the window is then evaluated at, the
/// destination of the window's viewport (its original size; a popup has no
/// viewport), and whether the surface is committed (a window's is, a
/// popup's is not). A redraw is requested in every case.
#[derive(Debug, Clone, Copy, PartialEq, Eq)]
pub struct ScaleStep {
    pub damage: SurfaceRequest,
    pub evaluated_size: (u32, u32),
    pub viewport_destination: Option<(i32, i32)>,
    pub commit: bool,
}

/// The requests of a scale change on a surface of `size` whose original
/// size is `size_original`, rescaled by its adapter to `new_size`;
/// `is_window` for the layer-shell window, not for a popup.
pub fn scale_step(size: (u32, u32), size_original: (u32, u32), new_size: (u32, u32), is_window: bool) -> (r: ScaleStep)
    ensures
        r.damage == spec_full_damage(size.0, size.1),
        r.evaluated_size == new_size,
        r.viewport_destination == (if is_window {
            Some((size_original.0 as i32, size_original.1 as i32))
        } else {
            None
        }),
        r.commit == is_window,
{
    let viewport_destination = if is_window {
        Some((size_original.0 as i32, size_original.1 as i32))
    } else {
        None
    };
    ScaleStep { damage: full_damage(size.0, size.1), evaluated_size: new_size, viewport_destination, commit: is_window }
}

} // verus!
