//! Widget types for a shell: the layer-shell window ([`window`]) and the XDG
//! popups it opens ([`SpellXDGPopup`]).
pub mod window;

pub use window::popup::SpellXDGPopup;

use vstd::prelude::*;

verus! {

/// Future virtual keyboard implementation will be on this type. Currently, it is redundant.
pub struct SpellBoard;

} // verus!
