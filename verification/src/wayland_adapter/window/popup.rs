//! Bookkeeping of the XDG popups that a window has open, and the per-popup
//! frame decisions of [`SpellXDGPopup`].
use std::collections::HashMap;
use super::{full_damage, spec_full_damage, SurfaceRequest};
use vstd::prelude::*;
use vstd::std_specs::iter::IteratorSpec;

verus! {

broadcast use vstd::std_specs::hash::group_hash_axioms;

/// What the manager keeps of one open popup: the protocol ids by which the
/// compositor's events name it, and the handle through which it is drawn.
pub struct PopupSlot<T> {
    /// Protocol id of the popup's `xdg_popup` object.
    pub popup: u32,
    /// Protocol id of the popup's `wl_surface`.
    pub surface: u32,
    /// Protocol id of the popup's `xdg_surface`.
    pub xdg_surface: u32,
    /// The popup itself.
    pub handle: T,
}

/// The popups that a window has open, each under the id it was given when
/// it was added, and the shared memory pool from which their buffers come.
pub struct PopupManager<T, P> {
    id_gen: u32,
    popups: HashMap<u32, PopupSlot<T>>,
    pool: Option<P>,
}

impl<T, P> PopupManager<T, P> {
    /// The id that the next added popup receives.
    pub closed spec fn next_id(&self) -> u32 {
        self.id_gen
    }

    /// The open popups, by id.
    pub closed spec fn popups(&self) -> Map<u32, PopupSlot<T>> {
        self.popups@
    }

    /// The pool that buffers of new popups are taken from, once set.
    pub closed spec fn pool(&self) -> Option<P> {
        self.pool
    }

    /// Every id in use was handed out before the current one.
    #[verifier::type_invariant]
    pub closed spec fn wf(&self) -> bool {
        forall|k: u32| #[trigger] self.popups@.contains_key(k) ==> k < self.id_gen
    }

    /// The id under which `slot` is found by a lookup: its `xdg_popup` id, or
    /// its `wl_surface` id when `by_surface` holds.
    pub open spec fn lookup_key(slot: PopupSlot<T>, by_surface: bool) -> u32 {
        if by_surface {
            slot.surface
        } else {
            slot.popup
        }
    }

    /// Some open popup has `key` as its lookup key.
    pub open spec fn has_key(&self, key: u32, by_surface: bool) -> bool {
        exists|k: u32| #[trigger] self.popups().contains_key(k) && Self::lookup_key(self.popups()[k], by_surface) == key
    }

    /// `r` answers a lookup of `key`: nothing exactly when no popup has that
    /// key, else the handle of one that has it.
    pub open spec fn answers_lookup(&self, r: Option<&T>, key: u32, by_surface: bool) -> bool {
        &&& r is None <==> !self.has_key(key, by_surface)
        &&& r matches Some(h) ==> exists|k: u32| #[trigger] self.popups().contains_key(k)
                && Self::lookup_key(self.popups()[k], by_surface) == key
                && self.popups()[k].handle == *h
    }

    fn find(&self, key: u32, by_surface: bool) -> (r: Option<&T>)
        ensures
            self.answers_lookup(r, key, by_surface),
    {
        let ghost m = self.popups@;
        for pair in it: self.popups.iter()
            invariant
                m == self.popups@,
                forall|j: int| 0 <= j < it.index() ==> Self::lookup_key(*(#[trigger] it.seq()[j]).1, by_surface) != key,
                forall|j: int| 0 <= j < it.seq().len() ==> m.contains_key(*(#[trigger] it.seq()[j]).0) && m[*it.seq()[j].0] == *it.seq()[j].1,
        {
            assert(pair == it.seq()[it.index() as int]);
            let found = if by_surface {
                pair.1.surface == key
            } else {
                pair.1.popup == key
            };
            if found {
                assert(self.popups().contains_key(*pair.0) && self.popups()[*pair.0] == *pair.1);
                return Some(&pair.1.handle);
            }
        }
        None
    }

    /// Whether `slot` is one of those that `filter` asks for: every popup for
    /// `None`, those of one `xdg_surface` for `Some(id)`.
    pub open spec fn selects(slot: PopupSlot<T>, filter: Option<u32>) -> bool {
        match filter {
            None => true,
            Some(id) => slot.xdg_surface == id,
        }
    }

    /// The entries that `result` holds are exactly the popups that `filter`
    /// selects, each once, with its id.
    pub open spec fn lists_selected(&self, result: Seq<(u32, &T)>, filter: Option<u32>) -> bool {
        &&& forall|i: int| 0 <= i < result.len() ==> {
            &&& self.popups().contains_key(#[trigger] result[i].0)
            &&& self.popups()[result[i].0].handle == *result[i].1
            &&& Self::selects(self.popups()[result[i].0], filter)
        }
        &&& forall|i: int, j: int| 0 <= i < result.len() && 0 <= j < result.len() && i != j
            ==> #[trigger] result[i].0 != #[trigger] result[j].0
        &&& forall|k: u32| #[trigger] self.popups().contains_key(k) && Self::selects(self.popups()[k], filter)
            ==> exists|i: int| 0 <= i < result.len() && #[trigger] result[i].0 == k
    }

    fn selected_popups(&self, filter: Option<u32>) -> (r: Vec<(u32, &T)>)
        ensures
            self.lists_selected(r@, filter),
    {
        let ghost m = self.popups@;
        let ghost s = vstd::std_specs::hash::spec_hash_map_iter(&self.popups).remaining();
        let ghost mut pos: Seq<int> = Seq::empty();
        let ghost mut seen: int = 0;
        let mut r: Vec<(u32, &T)> = Vec::new();
        for pair in it: self.popups.iter()
            invariant
                m == self.popups@,
                s == it.seq(),
                seen == it.index(),
                s.no_duplicates(),
                forall|j: int| 0 <= j < s.len() ==> m.contains_key(*(#[trigger] s[j]).0) && m[*s[j].0] == *s[j].1,
                forall|k: u32| #[trigger] m.contains_key(k) ==> s.contains((&k, &m[k])),
                r@.len() == pos.len(),
                forall|i: int| 0 <= i < pos.len() ==> 0 <= #[trigger] pos[i] < seen
                    && r@[i].0 == *s[pos[i]].0 && *r@[i].1 == s[pos[i]].1.handle
                    && Self::selects(*s[pos[i]].1, filter),
                forall|i: int, j: int| 0 <= i < j < pos.len() ==> #[trigger] pos[i] < #[trigger] pos[j],
                forall|j: int| 0 <= j < seen && Self::selects(*(#[trigger] s[j]).1, filter)
                    ==> exists|i: int| 0 <= i < pos.len() && pos[i] == j,
        {
            assert(pair == s[seen]);
            let ghost old_pos = pos;
            let wanted = match filter {
                None => true,
                Some(id) => pair.1.xdg_surface == id,
            };
            if wanted {
                proof {
                    pos = pos.push(seen);
                }
                r.push((*pair.0, &pair.1.handle));
                assert(pos[pos.len() - 1] == seen);
            }
            assert(wanted == Self::selects(*s[seen].1, filter));
            proof {
                assert forall|j: int| 0 <= j <= seen && Self::selects(*(#[trigger] s[j]).1, filter)
                    implies exists|i: int| 0 <= i < pos.len() && pos[i] == j by {
                    if j < seen {
                        let i: int = choose|i: int| 0 <= i < old_pos.len() && old_pos[i] == j;
                        assert(pos[i] == old_pos[i]);
                    }
                }
                seen = seen + 1;
            }
        }
        proof {
            assert forall|i: int| 0 <= i < r@.len() implies {
                &&& self.popups().contains_key(#[trigger] r@[i].0)
                &&& self.popups()[r@[i].0].handle == *r@[i].1
                &&& Self::selects(self.popups()[r@[i].0], filter)
            } by {
                assert(0 <= pos[i] < s.len());
                assert(m.contains_key(*s[pos[i]].0));
            }
            assert forall|i: int, j: int| 0 <= i < r@.len() && 0 <= j < r@.len() && i != j
                implies #[trigger] r@[i].0 != #[trigger] r@[j].0 by {
                if r@[i].0 == r@[j].0 {
                    assert(s[pos[i]] == s[pos[j]]);
                    if i < j { assert(pos[i] < pos[j]); } else { assert(pos[j] < pos[i]); }
                }
            }
            assert forall|k: u32| #[trigger] self.popups().contains_key(k) && Self::selects(self.popups()[k], filter)
                implies exists|i: int| 0 <= i < r@.len() && #[trigger] r@[i].0 == k by {
                assert(s.contains((&k, &m[k])));
                let j: int = choose|j: int| 0 <= j < s.len() && s[j] == (&k, &m[k]);
                assert(Self::selects(*s[j].1, filter));
                let i: int = choose|i: int| 0 <= i < pos.len() && pos[i] == j;
                assert(r@[i].0 == k);
            }
        }
        r
    }

    /// A manager with no popup, no pool, and ids starting from 0.
    pub fn new() -> (r: Self)
        ensures
            r.next_id() == 0,
            r.popups() == Map::<u32, PopupSlot<T>>::empty(),
            r.pool() is None,
    {
        PopupManager { id_gen: 0, popups: HashMap::new(), pool: None }
    }

    /// The popup whose `xdg_popup` has the protocol id `popup`.
    pub fn return_popup(&self, popup: u32) -> (r: Option<&T>)
        ensures
            self.answers_lookup(r, popup, false),
    {
        self.find(popup, false)
    }

    /// The popup drawn on the `wl_surface` with the protocol id `surface`,
    /// whose adapter renders it.
    pub fn return_adapter(&self, surface: u32) -> (r: Option<&T>)
        ensures
            self.answers_lookup(r, surface, true),
    {
        self.find(surface, true)
    }

    /// The id that the next added popup receives.
    pub fn next_popup_id(&self) -> (r: u32)
        ensures
            r == self.next_id(),
    {
        self.id_gen
    }

    /// Whether a pool for popup buffers has been set.
    pub fn has_pool(&self) -> (r: bool)
        ensures
            r == self.pool() is Some,
    {
        self.pool.is_some()
    }

    /// Sets the pool that buffers of new popups are taken from.
    pub fn set_pool(&mut self, pool: P)
        ensures
            final(self).pool() == Some(pool),
            final(self).popups() == old(self).popups(),
            final(self).next_id() == old(self).next_id(),
    {
        proof {
            use_type_invariant(&*self);
        }
        self.pool = Some(pool);
    }

    /// The pool and the layout of the `Argb8888` buffer for a popup of
    /// `width` by `height` pixels: four bytes a pixel, rows packed.
    pub fn create_popup_core(&self, width: u32, height: u32) -> (r: (&P, BufferLayout))
        requires
            self.pool() is Some,
            i32::MIN <= (width as i32) * 4 <= i32::MAX,
        ensures
            Some(*r.0) == self.pool(),
            r.1 == spec_buffer_layout(width, height),
    {
        let pool = self.pool.as_ref().unwrap();
        (pool, buffer_layout(width, height))
    }

    /// Stores `slot` under the next id and returns that id.
    pub fn add_popup(&mut self, slot: PopupSlot<T>) -> (id: u32)
        requires
            old(self).next_id() < u32::MAX,
        ensures
            id == old(self).next_id(),
            !old(self).popups().contains_key(id),
            final(self).popups() == old(self).popups().insert(id, slot),
            final(self).next_id() == id + 1,
            final(self).pool() == old(self).pool(),
    {
        proof {
            use_type_invariant(&*self);
        }
        let mut popups: HashMap<u32, PopupSlot<T>> = HashMap::new();
        std::mem::swap(&mut popups, &mut self.popups);
        self.id_gen = self.id_gen.wrapping_add(1);
        let id: u32 = self.id_gen - 1;
        popups.insert(id, slot);
        self.popups = popups;
        id
    }

    /// Every open popup with its id, each once, for drawing its next frame.
    pub fn redraw_popups(&self) -> (r: Vec<(u32, &T)>)
        ensures
            self.lists_selected(r@, None),
    {
        self.selected_popups(None)
    }

    /// The open popups whose `xdg_surface` has the protocol id
    /// `xdg_surface`, each once: those that acknowledge its configure event.
    pub fn call_ack(&self, xdg_surface: u32) -> (r: Vec<(u32, &T)>)
        ensures
            self.lists_selected(r@, Some(xdg_surface)),
    {
        self.selected_popups(Some(xdg_surface))
    }

    /// Takes the popup with id `id` out of the manager, handing it back to be
    /// destroyed; `None`, and no change, where there is none.
    pub fn close_popup(&mut self, id: &u32) -> (r: Option<PopupSlot<T>>)
        ensures
            final(self).popups() == old(self).popups().remove(*id),
            r == (if old(self).popups().contains_key(*id) {
                Some(old(self).popups()[*id])
            } else {
                None::<PopupSlot<T>>
            }),
            final(self).next_id() == old(self).next_id(),
            final(self).pool() == old(self).pool(),
    {
        proof {
            use_type_invariant(&*self);
        }
        let mut popups: HashMap<u32, PopupSlot<T>> = HashMap::new();
        std::mem::swap(&mut popups, &mut self.popups);
        let r = popups.remove(id);
        self.popups = popups;
        r
    }
}

/// Law: the id that a manager hands out next is in use by no open popup, so
/// adding a popup never replaces another.
pub proof fn law_next_id_is_fresh<T, P>(manager: PopupManager<T, P>)
    requires
        manager.wf(),
    ensures
        forall|k: u32| #[trigger] manager.popups().contains_key(k) ==> k < manager.next_id(),
        !manager.popups().contains_key(manager.next_id()),
{
}

/// Law: closing the popup that was just added leaves the open popups as
/// they were before it was added.
pub proof fn law_close_undoes_add<T, P>(manager: PopupManager<T, P>, slot: PopupSlot<T>)
    requires
        manager.wf(),
    ensures
        manager.popups().insert(manager.next_id(), slot).remove(manager.next_id()) == manager.popups(),
{
    law_next_id_is_fresh(manager);
    assert(manager.popups().insert(manager.next_id(), slot).remove(manager.next_id()) =~= manager.popups());
}

/// Law: once a popup is added, it is found by its `xdg_popup` id and by its
/// surface id, drawn by `redraw_popups` and acknowledged through its
/// `xdg_surface`.
pub proof fn law_added_popup_is_found<T, P>(
    before: PopupManager<T, P>,
    after: PopupManager<T, P>,
    id: u32,
    slot: PopupSlot<T>,
)
    requires
        after.popups() == before.popups().insert(id, slot),
    ensures
        after.has_key(slot.popup, false),
        after.has_key(slot.surface, true),
        forall|r: Seq<(u32, &T)>| after.lists_selected(r, None) ==> exists|i: int| 0 <= i < r.len() && (#[trigger] r[i]).0 == id,
        forall|r: Seq<(u32, &T)>| after.lists_selected(r, Some(slot.xdg_surface)) ==> exists|i: int| 0 <= i < r.len() && (#[trigger] r[i]).0 == id,
{
    assert(after.popups().contains_key(id) && after.popups()[id] == slot);
    assert(PopupManager::<T, P>::lookup_key(after.popups()[id], false) == slot.popup);
    assert(PopupManager::<T, P>::lookup_key(after.popups()[id], true) == slot.surface);
}

/// Arguments of `SlotPool::create_buffer` for a popup buffer.
#[derive(Debug, Clone, Copy, PartialEq, Eq, Structural)]
pub struct BufferLayout {
    pub width: i32,
    pub height: i32,
    /// Bytes from one row to the next.
    pub stride: i32,
}

/// The layout of a `width` by `height` buffer of four bytes a pixel, the sizes
/// converted to `i32` as Rust's `as` does.
pub open spec fn spec_buffer_layout(width: u32, height: u32) -> BufferLayout {
    BufferLayout { width: width as i32, height: height as i32, stride: ((width as i32) * 4) as i32 }
}

/// The layout of a `width` by `height` buffer of four bytes a pixel.
pub fn buffer_layout(width: u32, height: u32) -> (r: BufferLayout)
    requires
        i32::MIN <= (width as i32) * 4 <= i32::MAX,
    ensures
        r == spec_buffer_layout(width, height),
        r.width == width as i32,
        r.height == height as i32,
        r.stride == (width as i32) * 4,
{
    let w: i32 = width as i32;
    BufferLayout { width: w, height: height as i32, stride: w * 4 }
}

/// The requests that draw one popup frame: when the popup is still waiting
/// for its first frame or its content changed, the whole buffer is damaged,
/// the buffer attached where there is one, the next frame asked for and the
/// surface committed; otherwise the surface is only committed.
pub open spec fn popup_frame_requests(
    first_configure: bool,
    redraw: bool,
    width: u32,
    height: u32,
    has_buffer: bool,
) -> Seq<SurfaceRequest> {
    if first_configure || redraw {
        seq![spec_full_damage(width, height)]
            + (if has_buffer { seq![SurfaceRequest::AttachBuffer] } else { Seq::empty() })
            + seq![SurfaceRequest::Frame, SurfaceRequest::Commit]
    } else {
        seq![SurfaceRequest::Commit]
    }
}

/// The backend of one XDG popup: its renderer adapter, the popup surface,
/// and whether its first frame is still to come.
pub struct SpellXDGPopup<A, P> {
    adapter: A,
    popup: P,
    first_configure: bool,
}

impl<A, P> SpellXDGPopup<A, P> {
    /// The renderer adapter of the popup.
    pub closed spec fn adapter_of(&self) -> A {
        self.adapter
    }

    /// The popup surface.
    pub closed spec fn popup_of(&self) -> P {
        self.popup
    }

    /// The popup has not yet been through its first configure.
    pub closed spec fn first_configure_pending(&self) -> bool {
        self.first_configure
    }

    /// Creates the backend of a popup drawn by `adapter` on `popup`, waiting
    /// for its first configure.
    pub fn new(adapter: A, popup: P) -> (r: Self)
        ensures
            r.adapter_of() == adapter,
            r.popup_of() == popup,
            r.first_configure_pending(),
    {
        SpellXDGPopup { adapter, popup, first_configure: true }
    }

    /// The popup surface.
    pub fn popup(&self) -> (r: &P)
        ensures
            *r == self.popup_of(),
    {
        &self.popup
    }

    /// Whether this is the popup's first configure: true on the first call,
    /// false on every later one.
    pub fn first_configure(&mut self) -> (r: bool)
        ensures
            r == old(self).first_configure_pending(),
            !final(self).first_configure_pending(),
            final(self).adapter_of() == old(self).adapter_of(),
            final(self).popup_of() == old(self).popup_of(),
    {
        if self.first_configure {
            self.first_configure = false;
            true
        } else {
            false
        }
    }

    /// Whether the popup has not yet been through its first configure.
    pub fn is_first_configure(&self) -> (r: bool)
        ensures
            r == self.first_configure_pending(),
    {
        self.first_configure
    }

    /// The renderer adapter of the popup.
    pub fn adapter(&self) -> (r: &A)
        ensures
            *r == self.adapter_of(),
    {
        &self.adapter
    }

    /// The requests that draw the popup's next frame, given whether the
    /// adapter redrew its content, the adapter's size, and whether it holds a
    /// buffer to attach.
    pub fn converter_popup(&self, redraw: bool, width: u32, height: u32, has_buffer: bool) -> (r: Vec<SurfaceRequest>)
        ensures
            r@ == popup_frame_requests(self.first_configure_pending(), redraw, width, height, has_buffer),
            (self.first_configure_pending() || redraw) ==> (r@.contains(SurfaceRequest::AttachBuffer) <==> has_buffer),
    {
        let mut r: Vec<SurfaceRequest> = Vec::new();
        if self.first_configure || redraw {
            r.push(full_damage(width, height));
            if has_buffer {
                r.push(SurfaceRequest::AttachBuffer);
            }
            r.push(SurfaceRequest::Frame);
            r.push(SurfaceRequest::Commit);
        } else {
            r.push(SurfaceRequest::Commit);
        }
        proof {
            law_popup_frame_shape(self.first_configure, redraw, width, height, has_buffer);
            assert(r@ == popup_frame_requests(self.first_configure, redraw, width, height, has_buffer));
        }
        r
    }
}

/// Law: a popup's first frame after it is created damages its whole buffer,
/// whether or not its content was redrawn.
pub proof fn law_first_popup_frame_damages_all(redraw: bool, width: u32, height: u32, has_buffer: bool)
    ensures
        popup_frame_requests(true, redraw, width, height, has_buffer)[0] == spec_full_damage(width, height),
{
}

/// Law: every popup frame ends with a commit, and asks for a frame callback
/// exactly when it damages the buffer.
pub proof fn law_popup_frame_commits(first_configure: bool, redraw: bool, width: u32, height: u32, has_buffer: bool)
    ensures
        ({
            let rs = popup_frame_requests(first_configure, redraw, width, height, has_buffer);
            &&& rs.len() > 0 && rs.last() == SurfaceRequest::Commit
            &&& rs.contains(SurfaceRequest::Frame) <==> rs.contains(spec_full_damage(width, height))
            &&& rs.contains(SurfaceRequest::Frame) <==> (first_configure || redraw)
        }),
{
    let rs = popup_frame_requests(first_configure, redraw, width, height, has_buffer);
    if first_configure || redraw {
        assert(rs[rs.len() - 2] == SurfaceRequest::Frame);
        assert(rs[0] == spec_full_damage(width, height));
    } else {
        assert(rs =~= seq![SurfaceRequest::Commit]);
        assert(!rs.contains(spec_full_damage(width, height))) by {
            if rs.contains(spec_full_damage(width, height)) {
                let i: int = choose|i: int| 0 <= i < rs.len() && rs[i] == spec_full_damage(width, height);
                assert(rs[i] == SurfaceRequest::Commit);
            }
        }
    }
}

/// The requests that answer a configure of a popup: its surface is
/// committed, and on its first configure a frame is drawn as
/// `converter_popup` draws it once the first configure has been taken.
pub open spec fn popup_configure_requests(
    first_configure: bool,
    redraw: bool,
    width: u32,
    height: u32,
    has_buffer: bool,
) -> Seq<SurfaceRequest> {
    seq![SurfaceRequest::Commit] + (if first_configure {
        popup_frame_requests(false, redraw, width, height, has_buffer)
    } else {
        Seq::empty()
    })
}

/// Answers a configure event of `popup`: takes its first configure, and
/// returns the requests to send, given whether the adapter redrew (read only
/// on the first configure), its size and whether it holds a buffer.
pub fn configure_popup<A, P>(
    popup: &mut SpellXDGPopup<A, P>,
    redraw: bool,
    width: u32,
    height: u32,
    has_buffer: bool,
) -> (r: Vec<SurfaceRequest>)
    ensures
        r@ == popup_configure_requests(old(popup).first_configure_pending(), redraw, width, height, has_buffer),
        (old(popup).first_configure_pending() && redraw) ==> (r@.contains(SurfaceRequest::AttachBuffer) <==> has_buffer),
        !final(popup).first_configure_pending(),
        final(popup).adapter_of() == old(popup).adapter_of(),
        final(popup).popup_of() == old(popup).popup_of(),
{
    proof {
        law_popup_configure_shape(redraw, width, height, has_buffer);
    }
    let mut r: Vec<SurfaceRequest> = Vec::new();
    r.push(SurfaceRequest::Commit);
    if popup.first_configure() {
        let mut frame = popup.converter_popup(redraw, width, height, has_buffer);
        r.append(&mut frame);
    }
    r
}

/// Law: a popup frame that damages its buffer (the first one, or one whose
/// content changed) is the whole-buffer damage, the attach of the buffer
/// exactly when the adapter holds one, the frame callback and the commit;
/// any other popup frame is a lone commit, attaching nothing.
pub proof fn law_popup_frame_shape(first_configure: bool, redraw: bool, width: u32, height: u32, has_buffer: bool)
    ensures
        ({
            let rs = popup_frame_requests(first_configure, redraw, width, height, has_buffer);
            let a: int = if has_buffer { 1 } else { 0 };
            &&& (first_configure || redraw) ==> {
                &&& rs.len() == 3 + a
                &&& rs[0] == spec_full_damage(width, height)
                &&& rs.contains(SurfaceRequest::AttachBuffer) <==> has_buffer
                &&& has_buffer ==> rs[1] == SurfaceRequest::AttachBuffer
                &&& rs[1 + a] == SurfaceRequest::Frame
                &&& rs[2 + a] == SurfaceRequest::Commit
            }
            &&& !(first_configure || redraw) ==> rs.len() == 1 && rs[0] == SurfaceRequest::Commit
        }),
{
    let rs = popup_frame_requests(first_configure, redraw, width, height, has_buffer);
    let dmg = spec_full_damage(width, height);
    if first_configure || redraw {
        if has_buffer {
            assert(rs =~= seq![dmg, SurfaceRequest::AttachBuffer, SurfaceRequest::Frame, SurfaceRequest::Commit]);
            assert(rs[1] == SurfaceRequest::AttachBuffer);
        } else {
            assert(rs =~= seq![dmg, SurfaceRequest::Frame, SurfaceRequest::Commit]);
            assert(!rs.contains(SurfaceRequest::AttachBuffer)) by {
                if rs.contains(SurfaceRequest::AttachBuffer) {
                    let i: int = choose|i: int| 0 <= i < rs.len() && rs[i] == SurfaceRequest::AttachBuffer;
                    assert(i == 0 || i == 1 || i == 2);
                }
            }
        }
    } else {
        assert(rs =~= seq![SurfaceRequest::Commit]);
    }
}

/// Law: a popup's first configure is answered by a commit and then, exactly
/// when its adapter redrew, the whole-buffer damage, the attach of the buffer
/// exactly when the adapter holds one, the frame callback and the commit;
/// every later configure by a lone commit.
pub proof fn law_popup_configure_shape(redraw: bool, width: u32, height: u32, has_buffer: bool)
    ensures
        ({
            let rs = popup_configure_requests(true, redraw, width, height, has_buffer);
            let a: int = if has_buffer { 1 } else { 0 };
            &&& rs[0] == SurfaceRequest::Commit
            &&& redraw ==> {
                &&& rs.len() == 4 + a
                &&& rs[1] == spec_full_damage(width, height)
                &&& rs.contains(SurfaceRequest::AttachBuffer) <==> has_buffer
                &&& has_buffer ==> rs[2] == SurfaceRequest::AttachBuffer
                &&& rs[2 + a] == SurfaceRequest::Frame
                &&& rs[3 + a] == SurfaceRequest::Commit
            }
            &&& !redraw ==> rs.len() == 2 && rs[1] == SurfaceRequest::Commit
        }),
        popup_configure_requests(false, redraw, width, height, has_buffer) == seq![SurfaceRequest::Commit],
{
    let rs = popup_configure_requests(true, redraw, width, height, has_buffer);
    let dmg = spec_full_damage(width, height);
    assert(popup_configure_requests(false, redraw, width, height, has_buffer) =~= seq![SurfaceRequest::Commit]);
    if redraw {
        if has_buffer {
            assert(rs =~= seq![SurfaceRequest::Commit, dmg, SurfaceRequest::AttachBuffer, SurfaceRequest::Frame, SurfaceRequest::Commit]);
            assert(rs[2] == SurfaceRequest::AttachBuffer);
        } else {
            assert(rs =~= seq![SurfaceRequest::Commit, dmg, SurfaceRequest::Frame, SurfaceRequest::Commit]);
            assert(!rs.contains(SurfaceRequest::AttachBuffer)) by {
                if rs.contains(SurfaceRequest::AttachBuffer) {
                    let i: int = choose|i: int| 0 <= i < rs.len() && rs[i] == SurfaceRequest::AttachBuffer;
                    assert(i == 0 || i == 1 || i == 2 || i == 3);
                }
            }
        }
    } else {
        assert(rs =~= seq![SurfaceRequest::Commit, SurfaceRequest::Commit]);
    }
}

} // verus!
