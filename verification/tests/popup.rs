use spell_framework::wayland_adapter::window::popup::{
    buffer_layout, configure_popup, BufferLayout, PopupManager, PopupSlot, SpellXDGPopup,
};
use spell_framework::wayland_adapter::window::{full_damage, scale_step, ScaleStep, SurfaceRequest};

fn slot(popup: u32, surface: u32, xdg_surface: u32, handle: &'static str) -> PopupSlot<&'static str> {
    PopupSlot { popup, surface, xdg_surface, handle }
}

#[test]
fn add_popup_hands_out_consecutive_ids() {
    let mut manager: PopupManager<&'static str, u8> = PopupManager::new();
    assert_eq!(manager.add_popup(slot(10, 20, 30, "menu")), 0);
    assert_eq!(manager.add_popup(slot(11, 21, 31, "tooltip")), 1);
    assert_eq!(manager.add_popup(slot(12, 22, 32, "calendar")), 2);
}

#[test]
fn return_popup_finds_by_xdg_popup_id() {
    let mut manager: PopupManager<&'static str, u8> = PopupManager::new();
    manager.add_popup(slot(10, 20, 30, "menu"));
    manager.add_popup(slot(11, 21, 31, "tooltip"));
    assert_eq!(manager.return_popup(11), Some(&"tooltip"));
    assert_eq!(manager.return_popup(10), Some(&"menu"));
    assert_eq!(manager.return_popup(21), None);
}

#[test]
fn return_adapter_finds_by_surface_id() {
    let mut manager: PopupManager<&'static str, u8> = PopupManager::new();
    manager.add_popup(slot(10, 20, 30, "menu"));
    manager.add_popup(slot(11, 21, 31, "tooltip"));
    assert_eq!(manager.return_adapter(20), Some(&"menu"));
    assert_eq!(manager.return_adapter(11), None);
}

#[test]
fn redraw_popups_lists_each_popup_once() {
    let mut manager: PopupManager<&'static str, u8> = PopupManager::new();
    manager.add_popup(slot(10, 20, 30, "menu"));
    manager.add_popup(slot(11, 21, 31, "tooltip"));
    let mut listed = manager.redraw_popups();
    listed.sort();
    assert_eq!(listed, vec![(0, &"menu"), (1, &"tooltip")]);
}

#[test]
fn redraw_popups_of_empty_manager_is_empty() {
    let manager: PopupManager<&'static str, u8> = PopupManager::new();
    assert!(manager.redraw_popups().is_empty());
}

#[test]
fn call_ack_selects_popups_of_one_xdg_surface() {
    let mut manager: PopupManager<&'static str, u8> = PopupManager::new();
    manager.add_popup(slot(10, 20, 30, "menu"));
    manager.add_popup(slot(11, 21, 31, "tooltip"));
    assert_eq!(manager.call_ack(31), vec![(1, &"tooltip")]);
    assert!(manager.call_ack(99).is_empty());
}

#[test]
fn close_popup_removes_only_that_popup() {
    let mut manager: PopupManager<&'static str, u8> = PopupManager::new();
    manager.add_popup(slot(10, 20, 30, "menu"));
    manager.add_popup(slot(11, 21, 31, "tooltip"));
    let closed = manager.close_popup(&0).expect("popup 0 is open");
    assert_eq!(closed.handle, "menu");
    assert_eq!(closed.popup, 10);
    assert_eq!(manager.return_popup(10), None);
    assert_eq!(manager.return_popup(11), Some(&"tooltip"));
}

#[test]
fn close_unknown_popup_changes_nothing() {
    let mut manager: PopupManager<&'static str, u8> = PopupManager::new();
    manager.add_popup(slot(10, 20, 30, "menu"));
    assert!(manager.close_popup(&7).is_none());
    assert_eq!(manager.redraw_popups(), vec![(0, &"menu")]);
}

#[test]
fn closing_a_popup_does_not_reuse_its_id() {
    let mut manager: PopupManager<&'static str, u8> = PopupManager::new();
    manager.add_popup(slot(10, 20, 30, "menu"));
    manager.close_popup(&0);
    assert_eq!(manager.add_popup(slot(11, 21, 31, "tooltip")), 1);
}

#[test]
fn create_popup_core_uses_the_pool_and_packed_rows() {
    let mut manager: PopupManager<&'static str, u8> = PopupManager::new();
    manager.set_pool(7);
    let (pool, layout) = manager.create_popup_core(300, 200);
    assert_eq!(*pool, 7);
    assert_eq!(layout, BufferLayout { width: 300, height: 200, stride: 1200 });
}

#[test]
fn buffer_layout_converts_like_as() {
    assert_eq!(buffer_layout(1, 1), BufferLayout { width: 1, height: 1, stride: 4 });
    assert_eq!(
        buffer_layout(10, 3_000_000_000),
        BufferLayout { width: 10, height: -1_294_967_296, stride: 40 }
    );
}

#[test]
fn first_configure_is_true_once() {
    let mut popup = SpellXDGPopup::new("adapter", "surface");
    assert!(popup.first_configure());
    assert!(!popup.first_configure());
    assert!(!popup.first_configure());
    assert_eq!(*popup.adapter(), "adapter");
    assert_eq!(*popup.popup(), "surface");
}

#[test]
fn first_popup_frame_damages_attaches_and_commits() {
    let popup = SpellXDGPopup::new((), ());
    assert_eq!(
        popup.converter_popup(false, 400, 300, true),
        vec![
            SurfaceRequest::DamageBuffer { x: 0, y: 0, width: 400, height: 300 },
            SurfaceRequest::AttachBuffer,
            SurfaceRequest::Frame,
            SurfaceRequest::Commit,
        ]
    );
}

#[test]
fn unchanged_popup_only_commits() {
    let mut popup = SpellXDGPopup::new((), ());
    popup.first_configure();
    assert_eq!(popup.converter_popup(false, 400, 300, true), vec![SurfaceRequest::Commit]);
}

#[test]
fn redrawn_popup_without_buffer_does_not_attach() {
    let mut popup = SpellXDGPopup::new((), ());
    popup.first_configure();
    assert_eq!(
        popup.converter_popup(true, 8, 9, false),
        vec![full_damage(8, 9), SurfaceRequest::Frame, SurfaceRequest::Commit]
    );
}

#[test]
fn full_damage_covers_the_buffer() {
    assert_eq!(full_damage(640, 480), SurfaceRequest::DamageBuffer { x: 0, y: 0, width: 640, height: 480 });
}

#[test]
fn first_configure_commits_then_draws() {
    let mut popup = SpellXDGPopup::new((), ());
    assert!(popup.is_first_configure());
    assert_eq!(
        configure_popup(&mut popup, false, 4, 2, true),
        vec![SurfaceRequest::Commit, SurfaceRequest::Commit]
    );
    assert!(!popup.is_first_configure());
    assert_eq!(configure_popup(&mut popup, true, 4, 2, true), vec![SurfaceRequest::Commit]);
}

#[test]
fn first_configure_with_redraw_draws_a_frame() {
    let mut popup = SpellXDGPopup::new((), ());
    assert_eq!(
        configure_popup(&mut popup, true, 4, 2, false),
        vec![SurfaceRequest::Commit, full_damage(4, 2), SurfaceRequest::Frame, SurfaceRequest::Commit]
    );
}

#[test]
fn scale_step_of_window_and_popup() {
    assert_eq!(
        scale_step((200, 100), (100, 50), (300, 150), true),
        ScaleStep {
            damage: full_damage(200, 100),
            evaluated_size: (300, 150),
            viewport_destination: Some((100, 50)),
            commit: true,
        }
    );
    assert_eq!(
        scale_step((200, 100), (100, 50), (300, 150), false),
        ScaleStep { damage: full_damage(200, 100), evaluated_size: (300, 150), viewport_destination: None, commit: false }
    );
}
