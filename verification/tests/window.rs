use spell_framework::wayland_adapter::window::internal::{
    available_monitors, create_popup_core, frame_work, log_command, popup_pool_size, set_anchor,
    set_config, set_config_internal, socket_cli_path, FrameWork, KeyboardInteractivity, Layer,
    LayerRequest, LogCommand, OutputReport, PopupAnchor, PopupConf, WindowConf, WindowFrameState,
};
use spell_framework::wayland_adapter::window::SurfaceRequest;
use spell_framework::wayland_adapter::SpellBoard;

fn conf(anchor: Vec<Option<u32>>, exclusive_zone: Option<i32>) -> WindowConf {
    WindowConf {
        evaluated_width: 1920,
        evaluated_height: 40,
        margin: (1, 2, 3, 4),
        board_interactivity: KeyboardInteractivity::OnDemand,
        layer_type: Layer::Top,
        anchor,
        exclusive_zone,
    }
}

#[test]
fn first_window_frame_damages_everything() {
    let mut state = WindowFrameState::new();
    assert_eq!(
        state.converter(false, false, 1920, 40, true),
        vec![
            SurfaceRequest::DamageBuffer { x: 0, y: 0, width: 1920, height: 40 },
            SurfaceRequest::AttachBuffer,
            SurfaceRequest::Frame,
            SurfaceRequest::Commit,
        ]
    );
    assert_eq!(
        state.converter(false, false, 1920, 40, true),
        vec![SurfaceRequest::AttachBuffer, SurfaceRequest::Frame, SurfaceRequest::Commit]
    );
}

#[test]
fn hidden_window_only_commits_and_keeps_waiting() {
    let mut state = WindowFrameState::new();
    assert_eq!(state.converter(true, true, 10, 10, true), vec![SurfaceRequest::Commit]);
    assert_eq!(
        state.converter(false, false, 10, 10, false),
        vec![
            SurfaceRequest::DamageBuffer { x: 0, y: 0, width: 10, height: 10 },
            SurfaceRequest::Frame,
            SurfaceRequest::Commit,
        ]
    );
}

#[test]
fn redraw_damages_again() {
    let mut state = WindowFrameState::new();
    state.converter(false, false, 5, 6, false);
    assert_eq!(
        state.converter(false, true, 5, 6, false),
        vec![
            SurfaceRequest::DamageBuffer { x: 0, y: 0, width: 5, height: 6 },
            SurfaceRequest::Frame,
            SurfaceRequest::Commit,
        ]
    );
}

#[test]
fn set_anchor_unites_the_set_anchors() {
    assert_eq!(
        set_anchor(&conf(vec![Some(1), None, Some(4), Some(8)], Some(40))),
        vec![LayerRequest::SetAnchor(13), LayerRequest::SetExclusiveZone(40)]
    );
}

#[test]
fn set_anchor_without_anchors_sends_only_the_zone() {
    assert_eq!(set_anchor(&conf(vec![None, None], Some(-1))), vec![LayerRequest::SetExclusiveZone(-1)]);
    assert!(set_anchor(&conf(vec![], None)).is_empty());
}

#[test]
fn set_config_sends_everything_in_order() {
    assert_eq!(
        set_config(&conf(vec![Some(2)], None), false, true),
        vec![
            LayerRequest::SetSize { width: 1920, height: 40 },
            LayerRequest::SetMargin { top: 1, right: 2, bottom: 3, left: 4 },
            LayerRequest::SetKeyboardInteractivity(KeyboardInteractivity::OnDemand),
            LayerRequest::SetInputRegion { present: false },
            LayerRequest::SetOpaqueRegion,
            LayerRequest::SetLayer(Layer::Top),
            LayerRequest::SetAnchor(2),
        ]
    );
}

#[test]
fn set_config_without_opaque_region_skips_it() {
    let requests = set_config(&conf(vec![], Some(0)), true, false);
    assert_eq!(requests.len(), 6);
    assert_eq!(requests[3], LayerRequest::SetInputRegion { present: true });
    assert_eq!(requests[4], LayerRequest::SetLayer(Layer::Top));
    assert_eq!(requests[5], LayerRequest::SetExclusiveZone(0));
}

fn report(output: u32, name: Option<&str>, size: Option<(i32, i32)>) -> OutputReport<u32> {
    OutputReport { output, name: name.map(|n| n.to_string()), logical_size: size }
}

#[test]
fn available_monitors_keeps_complete_reports_last_one_winning() {
    let mut monitors = available_monitors(vec![
        report(1, Some("DP-1"), Some((2560, 1440))),
        report(2, None, Some((800, 600))),
        report(3, Some("HDMI-A-1"), None),
        report(4, Some("eDP-1"), Some((1920, 1080))),
        report(5, Some("DP-1"), Some((1280, 720))),
    ]);
    monitors.sort_by(|a, b| a.name.cmp(&b.name));
    let seen: Vec<(String, u32, i32, i32)> =
        monitors.into_iter().map(|m| (m.name, m.output, m.width, m.height)).collect();
    assert_eq!(
        seen,
        vec![("DP-1".to_string(), 5, 1280, 720), ("eDP-1".to_string(), 4, 1920, 1080)]
    );
}

#[test]
fn available_monitors_of_nothing_is_empty() {
    assert!(available_monitors::<u32>(vec![]).is_empty());
}

#[test]
fn popup_plan_sizes_the_pool() {
    let popup = PopupConf { width: 200, height: 100, anchor: PopupAnchor::TopRight, anchor_rect: (5, 6, 7, 8) };
    let plan = create_popup_core(&popup, 1920, 40);
    assert_eq!(plan.size, (200, 100));
    assert_eq!(plan.parent_size, (1920, 40));
    assert_eq!(plan.anchor, PopupAnchor::TopRight);
    assert_eq!(plan.anchor_rect, (5, 6, 7, 8));
    assert_eq!(popup_pool_size(200, 100), 80_000);
}

#[test]
fn popup_plan_of_any_size_converts_like_as() {
    let popup = PopupConf { width: 3_000_000_000, height: 70_000, anchor: PopupAnchor::Center, anchor_rect: (0, 0, 1, 1) };
    let plan = create_popup_core(&popup, 10, 20);
    assert_eq!(plan.size, (-1_294_967_296, 70_000));
}

#[test]
fn only_a_shown_window_draws() {
    assert_eq!(frame_work(false), FrameWork { draw: true, update_cursor: true });
    assert_eq!(frame_work(true), FrameWork { draw: false, update_cursor: false });
}

#[test]
fn window_config_always_sets_its_opaque_region() {
    let requests = set_config_internal(&conf(vec![Some(1)], None), true);
    assert_eq!(requests, set_config(&conf(vec![Some(1)], None), true, true));
    assert_eq!(requests[4], LayerRequest::SetOpaqueRegion);
}

#[test]
fn socket_path_is_under_the_runtime_dir() {
    assert_eq!(socket_cli_path("/run/user/1000".to_string()), "/run/user/1000/spell//spell_cli");
}

#[test]
fn log_commands_select_their_filters() {
    let lines = |l: &[&str]| l.iter().map(|s| s.to_string()).collect::<Vec<String>>();
    assert_eq!(log_command(&lines(&[])), LogCommand::Nothing);
    assert_eq!(
        log_command(&lines(&["slint_log"])),
        LogCommand::SetFilter("spell_framework::slint_adapter=info,warn")
    );
    assert_eq!(log_command(&lines(&["debug", "dev"])), LogCommand::SetFilter("spell_framework=info,warn"));
    assert_eq!(log_command(&lines(&["dump"])), LogCommand::SetFilter("spell_framework=trace,info"));
    assert_eq!(log_command(&lines(&["dev"])), LogCommand::SetFilter("spell_framework=trace,warn"));
    assert_eq!(log_command(&lines(&["verbose"])), LogCommand::Unknown);
    assert_eq!(log_command(&lines(&["", "debug"])), LogCommand::Unknown);
}

#[test]
fn spell_board_exists() {
    let _board = SpellBoard;
}
