//! Decisions of the layer-shell window: what its frames send, how its layer
//! surface is configured, which monitors it can be placed on, how its popups
//! are sized, and which log filter a command line asks for.
use super::{full_damage, spec_full_damage, SurfaceRequest};
use vstd::prelude::*;
use vstd::string::StringExecFns;

verus! {

/// What the compositor reported of one output: the output itself, and its
/// name and logical size where it reported them.
pub struct OutputReport<O> {
    pub output: O,
    pub name: Option<String>,
    pub logical_size: Option<(i32, i32)>,
}

/// A monitor a window can be placed on: its name, its output and its logical
/// width and height.
pub struct Monitor<O> {
    pub name: String,
    pub output: O,
    pub width: i32,
    pub height: i32,
}

/// The monitors that `reports` describe, by name: each output that reported
/// both a name and a logical size, a later report of a name replacing an
/// earlier one.
pub open spec fn monitor_map<O>(reports: Seq<OutputReport<O>>) -> Map<Seq<char>, (O, i32, i32)>
    decreases reports.len(),
{
    if reports.len() == 0 {
        Map::empty()
    } else {
        let before = monitor_map(reports.drop_last());
        let last = reports.last();
        match (last.name, last.logical_size) {
            (Some(name), Some((w, h))) => before.insert(name@, (last.output, w, h)),
            _ => before,
        }
    }
}

/// `monitors` holds the entries of `m`, each name once.
pub open spec fn lists_monitors<O>(monitors: Seq<Monitor<O>>, m: Map<Seq<char>, (O, i32, i32)>) -> bool {
    &&& forall|i: int| 0 <= i < monitors.len() ==> {
        &&& m.contains_key((#[trigger] monitors[i]).name@)
        &&& m[monitors[i].name@] == (monitors[i].output, monitors[i].width, monitors[i].height)
    }
    &&& forall|i: int, j: int| 0 <= i < monitors.len() && 0 <= j < monitors.len() && i != j
        ==> (#[trigger] monitors[i]).name@ != (#[trigger] monitors[j]).name@
    &&& forall|n: Seq<char>| #[trigger] m.contains_key(n) ==> exists|i: int| 0 <= i < monitors.len() && (#[trigger] monitors[i]).name@ == n
}

/// The index of the monitor named `name` in `monitors`, if any.
fn position_of_name<O>(monitors: &Vec<Monitor<O>>, name: &String) -> (r: Option<usize>)
    ensures
        r matches Some(i) ==> i < monitors@.len() && monitors@[i as int].name@ == name@,
        r is None ==> forall|i: int| 0 <= i < monitors@.len() ==> (#[trigger] monitors@[i]).name@ != name@,
{
    let mut j: usize = 0;
    while j < monitors.len()
        invariant
            j <= monitors@.len(),
            forall|i: int| 0 <= i < j ==> (#[trigger] monitors@[i]).name@ != name@,
        decreases monitors@.len() - j,
    {
        if monitors[j].name == *name {
            return Some(j);
        }
        j = j + 1;
    }
    None
}

/// The monitors available to a window, from what the compositor reported of
/// its outputs: each output with both a name and a logical size, by name,
/// the last report of a name winning.
pub fn available_monitors<O>(reports: Vec<OutputReport<O>>) -> (r: Vec<Monitor<O>>)
    ensures
        lists_monitors(r@, monitor_map(reports@)),
{
    let ghost rs = reports@;
    let ghost mut done: int = 0;
    let mut r: Vec<Monitor<O>> = Vec::new();
    for report in it: reports.into_iter()
        invariant
            it.seq() == rs,
            done == it.index(),
            0 <= done <= rs.len(),
            lists_monitors(r@, monitor_map(rs.take(done))),
    {
        assert(report == rs[done]);
        assert(rs.take(done + 1).drop_last() == rs.take(done));
        assert(rs.take(done + 1).last() == rs[done]);
        let OutputReport { output, name, logical_size } = report;
        match (name, logical_size) {
            (Some(name), Some((width, height))) => {
                let ghost before = r@;
                let entry = Monitor { name, output, width, height };
                match position_of_name(&r, &entry.name) {
                    Some(i) => {
                        r.set(i, entry);
                        proof {
                            assert forall|a: int, b: int| 0 <= a < r@.len() && 0 <= b < r@.len() && a != b
                                implies (#[trigger] r@[a]).name@ != (#[trigger] r@[b]).name@ by {
                                if a != i && b != i {
                                    assert(r@[a] == before[a] && r@[b] == before[b]);
                                } else if a == i {
                                    assert(r@[b] == before[b]);
                                } else {
                                    assert(r@[a] == before[a]);
                                }
                            }
                            let m = monitor_map(rs.take(done + 1));
                            assert forall|n: Seq<char>| #[trigger] m.contains_key(n)
                                implies exists|a: int| 0 <= a < r@.len() && (#[trigger] r@[a]).name@ == n by {
                                if n != r@[i as int].name@ {
                                    let a: int = choose|a: int| 0 <= a < before.len() && (#[trigger] before[a]).name@ == n;
                                    assert(r@[a] == before[a]);
                                }
                            }
                        }
                    },
                    None => {
                        r.push(entry);
                        proof {
                            let m = monitor_map(rs.take(done + 1));
                            assert forall|n: Seq<char>| #[trigger] m.contains_key(n)
                                implies exists|a: int| 0 <= a < r@.len() && (#[trigger] r@[a]).name@ == n by {
                                if n != r@[r@.len() - 1].name@ {
                                    let a: int = choose|a: int| 0 <= a < before.len() && (#[trigger] before[a]).name@ == n;
                                    assert(r@[a] == before[a]);
                                }
                            }
                        }
                    },
                }
            },
            _ => {},
        }
        proof {
            done = done + 1;
        }
    }
    assert(rs.take(rs.len() as int) == rs);
    r
}

/// The requests that draw one frame of the window: a hidden window only
/// commits; a shown one damages its whole buffer when it is still waiting for
/// its first frame or its content changed, attaches its buffer where there is
/// one, asks for the next frame and commits.
pub open spec fn window_frame_requests(
    hidden: bool,
    first_configure: bool,
    redraw: bool,
    width: u32,
    height: u32,
    has_buffer: bool,
) -> Seq<SurfaceRequest> {
    if hidden {
        seq![SurfaceRequest::Commit]
    } else {
        (if first_configure || redraw { seq![spec_full_damage(width, height)] } else { Seq::empty() })
            + (if has_buffer { seq![SurfaceRequest::AttachBuffer] } else { Seq::empty() })
            + seq![SurfaceRequest::Frame, SurfaceRequest::Commit]
    }
}

/// What the window remembers from one frame to the next: whether its first
/// frame is still to be drawn.
pub struct WindowFrameState {
    first_configure: bool,
}

impl WindowFrameState {
    /// The first frame of the window is still to be drawn.
    pub closed spec fn first_configure_pending(&self) -> bool {
        self.first_configure
    }

    /// The state of a window that has drawn nothing yet.
    pub fn new() -> (r: Self)
        ensures
            r.first_configure_pending(),
    {
        WindowFrameState { first_configure: true }
    }

    /// The requests that draw the window's next frame on its layer surface,
    /// given whether it is hidden, whether its adapter redrew its content,
    /// the adapter's size and whether the adapter holds a buffer; a shown
    /// frame ends the wait for the first one.
    pub fn converter(&mut self, hidden: bool, redraw: bool, width: u32, height: u32, has_buffer: bool) -> (r: Vec<SurfaceRequest>)
        ensures
            r@ == window_frame_requests(hidden, old(self).first_configure_pending(), redraw, width, height, has_buffer),
            final(self).first_configure_pending() == (hidden && old(self).first_configure_pending()),
            !hidden ==> (r@.contains(SurfaceRequest::AttachBuffer) <==> has_buffer),
            hidden ==> r@ == seq![SurfaceRequest::Commit],
    {
        proof {
            law_window_frame_shape(hidden, self.first_configure, redraw, width, height, has_buffer);
        }
        let mut r: Vec<SurfaceRequest> = Vec::new();
        if !hidden {
            if self.first_configure || redraw {
                self.first_configure = false;
                r.push(full_damage(width, height));
            }
            if has_buffer {
                r.push(SurfaceRequest::AttachBuffer);
            }
            r.push(SurfaceRequest::Frame);
            r.push(SurfaceRequest::Commit);
        } else {
            r.push(SurfaceRequest::Commit);
        }
        r
    }
}

/// Keyboard focus that a layer surface asks for.
#[derive(Debug, Clone, Copy, PartialEq, Eq, Structural)]
pub enum KeyboardInteractivity {
    /// No keyboard focus is possible.
    NoFocus,
    Exclusive,
    OnDemand,
}

/// The layer of the shell on which a surface is drawn.
#[derive(Debug, Clone, Copy, PartialEq, Eq, Structural)]
pub enum Layer {
    Background,
    Bottom,
    Top,
    Overlay,
}

/// How a window is placed on its layer. Anchors are edge sets as the
/// layer-shell protocol encodes them: top 1, bottom 2, left 4, right 8.
pub struct WindowConf {
    pub evaluated_width: u32,
    pub evaluated_height: u32,
    /// Top, right, bottom and left margins.
    pub margin: (i32, i32, i32, i32),
    pub board_interactivity: KeyboardInteractivity,
    pub layer_type: Layer,
    pub anchor: Vec<Option<u32>>,
    pub exclusive_zone: Option<i32>,
}

/// One request on a `zwlr_layer_surface_v1`, in the order in which it is
/// to be sent.
#[derive(Debug, Clone, Copy, PartialEq, Eq, Structural)]
pub enum LayerRequest {
    SetSize { width: u32, height: u32 },
    SetMargin { top: i32, right: i32, bottom: i32, left: i32 },
    SetKeyboardInteractivity(KeyboardInteractivity),
    /// Set the input region to the window's region, or clear it when
    /// `present` is false.
    SetInputRegion { present: bool },
    /// Set the opaque region to the window's region.
    SetOpaqueRegion,
    SetLayer(Layer),
    SetAnchor(u32),
    SetExclusiveZone(i32),
}

/// The union of the anchors that are set in `anchors`, taken from the first
/// to the last; `None` when none is set.
pub open spec fn anchor_union(anchors: Seq<Option<u32>>) -> Option<u32>
    decreases anchors.len(),
{
    if anchors.len() == 0 {
        None
    } else {
        let before = anchor_union(anchors.drop_last());
        match anchors.last() {
            None => before,
            Some(a) => match before {
                None => Some(a),
                Some(c) => Some(c | a),
            },
        }
    }
}

/// The anchor and exclusive-zone requests of a window: the union of its
/// anchors where any is set, then its exclusive zone where it has one.
pub open spec fn anchor_requests(anchors: Seq<Option<u32>>, exclusive_zone: Option<i32>) -> Seq<LayerRequest> {
    (match anchor_union(anchors) {
        Some(a) => seq![LayerRequest::SetAnchor(a)],
        None => Seq::empty(),
    }) + (match exclusive_zone {
        Some(z) => seq![LayerRequest::SetExclusiveZone(z)],
        None => Seq::empty(),
    })
}

/// The requests that place a window on its layer surface: size, margins,
/// keyboard interactivity, input region, the opaque region where there is
/// one, layer, then the anchor requests.
pub open spec fn config_requests(
    conf: WindowConf,
    has_input_region: bool,
    has_opaque_region: bool,
) -> Seq<LayerRequest> {
    seq![
        LayerRequest::SetSize { width: conf.evaluated_width, height: conf.evaluated_height },
        LayerRequest::SetMargin { top: conf.margin.0, right: conf.margin.1, bottom: conf.margin.2, left: conf.margin.3 },
        LayerRequest::SetKeyboardInteractivity(conf.board_interactivity),
        LayerRequest::SetInputRegion { present: has_input_region },
    ] + (if has_opaque_region { seq![LayerRequest::SetOpaqueRegion] } else { Seq::empty() })
        + seq![LayerRequest::SetLayer(conf.layer_type)]
        + anchor_requests(conf.anchor@, conf.exclusive_zone)
}

/// The anchor and exclusive-zone requests for `window_conf`.
pub fn set_anchor(window_conf: &WindowConf) -> (r: Vec<LayerRequest>)
    ensures
        r@ == anchor_requests(window_conf.anchor@, window_conf.exclusive_zone),
{
    let anchors = &window_conf.anchor;
    let mut combined: Option<u32> = None;
    let mut i: usize = 0;
    while i < anchors.len()
        invariant
            i <= anchors@.len(),
            combined == anchor_union(anchors@.take(i as int)),
        decreases anchors@.len() - i,
    {
        assert(anchors@.take(i + 1).drop_last() == anchors@.take(i as int));
        match anchors[i] {
            Some(a) => {
                combined = match combined {
                    None => Some(a),
                    Some(c) => Some(c | a),
                };
            },
            None => {},
        }
        i = i + 1;
    }
    assert(anchors@.take(anchors@.len() as int) == anchors@);
    let mut r: Vec<LayerRequest> = Vec::new();
    if let Some(a) = combined {
        r.push(LayerRequest::SetAnchor(a));
    }
    if let Some(z) = window_conf.exclusive_zone {
        r.push(LayerRequest::SetExclusiveZone(z));
    }
    r
}

/// The requests that configure a window's layer surface from
/// `window_conf`, given whether the window has an input region and an
/// opaque region.
pub fn set_config(window_conf: &WindowConf, has_input_region: bool, has_opaque_region: bool) -> (r: Vec<LayerRequest>)
    ensures
        r@ == config_requests(*window_conf, has_input_region, has_opaque_region),
        r@[0] == (LayerRequest::SetSize { width: window_conf.evaluated_width, height: window_conf.evaluated_height }),
        r@[2] == LayerRequest::SetKeyboardInteractivity(window_conf.board_interactivity),
        r@[3] == (LayerRequest::SetInputRegion { present: has_input_region }),
        r@[if has_opaque_region { 5int } else { 4int }] == LayerRequest::SetLayer(window_conf.layer_type),
        has_opaque_region ==> r@[4] == LayerRequest::SetOpaqueRegion,
{
    let mut r: Vec<LayerRequest> = Vec::new();
    r.push(LayerRequest::SetSize { width: window_conf.evaluated_width, height: window_conf.evaluated_height });
    r.push(LayerRequest::SetMargin {
        top: window_conf.margin.0,
        right: window_conf.margin.1,
        bottom: window_conf.margin.2,
        left: window_conf.margin.3,
    });
    r.push(LayerRequest::SetKeyboardInteractivity(window_conf.board_interactivity));
    r.push(LayerRequest::SetInputRegion { present: has_input_region });
    if has_opaque_region {
        r.push(LayerRequest::SetOpaqueRegion);
    }
    r.push(LayerRequest::SetLayer(window_conf.layer_type));
    let mut anchors = set_anchor(window_conf);
    r.append(&mut anchors);
    r
}

/// The point of the anchor rectangle that an `xdg_positioner` anchors a
/// popup to.
#[derive(Debug, Clone, Copy, PartialEq, Eq, Structural)]
pub enum PopupAnchor {
    /// The centre of the rectangle.
    Center,
    Top,
    Bottom,
    Left,
    Right,
    TopLeft,
    BottomLeft,
    TopRight,
    BottomRight,
}

/// How a popup is placed against its window and how large it is.
pub struct PopupConf {
    pub width: u32,
    pub height: u32,
    pub anchor: PopupAnchor,
    /// x, y, width and height of the anchor rectangle.
    pub anchor_rect: (i32, i32, i32, i32),
}

/// What the `xdg_positioner` of a new popup is given: its size, parent
/// size, anchor and anchor rectangle.
#[derive(Debug, Clone, Copy, PartialEq, Eq)]
pub struct PopupSurfacePlan {
    pub size: (i32, i32),
    pub parent_size: (i32, i32),
    pub anchor: PopupAnchor,
    pub anchor_rect: (i32, i32, i32, i32),
}

/// The positioner of a popup of `conf` on a window of `parent_width` by
/// `parent_height`: sizes converted to `i32` as Rust's `as` does.
pub open spec fn popup_surface_plan(conf: PopupConf, parent_width: u32, parent_height: u32) -> PopupSurfacePlan {
    PopupSurfacePlan {
        size: (conf.width as i32, conf.height as i32),
        parent_size: (parent_width as i32, parent_height as i32),
        anchor: conf.anchor,
        anchor_rect: conf.anchor_rect,
    }
}

/// The positioner requests that open a popup of `popup_conf` on a window
/// whose evaluated size is `parent_width` by `parent_height`; the pool comes
/// from [`popup_pool_size`] once the compositor accepted the popup.
pub fn create_popup_core(popup_conf: &PopupConf, parent_width: u32, parent_height: u32) -> (r: PopupSurfacePlan)
    ensures
        r == popup_surface_plan(*popup_conf, parent_width, parent_height),
        r.anchor == popup_conf.anchor,
        r.anchor_rect == popup_conf.anchor_rect,
        r.size == (popup_conf.width as i32, popup_conf.height as i32),
        r.parent_size == (parent_width as i32, parent_height as i32),
{
    PopupSurfacePlan {
        size: (popup_conf.width as i32, popup_conf.height as i32),
        parent_size: (parent_width as i32, parent_height as i32),
        anchor: popup_conf.anchor,
        anchor_rect: popup_conf.anchor_rect,
    }
}

/// The size in bytes of the shared memory pool for a popup of `width` by
/// `height`: four bytes a pixel.
pub fn popup_pool_size(width: u32, height: u32) -> (r: usize)
    requires
        width * height * 4 <= u32::MAX,
    ensures
        r == width * height * 4,
{
    let area: u32 = width * height;
    (area * 4) as usize
}

/// What a frame of the window asks of its renderer before the requests are
/// decided: whether the adapter draws and the pointer updates its cursor.
#[derive(Debug, Clone, Copy, PartialEq, Eq, Structural)]
pub struct FrameWork {
    pub draw: bool,
    pub update_cursor: bool,
}

/// The work of a frame: a shown window draws and updates its cursor, a
/// hidden one does neither.
pub fn frame_work(hidden: bool) -> (r: FrameWork)
    ensures
        r.draw == !hidden,
        r.update_cursor == !hidden,
{
    FrameWork { draw: !hidden, update_cursor: !hidden }
}

/// The requests that configure the window's own layer surface: its opaque
/// region is always set, its input region where it has one.
pub fn set_config_internal(window_conf: &WindowConf, has_input_region: bool) -> (r: Vec<LayerRequest>)
    ensures
        r@ == config_requests(*window_conf, has_input_region, true),
        r@[2] == LayerRequest::SetKeyboardInteractivity(window_conf.board_interactivity),
        r@[4] == LayerRequest::SetOpaqueRegion,
        r@[5] == LayerRequest::SetLayer(window_conf.layer_type),
{
    set_config(window_conf, has_input_region, true)
}

/// The file, under the runtime directory, that the command-line tool writes
/// its commands to.
pub open spec fn spec_socket_cli_path(runtime_dir: Seq<char>) -> Seq<char> {
    runtime_dir + "/spell/"@ + "/spell_cli"@
}

/// The path of the command file under `runtime_dir`.
pub fn socket_cli_path(runtime_dir: String) -> (r: String)
    ensures
        r@ == spec_socket_cli_path(runtime_dir@),
{
    let logging_dir = runtime_dir.concat("/spell/");
    logging_dir.concat("/spell_cli")
}

/// What a command file asks of the log filter.
#[derive(Debug, Clone, Copy, PartialEq, Eq)]
pub enum LogCommand {
    /// The file is empty: nothing to do.
    Nothing,
    /// Replace the log filter by these directives.
    SetFilter(&'static str),
    /// The first line names no known command.
    Unknown,
}

/// The filter directives that the command `command` selects, if it is one.
pub open spec fn log_filter_directives(command: Seq<char>) -> Option<Seq<char>> {
    if command == "slint_log"@ {
        Some("spell_framework::slint_adapter=info,warn"@)
    } else if command == "debug"@ {
        Some("spell_framework=info,warn"@)
    } else if command == "dump"@ {
        Some("spell_framework=trace,info"@)
    } else if command == "dev"@ {
        Some("spell_framework=trace,warn"@)
    } else {
        None
    }
}

/// The command that the lines of the command file give: the first line
/// names it.
pub fn log_command(lines: &Vec<String>) -> (r: LogCommand)
    ensures
        lines@.len() == 0 ==> r == LogCommand::Nothing,
        lines@.len() > 0 ==> match log_filter_directives(lines@[0]@) {
            Some(d) => r matches LogCommand::SetFilter(f) && f@ == d,
            None => r == LogCommand::Unknown,
        },
{
    if lines.len() == 0 {
        return LogCommand::Nothing;
    }
    let command = &lines[0];
    if *command == "slint_log".to_owned() {
        LogCommand::SetFilter("spell_framework::slint_adapter=info,warn")
    } else if *command == "debug".to_owned() {
        LogCommand::SetFilter("spell_framework=info,warn")
    } else if *command == "dump".to_owned() {
        LogCommand::SetFilter("spell_framework=trace,info")
    } else if *command == "dev".to_owned() {
        LogCommand::SetFilter("spell_framework=trace,warn")
    } else {
        LogCommand::Unknown
    }
}

/// Law: every output that reported both a name and a logical size is among
/// the available monitors under that name.
pub proof fn law_reported_output_is_available<O>(reports: Seq<OutputReport<O>>, i: int)
    requires
        0 <= i < reports.len(),
        reports[i].name is Some,
        reports[i].logical_size is Some,
    ensures
        monitor_map(reports).contains_key(reports[i].name->0@),
    decreases reports.len(),
{
    let last: int = reports.len() - 1;
    if i < last {
        law_reported_output_is_available(reports.drop_last(), i);
        assert(reports.drop_last()[i] == reports[i]);
    }
}

/// Law: a monitor is available only under a name that some output reported
/// together with a logical size, and its output, width and height are those
/// of the last such report of that name.
pub proof fn law_available_monitor_is_last_report<O>(reports: Seq<OutputReport<O>>, name: Seq<char>)
    requires
        monitor_map(reports).contains_key(name),
    ensures
        exists|i: int| 0 <= i < reports.len() && {
            let r = #[trigger] reports[i];
            &&& r.name matches Some(n) && n@ == name
            &&& r.logical_size matches Some((w, h))
                && monitor_map(reports)[name] == (r.output, w, h)
            &&& forall|j: int| i < j < reports.len() ==> !((#[trigger] reports[j]).name matches Some(m) && m@ == name
                && reports[j].logical_size is Some)
        },
    decreases reports.len(),
{
    let last: int = reports.len() - 1;
    let r = reports[last];
    if r.name matches Some(n) && n@ == name && r.logical_size is Some {
        assert(reports[last] == r);
    } else {
        let before = reports.drop_last();
        assert(monitor_map(before).contains_key(name));
        law_available_monitor_is_last_report(before, name);
        let i: int = choose|i: int| 0 <= i < before.len() && {
            let r = #[trigger] before[i];
            &&& r.name matches Some(n) && n@ == name
            &&& r.logical_size matches Some((w, h))
                && monitor_map(before)[name] == (r.output, w, h)
            &&& forall|j: int| i < j < before.len() ==> !((#[trigger] before[j]).name matches Some(m) && m@ == name
                && before[j].logical_size is Some)
        };
        assert(reports[i] == before[i]);
        assert forall|j: int| i < j < reports.len() implies !((#[trigger] reports[j]).name matches Some(m) && m@ == name
            && reports[j].logical_size is Some) by {
            if j < last {
                assert(reports[j] == before[j]);
            }
        }
    }
}

/// Law: every frame of the window, shown or hidden, ends with a commit, and
/// asks for a frame callback exactly when the window is shown.
pub proof fn law_window_frame_commits(
    hidden: bool,
    first_configure: bool,
    redraw: bool,
    width: u32,
    height: u32,
    has_buffer: bool,
)
    ensures
        ({
            let rs = window_frame_requests(hidden, first_configure, redraw, width, height, has_buffer);
            &&& rs.len() > 0 && rs.last() == SurfaceRequest::Commit
            &&& rs.contains(SurfaceRequest::Frame) <==> !hidden
        }),
{
    let rs = window_frame_requests(hidden, first_configure, redraw, width, height, has_buffer);
    if !hidden {
        assert(rs[rs.len() - 2] == SurfaceRequest::Frame);
    } else {
        assert(rs =~= seq![SurfaceRequest::Commit]);
    }
}

/// Law: the first frame of a shown window damages its whole buffer before
/// anything else.
pub proof fn law_first_window_frame_damages_all(redraw: bool, width: u32, height: u32, has_buffer: bool)
    ensures
        window_frame_requests(false, true, redraw, width, height, has_buffer)[0] == spec_full_damage(width, height),
{
}

/// Law: the anchor sent for a window holds every edge of every anchor it
/// sets.
pub proof fn law_anchor_union_covers(anchors: Seq<Option<u32>>, i: int)
    requires
        0 <= i < anchors.len(),
        anchors[i] is Some,
    ensures
        anchor_union(anchors) matches Some(u) && u & anchors[i]->0 == anchors[i]->0,
    decreases anchors.len(),
{
    let last: int = anchors.len() - 1;
    let before = anchors.drop_last();
    if i < last {
        law_anchor_union_covers(before, i);
        assert(before[i] == anchors[i]);
        let x: u32 = anchors[i]->0;
        let c: u32 = anchor_union(before)->0;
        if let Some(a) = anchors.last() {
            assert((c | a) & x == x) by (bit_vector)
                requires
                    c & x == x,
            ;
        }
    } else {
        let a: u32 = anchors[i]->0;
        assert(anchors.last() == anchors[i]);
        if let Some(c) = anchor_union(before) {
            assert((c | a) & a == a) by (bit_vector);
        } else {
            assert(a & a == a) by (bit_vector);
        }
    }
}

/// Law: the anchor sent for a window holds no edge beyond those of the
/// anchors it sets: it fits in every mask that holds all of them.
pub proof fn law_anchor_union_least(anchors: Seq<Option<u32>>, mask: u32)
    requires
        forall|i: int| 0 <= i < anchors.len() && (#[trigger] anchors[i]) is Some ==> anchors[i]->0 | mask == mask,
    ensures
        anchor_union(anchors) matches Some(u) ==> u | mask == mask,
    decreases anchors.len(),
{
    if anchors.len() > 0 {
        let before = anchors.drop_last();
        assert forall|i: int| 0 <= i < before.len() && (#[trigger] before[i]) is Some implies before[i]->0 | mask == mask by {
            assert(before[i] == anchors[i]);
        }
        law_anchor_union_least(before, mask);
        if let Some(a) = anchors.last() {
            assert(anchors[anchors.len() - 1] == anchors.last());
            if let Some(c) = anchor_union(before) {
                assert((c | a) | mask == mask) by (bit_vector)
                    requires
                        c | mask == mask,
                        a | mask == mask,
                ;
            }
        }
    }
}

/// Law: an anchor is sent exactly when the window sets at least one.
pub proof fn law_anchor_sent_iff_set(anchors: Seq<Option<u32>>)
    ensures
        anchor_union(anchors) is Some <==> exists|i: int| 0 <= i < anchors.len() && (#[trigger] anchors[i]) is Some,
    decreases anchors.len(),
{
    if anchors.len() > 0 {
        let before = anchors.drop_last();
        law_anchor_sent_iff_set(before);
        if anchor_union(before) is Some {
            let i: int = choose|i: int| 0 <= i < before.len() && (#[trigger] before[i]) is Some;
            assert(anchors[i] == before[i]);
        }
        if exists|i: int| 0 <= i < anchors.len() && (#[trigger] anchors[i]) is Some {
            let i: int = choose|i: int| 0 <= i < anchors.len() && (#[trigger] anchors[i]) is Some;
            if i < anchors.len() - 1 {
                assert(anchors[i] == before[i]);
            }
        }
    }
}

/// Law: a shown window frame is, in this order, the whole-buffer damage
/// exactly when the window waits for its first frame or its content changed,
/// the attach of the buffer exactly when the adapter holds one, the frame
/// callback and the commit; a hidden frame attaches, damages and asks for
/// nothing.
pub proof fn law_window_frame_shape(
    hidden: bool,
    first_configure: bool,
    redraw: bool,
    width: u32,
    height: u32,
    has_buffer: bool,
)
    ensures
        ({
            let rs = window_frame_requests(hidden, first_configure, redraw, width, height, has_buffer);
            let damaged = first_configure || redraw;
            let d: int = if damaged { 1 } else { 0 };
            let a: int = if has_buffer { 1 } else { 0 };
            &&& !hidden ==> {
                &&& rs.len() == d + a + 2
                &&& rs.contains(SurfaceRequest::AttachBuffer) <==> has_buffer
                &&& rs.contains(spec_full_damage(width, height)) <==> damaged
                &&& damaged ==> rs[0] == spec_full_damage(width, height)
                &&& has_buffer ==> rs[d] == SurfaceRequest::AttachBuffer
                &&& rs[d + a] == SurfaceRequest::Frame
                &&& rs[d + a + 1] == SurfaceRequest::Commit
            }
            &&& hidden ==> rs.len() == 1 && rs[0] == SurfaceRequest::Commit
        }),
{
    let rs = window_frame_requests(hidden, first_configure, redraw, width, height, has_buffer);
    let dmg = spec_full_damage(width, height);
    if !hidden {
        if first_configure || redraw {
            if has_buffer {
                assert(rs =~= seq![dmg, SurfaceRequest::AttachBuffer, SurfaceRequest::Frame, SurfaceRequest::Commit]);
                assert(rs[1] == SurfaceRequest::AttachBuffer);
                assert(rs[0] == dmg);
            } else {
                assert(rs =~= seq![dmg, SurfaceRequest::Frame, SurfaceRequest::Commit]);
                assert(rs[0] == dmg);
                assert(!rs.contains(SurfaceRequest::AttachBuffer)) by {
                    if rs.contains(SurfaceRequest::AttachBuffer) {
                        let i: int = choose|i: int| 0 <= i < rs.len() && rs[i] == SurfaceRequest::AttachBuffer;
                        assert(i == 0 || i == 1 || i == 2);
                    }
                }
            }
        } else {
            if has_buffer {
                assert(rs =~= seq![SurfaceRequest::AttachBuffer, SurfaceRequest::Frame, SurfaceRequest::Commit]);
                assert(rs[0] == SurfaceRequest::AttachBuffer);
                assert(!rs.contains(dmg)) by {
                    if rs.contains(dmg) {
                        let i: int = choose|i: int| 0 <= i < rs.len() && rs[i] == dmg;
                        assert(i == 0 || i == 1 || i == 2);
                    }
                }
            } else {
                assert(rs =~= seq![SurfaceRequest::Frame, SurfaceRequest::Commit]);
                assert(!rs.contains(SurfaceRequest::AttachBuffer)) by {
                    if rs.contains(SurfaceRequest::AttachBuffer) {
                        let i: int = choose|i: int| 0 <= i < rs.len() && rs[i] == SurfaceRequest::AttachBuffer;
                        assert(i == 0 || i == 1);
                    }
                }
                assert(!rs.contains(dmg)) by {
                    if rs.contains(dmg) {
                        let i: int = choose|i: int| 0 <= i < rs.len() && rs[i] == dmg;
                        assert(i == 0 || i == 1);
                    }
                }
            }
        }
    } else {
        assert(rs =~= seq![SurfaceRequest::Commit]);
    }
}

/// Law: configuring a window's layer surface sends, in this order, the
/// window's evaluated size, its margins, its own keyboard interactivity, the
/// input region exactly as present, the opaque region exactly when there is
/// one, its own layer, and then its anchor requests.
pub proof fn law_config_carries_window_settings(conf: WindowConf, has_input_region: bool, has_opaque_region: bool)
    ensures
        ({
            let rs = config_requests(conf, has_input_region, has_opaque_region);
            let o: int = if has_opaque_region { 1 } else { 0 };
            let tail = anchor_requests(conf.anchor@, conf.exclusive_zone);
            &&& rs.len() == 5 + o + tail.len()
            &&& rs[0] == LayerRequest::SetSize { width: conf.evaluated_width, height: conf.evaluated_height }
            &&& rs[1] == LayerRequest::SetMargin {
                top: conf.margin.0,
                right: conf.margin.1,
                bottom: conf.margin.2,
                left: conf.margin.3,
            }
            &&& rs[2] == LayerRequest::SetKeyboardInteractivity(conf.board_interactivity)
            &&& rs[3] == LayerRequest::SetInputRegion { present: has_input_region }
            &&& has_opaque_region ==> rs[4] == LayerRequest::SetOpaqueRegion
            &&& rs[4 + o] == LayerRequest::SetLayer(conf.layer_type)
            &&& rs.subrange(5 + o, rs.len() as int) == tail
        }),
{
    let rs = config_requests(conf, has_input_region, has_opaque_region);
    let o: int = if has_opaque_region { 1 } else { 0 };
    let tail = anchor_requests(conf.anchor@, conf.exclusive_zone);
    assert(rs.subrange(5 + o, rs.len() as int) =~= tail);
}

/// Law: the anchor requests of a window are the union of its set anchors
/// where any is set, then its exclusive zone where it has one, and nothing
/// else.
pub proof fn law_anchor_requests_shape(anchors: Seq<Option<u32>>, exclusive_zone: Option<i32>)
    ensures
        ({
            let rs = anchor_requests(anchors, exclusive_zone);
            let a: int = if anchor_union(anchors) is Some { 1 } else { 0 };
            let z: int = if exclusive_zone is Some { 1 } else { 0 };
            &&& rs.len() == a + z
            &&& anchor_union(anchors) matches Some(u) ==> rs[0] == LayerRequest::SetAnchor(u)
            &&& exclusive_zone matches Some(v) ==> rs[a] == LayerRequest::SetExclusiveZone(v)
        }),
{
}

/// Law: the positioner of a new popup carries the popup's own anchor and
/// anchor rectangle unchanged, its size and the window's size converted to
/// `i32` as Rust's `as` does.
pub proof fn law_popup_plan_carries_conf(conf: PopupConf, parent_width: u32, parent_height: u32)
    ensures
        popup_surface_plan(conf, parent_width, parent_height).anchor == conf.anchor,
        popup_surface_plan(conf, parent_width, parent_height).anchor_rect == conf.anchor_rect,
        popup_surface_plan(conf, parent_width, parent_height).size == (conf.width as i32, conf.height as i32),
        popup_surface_plan(conf, parent_width, parent_height).parent_size == (parent_width as i32, parent_height as i32),
{
}

/// Law: the command file knows four commands, each selecting its filter
/// directives; every other first line selects none.
pub proof fn law_log_filter_commands(command: Seq<char>)
    ensures
        log_filter_directives("slint_log"@) == Some("spell_framework::slint_adapter=info,warn"@),
        log_filter_directives("debug"@) == Some("spell_framework=info,warn"@),
        log_filter_directives("dump"@) == Some("spell_framework=trace,info"@),
        log_filter_directives("dev"@) == Some("spell_framework=trace,warn"@),
        command != "slint_log"@ && command != "debug"@ && command != "dump"@ && command != "dev"@
            ==> log_filter_directives(command) is None,
{
    reveal_strlit("slint_log");
    reveal_strlit("debug");
    reveal_strlit("dump");
    reveal_strlit("dev");
    assert("debug"@ != "slint_log"@) by {
        assert("debug"@.len() != "slint_log"@.len());
    }
    assert("dump"@ != "slint_log"@) by {
        assert("dump"@.len() != "slint_log"@.len());
    }
    assert("dump"@ != "debug"@) by {
        assert("dump"@.len() != "debug"@.len());
    }
    assert("dev"@ != "slint_log"@) by {
        assert("dev"@.len() != "slint_log"@.len());
    }
    assert("dev"@ != "debug"@) by {
        assert("dev"@.len() != "debug"@.len());
    }
    assert("dev"@ != "dump"@) by {
        assert("dev"@.len() != "dump"@.len());
    }
}

/// Law: the command file lies under the runtime directory: its path starts
/// with that directory and ends with `/spell_cli`, after the `/spell/`
/// directory.
pub proof fn law_socket_path_under_runtime_dir(runtime_dir: Seq<char>)
    ensures
        spec_socket_cli_path(runtime_dir).len() == runtime_dir.len() + "/spell/"@.len() + "/spell_cli"@.len(),
        spec_socket_cli_path(runtime_dir).subrange(0, runtime_dir.len() as int) == runtime_dir,
        spec_socket_cli_path(runtime_dir).subrange(runtime_dir.len() as int, (runtime_dir.len() + "/spell/"@.len()) as int) == "/spell/"@,
        spec_socket_cli_path(runtime_dir).subrange(
            (runtime_dir.len() + "/spell/"@.len()) as int,
            spec_socket_cli_path(runtime_dir).len() as int,
        ) == "/spell_cli"@,
{
    let p = spec_socket_cli_path(runtime_dir);
    let n = runtime_dir.len() as int;
    let m = "/spell/"@.len() as int;
    assert(p.subrange(0, n) =~= runtime_dir);
    assert(p.subrange(n, n + m) =~= "/spell/"@);
    assert(p.subrange(n + m, p.len() as int) =~= "/spell_cli"@);
}

} // verus!
