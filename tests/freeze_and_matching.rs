use hyprshot_rs::capture::{visible_client_boxes, ClientWindow, format_window_box, grab_active_window, grab_selected_output, monitor_containing, select_modes, trim, CaptureError, WindowRect};
use hyprshot_rs::cli::{parse_mode, Mode};
use hyprshot_rs::freeze::{
    capture_failure_report, check_globals, check_mapping, convert_pixels, is_missing_screencopy_msg, overlay_size,
    overlays_report, shm_layout, FreezeController, FreezeError, FreezeState, ShmLayout, StartOutcome, StopAction,
    WorkerReport,
};
use hyprshot_rs::geometry::{Geometry, GeometryError};
use hyprshot_rs::matcher::{match_capture_to_outputs, resolve_by_name, FrameInfo, MatchError};
use hyprshot_rs::outputs::{geometry_close, OutputDescriptor, OutputEvent, ResolveError};
use hyprshot_rs::sway::{collect_visible_windows, find_focused_window, SwayNode};
use hyprshot_rs::registry::{bind_version, classify_global, GlobalKind, OutputRegistry};

fn named(name: &str) -> OutputDescriptor {
    let mut d = OutputDescriptor::empty();
    d.name = Some(name.to_string());
    d
}

fn frame(name: &str, g: (i32, i32, i32, i32)) -> FrameInfo {
    FrameInfo { name: name.to_string(), geometry: g }
}

#[test]
fn exact_name_pairs_frame() {
    let mut d = named("DP-1");
    d.logical_size = Some((1920, 1080));
    d.logical_position = Some((0, 0));
    let frames = vec![frame("DP-1", (0, 0, 1920, 1080))];
    let r = match_capture_to_outputs(&vec![d], &frames, None);
    assert_eq!(r, Ok(vec![Some(0)]));
}

#[test]
fn derived_size_pairs_by_geometry() {
    let mut d = OutputDescriptor::empty();
    d.mode_size = Some((3840, 2160));
    d.scale = 2;
    d.position = Some((0, 0));
    assert_eq!(d.logical_size(), Some((1920, 1080)));
    let descriptors = vec![named("HDMI-A-1"), d];
    let frames = vec![frame("eDP-1", (0, 0, 1920, 1080)), frame("unrelated", (5000, 0, 800, 600))];
    let r = match_capture_to_outputs(&descriptors, &frames, None);
    assert_eq!(r, Ok(vec![Some(1), Some(0)]));
}

#[test]
fn name_outranks_geometry() {
    let mut a = named("DP-2");
    a.logical_position = Some((0, 0));
    a.logical_size = Some((1920, 1080));
    let frames = vec![frame("DP-1", (0, 0, 1920, 1080)), frame("DP-2", (1920, 0, 1920, 1080))];
    let r = match_capture_to_outputs(&vec![a], &frames, None);
    assert_eq!(r, Ok(vec![Some(1)]));
}

#[test]
fn leftover_frames_fill_in_order() {
    let descriptors = vec![named("X"), OutputDescriptor::empty(), OutputDescriptor::empty()];
    let frames = vec![frame("A", (0, 0, 10, 10)), frame("X", (0, 0, 10, 10))];
    let r = match_capture_to_outputs(&descriptors, &frames, None);
    assert_eq!(r, Ok(vec![Some(1), Some(0), None]));
}

#[test]
fn empty_mapping_is_not_an_error() {
    let r = match_capture_to_outputs(&Vec::new(), &vec![frame("A", (0, 0, 1, 1))], None);
    assert_eq!(r, Ok(Vec::new()));
    let r = match_capture_to_outputs(&vec![named("A")], &Vec::new(), None);
    assert_eq!(r, Ok(vec![None]));
    assert_eq!(check_mapping(&vec![None]), Some(WorkerReport::Failed(FreezeError::NoMatch)));
    assert_eq!(check_mapping(&vec![None, Some(0)]), None);
}

#[test]
fn matching_is_deterministic() {
    let descriptors = vec![named("A"), named("B"), OutputDescriptor::empty()];
    let frames = vec![frame("B", (0, 0, 1, 1)), frame("C", (0, 0, 1, 1)), frame("A", (0, 0, 1, 1))];
    let first = match_capture_to_outputs(&descriptors, &frames, None);
    let second = match_capture_to_outputs(&descriptors, &frames, None);
    assert_eq!(first, second);
    assert_eq!(first, Ok(vec![Some(2), Some(0), Some(1)]));
}

#[test]
fn selected_output_tiers() {
    let frames = vec![frame("DP-1", (0, 0, 1920, 1080)), frame("DP-2", (1920, 0, 1920, 1080))];
    let by_name = vec![named("DP-1"), named("DP-2")];
    assert_eq!(match_capture_to_outputs(&by_name, &frames, Some("DP-2")), Ok(vec![None, Some(1)]));

    let mut near = OutputDescriptor::empty();
    near.logical_position = Some((1921, 1));
    near.logical_size = Some((1919, 1081));
    let by_geometry = vec![named("other"), near];
    assert_eq!(match_capture_to_outputs(&by_geometry, &frames, Some("DP-2")), Ok(vec![None, Some(1)]));

    let fallback = vec![named("x"), named("y")];
    assert_eq!(match_capture_to_outputs(&fallback, &frames, Some("DP-2")), Ok(vec![Some(1), None]));

    assert_eq!(match_capture_to_outputs(&fallback, &frames, Some("DP-9")), Err(MatchError::NotFound));
}

#[test]
fn closeness_laws() {
    let a = (10, 20, 300, 400);
    assert!(geometry_close(a, a));
    assert!(geometry_close(a, (11, 19, 301, 399)));
    assert!(geometry_close((11, 19, 301, 399), a));
    assert!(!geometry_close(a, (12, 20, 300, 400)));
    assert!(!geometry_close(a, (10, 20, 300, 402)));
    assert!(!geometry_close((i32::MIN, 0, 0, 0), (i32::MAX, 0, 0, 0)));
}

#[test]
fn construction_rejects_non_positive_sizes() {
    assert_eq!(Geometry::new(0, 0, 0, 5), Err(GeometryError::NonPositiveSize));
    assert_eq!(Geometry::new(0, 0, 5, -1), Err(GeometryError::NonPositiveSize));
    assert_eq!(Geometry::new(0, 0, i32::MIN, i32::MIN), Err(GeometryError::NonPositiveSize));
    assert!(Geometry::new(-5, -5, 1, 1).is_ok());
}

#[test]
fn geometry_text_round_trip() {
    for (x, y, w, h) in [(10, 20, 300, 400), (-7, 0, 1, 1), (i32::MIN, i32::MAX, i32::MAX, 2)] {
        let g = match Geometry::new(x, y, w, h) {
            Ok(g) => g,
            Err(e) => panic!("construction failed: {:?}", e),
        };
        let text = g.to_string();
        assert_eq!(Geometry::parse(&text), Ok(g));
    }
    assert_eq!(Geometry::new(-7, 0, 1, 1).map(|g| g.to_string()), Ok("-7,0 1x1".to_string()));
}

#[test]
fn geometry_parse_errors() {
    assert_eq!(Geometry::parse("   "), Err(GeometryError::Empty));
    assert_eq!(Geometry::parse("1,2"), Err(GeometryError::Malformed));
    assert_eq!(Geometry::parse("1,2 3x4 5"), Err(GeometryError::Malformed));
    assert_eq!(Geometry::parse("1,2,3 3x4"), Err(GeometryError::Malformed));
    assert_eq!(Geometry::parse("a,2 3x4"), Err(GeometryError::InvalidNumber));
    assert_eq!(Geometry::parse("1,2 3x99999999999"), Err(GeometryError::InvalidNumber));
    assert_eq!(Geometry::parse(" +1,-2\t3x4\n").map(|g| (g.x, g.y, g.width, g.height)), Ok((1, -2, 3, 4)));
    assert_eq!(Geometry::parse("\u{3000}1,2\u{2003}3x4\u{a0}").map(|g| (g.x, g.y, g.width, g.height)), Ok((1, 2, 3, 4)));
}

#[test]
fn missing_overlay_layer_disables_freeze() {
    let mut c = FreezeController::new();
    c.begin();
    let report = check_globals(true, true, false);
    assert_eq!(report, Some(WorkerReport::Unavailable));
    assert_eq!(c.on_report(report), (StartOutcome::Disabled, StopAction::Nothing));
    assert_eq!(c.state(), FreezeState::Disabled);
    assert_eq!(c.stop(), StopAction::Nothing);
    assert_eq!(c.state(), FreezeState::Stopped);
}

#[test]
fn screencopy_failure_disables_freeze() {
    let report = capture_failure_report("Protocol wlr-screencopy-unstable-v1 NOT supported");
    assert_eq!(report, WorkerReport::Unavailable);
    let mut c = FreezeController::new();
    c.begin();
    assert_eq!(c.on_report(Some(report)), (StartOutcome::Disabled, StopAction::Nothing));
    assert_eq!(capture_failure_report("connection reset"), WorkerReport::Failed(FreezeError::Capture));
    assert!(is_missing_screencopy_msg("ScreenCopy manager missing"));
    assert!(!is_missing_screencopy_msg("screen copy"));
    assert!(!is_missing_screencopy_msg(""));
}

#[test]
fn readiness_timeout_fails_and_tears_down() {
    let mut c = FreezeController::new();
    c.begin();
    assert!(c.worker_live());
    assert_eq!(c.on_report(None), (StartOutcome::Failed(FreezeError::Timeout), StopAction::SignalAndJoin));
    assert!(!c.worker_live());
    assert_eq!(c.stop(), StopAction::Nothing);
}

#[test]
fn ready_session_stops_once() {
    let mut c = FreezeController::new();
    c.begin();
    assert_eq!(c.on_report(Some(overlays_report(2))), (StartOutcome::Ready, StopAction::Nothing));
    assert_eq!(c.stop(), StopAction::SignalAndJoin);
    assert_eq!(c.stop(), StopAction::Nothing);
    assert_eq!(overlays_report(0), WorkerReport::Failed(FreezeError::NoMatch));
    assert_eq!(check_globals(false, true, true), Some(WorkerReport::Failed(FreezeError::Protocol)));
    assert_eq!(check_globals(true, true, true), None);
}

#[test]
fn pixels_swap_first_and_third_channel() {
    let src = vec![1, 2, 3, 4, 5, 6, 7, 8];
    assert_eq!(convert_pixels(&src, 2, 1), Ok(vec![3, 2, 1, 4, 7, 6, 5, 8]));
    assert_eq!(convert_pixels(&src, 1, 1), Err(FreezeError::Format));
    assert_eq!(convert_pixels(&Vec::new(), 0, 5), Ok(Vec::new()));
}

#[test]
fn shm_layout_sizes() {
    assert_eq!(shm_layout(1920, 1080), Ok(ShmLayout { width: 1920, height: 1080, stride: 7680, size: 8294400 }));
    assert_eq!(shm_layout(1 << 29, 1), Err(FreezeError::Resource));
    assert_eq!(shm_layout(40000, 40000), Err(FreezeError::Resource));
}

#[test]
fn descriptor_events_and_derivations() {
    let mut reg = OutputRegistry::new();
    assert_eq!(reg.announce(classify_global("wl_compositor")), None);
    assert_eq!(reg.announce(classify_global("wl_output")), Some(0));
    assert!(reg.has_compositor && !reg.has_layer_shell);
    reg.apply(0, OutputEvent::Mode { current: false, width: 800, height: 600 });
    reg.apply(0, OutputEvent::Mode { current: true, width: 2560, height: 1600 });
    reg.apply(0, OutputEvent::Scale { factor: 0 });
    reg.apply(0, OutputEvent::Scale { factor: 2 });
    reg.apply(0, OutputEvent::Position { x: 0, y: 0 });
    reg.apply(0, OutputEvent::Name { name: "eDP-1".to_string() });
    reg.apply(7, OutputEvent::Name { name: "ignored".to_string() });
    let d = &reg.outputs[0];
    assert_eq!(d.mode_size, Some((2560, 1600)));
    assert_eq!(d.logical_size(), Some((1280, 800)));
    assert_eq!(d.buffer_scale(), 2);
    assert_eq!(overlay_size(d), Some((1280, 800)));
    assert_eq!(grab_selected_output("eDP-1", &reg.outputs), Ok(Geometry { x: 0, y: 0, width: 1280, height: 800 }));
    assert_eq!(grab_selected_output("DP-1", &reg.outputs), Err(CaptureError::Output(ResolveError::NotFound)));
    assert_eq!(resolve_by_name(&reg.outputs, "eDP-1"), Ok(0));

    let mut odd = OutputDescriptor::empty();
    odd.mode_size = Some((3000, 2000));
    odd.scale = 2;
    odd.logical_size = Some((2000, 1333));
    odd.logical_position = Some((5, 5));
    assert_eq!(odd.buffer_scale(), 1);
    odd.logical_size = Some((1000, 667));
    assert_eq!(odd.buffer_scale(), 3);
    assert_eq!(OutputDescriptor::empty().resolve_logical_geometry(), Err(ResolveError::Incomplete));

    let mut rounding = OutputDescriptor::empty();
    rounding.mode_size = Some((5, 3));
    rounding.scale = 2;
    assert_eq!(rounding.logical_size(), Some((3, 2)));
    assert_eq!(bind_version(GlobalKind::Compositor, 6), 5);
    assert_eq!(bind_version(GlobalKind::Output, 2), 2);
    assert_eq!(classify_global("wl_seat"), GlobalKind::Other);
}

#[test]
fn crop_to_monitor() {
    let g = Geometry { x: -10, y: 50, width: 100, height: 100 };
    assert_eq!(trim(&g, Some((0, 0, 60, 120))), Ok(Geometry { x: 0, y: 50, width: 60, height: 70 }));
    assert_eq!(trim(&g, None), Ok(g));
    assert_eq!(trim(&g, Some((500, 500, 10, 10))), Err(CaptureError::EmptyCrop));

    let mut d = OutputDescriptor::empty();
    d.logical_position = Some((1920, 0));
    d.logical_size = Some((1280, 1024));
    let outputs = vec![named("no-geometry"), d];
    assert_eq!(monitor_containing(&outputs, 2000, 10), Some((1920, 0, 1280, 1024)));
    assert_eq!(monitor_containing(&outputs, 10, 10), None);
}

#[test]
fn active_window_fallbacks() {
    let full = WindowRect { x: Some(1), y: Some(2), width: Some(3), height: Some(4) };
    let partial = WindowRect { x: None, y: Some(2), width: Some(30), height: Some(40) };
    assert_eq!(grab_active_window(Some(full), None), Ok(Geometry { x: 1, y: 2, width: 3, height: 4 }));
    assert_eq!(grab_active_window(Some(partial), Some(partial)), Ok(Geometry { x: 0, y: 2, width: 30, height: 40 }));
    let flat = WindowRect { x: Some(0), y: Some(0), width: Some(0), height: Some(5) };
    assert_eq!(grab_active_window(Some(flat), Some(flat)), Err(CaptureError::Unsupported));
    assert_eq!(grab_active_window(None, None), Err(CaptureError::Unsupported));
    assert_eq!(format_window_box(1, 2, 3, 4, "a\nb"), Some("1,2 3x4 a b".to_string()));
    assert_eq!(format_window_box(1, 2, 0, 4, "t"), None);
}

#[test]
fn mode_selection_keeps_last_choice() {
    let modes = vec![parse_mode("window"), parse_mode("DP-1"), parse_mode("active"), parse_mode("output"), parse_mode("HDMI-A-1")];
    let sel = select_modes(&modes);
    assert!(matches!(sel.option, Some(Mode::Output)));
    assert!(sel.current);
    assert_eq!(sel.selected_monitor, Some("HDMI-A-1".to_string()));
    let none = select_modes(&Vec::new());
    assert!(none.option.is_none() && !none.current && none.selected_monitor.is_none());
}

#[test]
fn client_boxes_on_active_workspaces() {
    let rect = |x, y, w, h| WindowRect { x: Some(x), y: Some(y), width: Some(w), height: Some(h) };
    let clients = vec![
        ClientWindow { workspace: Some(2), rect: rect(0, 0, 100, 50), title: "term".to_string() },
        ClientWindow { workspace: Some(12), rect: rect(5, 5, 10, 10), title: "hidden".to_string() },
        ClientWindow { workspace: None, rect: rect(5, 5, 10, 10), title: "none".to_string() },
        ClientWindow { workspace: Some(2), rect: rect(5, 5, 0, 10), title: "flat".to_string() },
        ClientWindow { workspace: Some(3), rect: rect(-5, 7, 20, 30), title: "web".to_string() },
    ];
    assert_eq!(
        visible_client_boxes(&clients, &vec![2, 3]),
        vec!["0,0 100x50 term".to_string(), "-5,7 20x30 web".to_string()]
    );
}

fn node(kind: &str, name: &str, focused: bool, app: bool, rect: (i64, i64, i64, i64), nodes: Vec<SwayNode>) -> SwayNode {
    SwayNode {
        kind: kind.to_string(),
        name: Some(name.to_string()),
        focused,
        has_app_id: app,
        has_window_properties: false,
        rect: WindowRect { x: Some(rect.0), y: Some(rect.1), width: Some(rect.2), height: Some(rect.3) },
        nodes,
        floating_nodes: Vec::new(),
    }
}

#[test]
fn window_tree_walk() {
    let shown = node(
        "workspace",
        "1",
        false,
        false,
        (0, 0, 1920, 1080),
        vec![
            node("con", "editor\nmain", false, true, (0, 0, 960, 1080), Vec::new()),
            node("con", "split", false, false, (960, 0, 960, 1080), vec![node("con", "term", true, true, (960, 0, 960, 540), Vec::new())]),
        ],
    );
    let hidden = node("workspace", "2", false, false, (0, 0, 1920, 1080), vec![node("con", "mail", false, true, (0, 0, 100, 100), Vec::new())]);
    let root = node("root", "root", false, false, (0, 0, 1920, 1080), vec![shown, hidden]);

    let mut boxes = Vec::new();
    collect_visible_windows(&root, &vec!["1".to_string()], false, &mut boxes);
    assert_eq!(boxes, vec!["0,0 960x1080 editor main".to_string(), "960,0 960x540 term".to_string()]);

    let r = find_focused_window(&root);
    assert_eq!(r, Some(WindowRect { x: Some(960), y: Some(0), width: Some(960), height: Some(540) }));
    let none = node("root", "root", false, false, (0, 0, 1, 1), Vec::new());
    assert_eq!(find_focused_window(&none), None);
}
