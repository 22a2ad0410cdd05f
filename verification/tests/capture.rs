use std::collections::HashMap;

use niri_core::image_copy_capture::{
    constraints_for_renderer, find_output, find_source_size, group_formats, CaptureFailureReason,
    CapturedOutput, CapturedWindow, DamageTracker, DmabufFormat, FrameFate, ImageCaptureSourceKind,
    OutputState, RendererInfo, SessionFate, SessionHandle, SessionUserData, ShmFormat, Size, State,
    WindowPlace, CURSOR_SIZE,
};

type Captures = State<&'static str, &'static str, u32>;

const SIZE: Size = Size { w: 1920, h: 1080 };

fn captures(outputs: &[u64]) -> Captures {
    let mut output_state = HashMap::new();
    for id in outputs {
        output_state.insert(
            *id,
            OutputState { image_copy_sessions: Vec::new(), pending_image_copy_frames: Vec::new() },
        );
    }
    State { output_state, windows: HashMap::new() }
}

fn output(id: u64) -> Option<ImageCaptureSourceKind> {
    Some(ImageCaptureSourceKind::Output(Some(CapturedOutput { id, mode_size: Some(SIZE) })))
}

fn window(id: u64) -> Option<ImageCaptureSourceKind> {
    Some(ImageCaptureSourceKind::Window(CapturedWindow {
        id,
        geometry_size: Size { w: 30, h: 20 },
    }))
}

/// Sources that lead nowhere.
fn nowhere() -> [Option<ImageCaptureSourceKind>; 3] {
    [
        None,
        Some(ImageCaptureSourceKind::Output(None)),
        Some(ImageCaptureSourceKind::Destroyed),
    ]
}

fn session(id: u64) -> SessionHandle<&'static str> {
    SessionHandle { id, handle: "session" }
}

fn layout() -> Vec<WindowPlace> {
    vec![
        WindowPlace { window: 1, output: None },
        WindowPlace { window: 2, output: Some(20) },
        WindowPlace { window: 1, output: Some(10) },
        WindowPlace { window: 1, output: Some(11) },
    ]
}

fn output_ids(state: &Captures, output: u64) -> (Vec<u64>, Vec<(u64, u32)>) {
    let output = &state.output_state[&output];
    (
        output.image_copy_sessions.iter().map(|s| s.id).collect(),
        output.pending_image_copy_frames.iter().map(|(s, f)| (s.id, *f)).collect(),
    )
}

fn window_ids(state: &Captures, window: u64) -> (Vec<u64>, Vec<(u64, u32)>) {
    let data = &state.windows[&window];
    (
        data.state.sessions.iter().map(|s| s.id).collect(),
        data.state.pending_frames.iter().map(|(s, f)| (s.id, *f)).collect(),
    )
}

fn fails(fate: FrameFate<u32>, expected: u32) -> bool {
    matches!(
        fate,
        FrameFate::Failed { frame, reason: CaptureFailureReason::Unknown } if frame == expected
    )
}

#[test]
fn sessions_of_outputs_are_kept_there() {
    let mut state = captures(&[1, 2]);
    let new = state.new_session(output(1), session(7));
    assert!(matches!(new.tracker, Some(DamageTracker::OfOutput(1))));
    assert!(matches!(new.fate, SessionFate::Kept));
    assert_eq!(output_ids(&state, 1), (vec![7], vec![]));
    assert_eq!(output_ids(&state, 2), (vec![], vec![]));
}

#[test]
fn a_session_of_an_unknown_output_gets_a_tracker_and_is_given_up() {
    let mut state = captures(&[1]);
    let new = state.new_session(output(9), session(7));
    assert!(matches!(new.tracker, Some(DamageTracker::OfOutput(9))));
    assert!(matches!(new.fate, SessionFate::Released(s) if s.id == 7));
    assert!(!state.output_state.contains_key(&9));
}

#[test]
fn sessions_of_windows_are_kept_there() {
    let mut state = captures(&[]);
    let new = state.new_session(window(1), session(7));
    assert!(matches!(new.tracker, Some(DamageTracker::OfSize(Size { w: 30, h: 20 }))));
    assert!(matches!(new.fate, SessionFate::Kept));
    state.new_session(window(1), session(8));
    assert_eq!(window_ids(&state, 1), (vec![7, 8], vec![]));
}

#[test]
fn a_poisoned_window_takes_nothing_in() {
    let mut state = captures(&[]);
    state.new_session(window(1), session(7));
    state.windows.get_mut(&1).unwrap().poisoned = true;
    let new = state.new_session(window(1), session(8));
    assert!(matches!(new.tracker, Some(DamageTracker::OfSize(_))));
    assert!(matches!(new.fate, SessionFate::Released(s) if s.id == 8));
    assert!(fails(state.frame(window(1), session(7), 5, &layout()), 5));
    state.session_destroyed(window(1), 7);
    assert_eq!(window_ids(&state, 1), (vec![7], vec![]));
}

#[test]
fn sources_that_lead_nowhere_stop_sessions_and_fail_frames() {
    for source in nowhere() {
        let mut state = captures(&[1]);
        let new = state.new_session(source, session(7));
        assert!(new.tracker.is_none());
        assert!(matches!(new.fate, SessionFate::Stopped(s) if s.id == 7));
        assert!(fails(state.frame(source, session(7), 5, &layout()), 5));
        state.session_destroyed(source, 7);
        assert_eq!(output_ids(&state, 1), (vec![], vec![]));
        assert!(state.windows.is_empty());
    }
}

#[test]
fn frames_of_outputs_wait_for_a_redraw() {
    let mut state = captures(&[1]);
    state.new_session(output(1), session(7));
    let fate = state.frame(output(1), session(7), 5, &layout());
    assert!(matches!(fate, FrameFate::Queued { redraw: 1 }));
    let fate = state.frame(output(1), session(7), 6, &layout());
    assert!(matches!(fate, FrameFate::Queued { redraw: 1 }));
    assert_eq!(output_ids(&state, 1), (vec![7], vec![(7, 5), (7, 6)]));
    assert!(fails(state.frame(output(2), session(7), 8, &layout()), 8));
}

#[test]
fn frames_of_windows_wait_for_a_redraw_of_their_output() {
    let mut state = captures(&[10]);
    // No session has been started on the window.
    assert!(fails(state.frame(window(1), session(7), 5, &layout()), 5));
    assert!(state.windows.is_empty());
    state.new_session(window(1), session(7));
    let fate = state.frame(window(1), session(7), 5, &layout());
    assert!(matches!(fate, FrameFate::Queued { redraw: 10 }));
    assert_eq!(window_ids(&state, 1), (vec![7], vec![(7, 5)]));
    assert_eq!(output_ids(&state, 10), (vec![], vec![]));
    // The window is on no output any more.
    assert!(fails(state.frame(window(1), session(7), 6, &Vec::new()), 6));
    assert_eq!(window_ids(&state, 1), (vec![7], vec![(7, 5)]));
}

#[test]
fn a_window_is_on_the_first_output_that_it_has() {
    assert_eq!(find_output(&layout(), 1), Some(10));
    assert_eq!(find_output(&layout(), 2), Some(20));
    assert_eq!(find_output(&layout(), 3), None);
    assert_eq!(find_output(&vec![WindowPlace { window: 1, output: None }], 1), None);
}

#[test]
fn a_destroyed_session_leaves_no_trace() {
    let mut state = captures(&[1, 2]);
    for id in [7, 8] {
        state.new_session(output(1), session(id));
        state.new_session(window(1), session(id));
    }
    state.frame(output(1), session(7), 1, &layout());
    state.frame(output(1), session(8), 2, &layout());
    state.frame(output(1), session(7), 3, &layout());
    state.frame(window(1), session(8), 4, &layout());
    state.frame(window(1), session(7), 5, &layout());
    state.session_destroyed(output(1), 7);
    assert_eq!(output_ids(&state, 1), (vec![8], vec![(8, 2)]));
    // The window is another source.
    assert_eq!(window_ids(&state, 1), (vec![7, 8], vec![(8, 4), (7, 5)]));
    state.session_destroyed(window(1), 7);
    assert_eq!(window_ids(&state, 1), (vec![8], vec![(8, 4)]));
    // Once more changes nothing.
    state.session_destroyed(output(1), 7);
    assert_eq!(output_ids(&state, 1), (vec![8], vec![(8, 2)]));
    state.session_destroyed(output(9), 8);
    state.session_destroyed(window(9), 8);
    assert_eq!(output_ids(&state, 1), (vec![8], vec![(8, 2)]));
    assert!(!state.windows.contains_key(&9));
}

#[test]
fn sessions_can_be_destroyed_in_either_order() {
    let run = |order: [u64; 2]| {
        let mut state = captures(&[1]);
        for id in [7, 8, 9] {
            state.new_session(output(1), session(id));
            state.frame(output(1), session(id), id as u32, &layout());
        }
        for id in order {
            state.session_destroyed(output(1), id);
        }
        output_ids(&state, 1)
    };
    assert_eq!(run([7, 9]), (vec![8], vec![(8, 8)]));
    assert_eq!(run([7, 9]), run([9, 7]));
}

#[test]
fn a_session_started_and_destroyed_leaves_things_as_they_were() {
    let mut state = captures(&[1]);
    state.new_session(output(1), session(7));
    state.frame(output(1), session(7), 1, &layout());
    let before = output_ids(&state, 1);
    state.new_session(output(1), session(8));
    state.session_destroyed(output(1), 8);
    assert_eq!(output_ids(&state, 1), before);
    // The frames that it has asked for go with it.
    state.new_session(output(1), session(8));
    for frame in 2..5 {
        state.frame(output(1), session(8), frame, &layout());
    }
    state.session_destroyed(output(1), 8);
    assert_eq!(output_ids(&state, 1), before);
}

#[test]
fn a_window_can_be_forgotten() {
    let mut state = captures(&[1]);
    assert!(state.forget_window(1).is_none());
    state.new_session(window(1), session(7));
    state.new_session(window(2), session(8));
    state.frame(window(1), session(7), 5, &layout());
    let data = state.forget_window(1).unwrap();
    assert_eq!(data.state.sessions.len(), 1);
    assert_eq!(data.state.pending_frames.len(), 1);
    assert!(!state.windows.contains_key(&1));
    assert_eq!(window_ids(&state, 2), (vec![8], vec![]));
    assert!(fails(state.frame(window(1), session(7), 6, &layout()), 6));
    state.new_session(window(1), session(9));
    assert_eq!(window_ids(&state, 1), (vec![9], vec![]));
}

#[test]
fn sizes_of_sources_are_found() {
    assert_eq!(find_source_size(output(1)), Some(SIZE));
    assert_eq!(find_source_size(window(1)), Some(Size { w: 30, h: 20 }));
    for source in nowhere() {
        assert_eq!(find_source_size(source), None);
    }
}

#[test]
fn the_cursor_is_not_captured_yet() {
    let mut state = captures(&[1]);
    assert!(matches!(state.new_cursor_session(), DamageTracker::OfSize(Size { w: 64, h: 64 })));
    assert_eq!(CURSOR_SIZE, 64);
    assert!(fails(state.cursor_frame(3), 3));
    state.frame_aborted();
    state.cursor_session_destroyed();
    assert_eq!(output_ids(&state, 1), (vec![], vec![]));
}

fn renderer(ten_bit: bool, render_node: Option<&'static str>) -> RendererInfo<&'static str> {
    let dmabuf_render_formats = [(1, 10), (2, 20), (1, 11), (3, 30), (2, 10), (1, 10)]
        .iter()
        .map(|(code, modifier)| DmabufFormat { code: *code, modifier: *modifier })
        .collect();
    RendererInfo { ten_bit, render_node, dmabuf_render_formats }
}

fn groups(info: &RendererInfo<&'static str>) -> Vec<(u32, Vec<u64>)> {
    group_formats(&info.dmabuf_render_formats)
        .into_iter()
        .map(|g| (g.code, g.modifiers))
        .collect()
}

#[test]
fn modifiers_are_collected_by_code() {
    let expected = vec![(1, vec![10, 11, 10]), (2, vec![20, 10]), (3, vec![30])];
    assert_eq!(groups(&renderer(false, None)), expected);
    assert!(group_formats(&Vec::new()).is_empty());
}

#[test]
fn constraints_follow_the_renderer() {
    let constraints = constraints_for_renderer(SIZE, renderer(false, None));
    assert_eq!(constraints.size, SIZE);
    let basic =
        [ShmFormat::Abgr8888, ShmFormat::Xbgr8888, ShmFormat::Argb8888, ShmFormat::Xrgb8888];
    assert_eq!(constraints.shm, basic);
    assert!(constraints.dma.is_none());

    let constraints = constraints_for_renderer(SIZE, renderer(true, Some("renderD128")));
    assert_eq!(constraints.shm[..4], basic);
    assert_eq!(constraints.shm[4..], [ShmFormat::Abgr2101010, ShmFormat::Xbgr2101010]);
    let dma = constraints.dma.unwrap();
    assert_eq!(dma.node, "renderD128");
    let formats: Vec<(u32, Vec<u64>)> =
        dma.formats.into_iter().map(|g| (g.code, g.modifiers)).collect();
    assert_eq!(formats, groups(&renderer(false, None)));
}

#[test]
fn constraints_have_the_size_of_the_source() {
    let state = captures(&[]);
    let size = |source: Option<ImageCaptureSourceKind>| {
        state.capture_constraints(source, Some(renderer(false, None))).map(|c| c.size)
    };
    assert_eq!(size(output(1)), Some(SIZE));
    assert_eq!(size(window(1)), Some(Size { w: 30, h: 20 }));
    let modeless = ImageCaptureSourceKind::Output(Some(CapturedOutput { id: 1, mode_size: None }));
    assert_eq!(size(Some(modeless)), None);
    for source in nowhere() {
        assert_eq!(size(source), None);
    }
    assert!(state.capture_constraints(output(1), None::<RendererInfo<u8>>).is_none());
}

#[test]
fn constraints_of_the_cursor_are_square() {
    let state = captures(&[]);
    let constraints = state.cursor_capture_constraints(24, Some(renderer(false, None))).unwrap();
    assert_eq!(constraints.size, Size { w: 24, h: 24 });
    assert!(state.cursor_capture_constraints(24, None::<RendererInfo<u8>>).is_none());
}

#[test]
fn session_data_holds_its_tracker() {
    assert_eq!(SessionUserData::new("tracker").damage_tracker, "tracker");
}
