//! What holds of the captures whatever sessions come and go.
use vstd::prelude::*;

use crate::image_copy_capture;
use crate::image_copy_capture::{
    BufferConstraints, CaptureView, CapturedOutput, CapturedWindow, DamageTracker, DmabufFormat,
    ImageCaptureSourceKind, RendererInfo, SessionFate, SessionHandle, ShmFormat, Size, State,
    StateView, WindowPlace, WindowView,
};

verus! {

/// Whether captures hold nothing of a session.
pub open spec fn free_of<S, R, F>(captures: CaptureView<S, R, F>, id: u64) -> bool {
    &&& forall|i: int|
        0 <= i < captures.sessions.len() ==> (#[trigger] captures.sessions[i]).id != id
    &&& forall|i: int|
        0 <= i < captures.pending_frames.len() ==> (#[trigger] captures.pending_frames[i]).0.id
            != id
}

/// What captures hold of one session alone.
pub open spec fn of_session<S, R, F>(captures: CaptureView<S, R, F>, id: u64) -> CaptureView<
    S,
    R,
    F,
> {
    CaptureView {
        sessions: captures.sessions.filter(|s: SessionHandle<S>| s.id == id),
        pending_frames: captures.pending_frames.filter(|p: (SessionHandle<R>, F)| p.0.id == id),
    }
}

/// The captures that a source leads to, where it leads to any that can be reached.
pub open spec fn captures_of<S, R, F>(
    state: StateView<S, R, F>,
    source: Option<ImageCaptureSourceKind>,
) -> Option<CaptureView<S, R, F>> {
    match source {
        Some(ImageCaptureSourceKind::Output(Some(output))) => if state.outputs.contains_key(
            output.id,
        ) {
            Some(state.outputs[output.id])
        } else {
            None
        },
        Some(ImageCaptureSourceKind::Window(window)) => if state.window(window.id).poisoned {
            None
        } else {
            Some(state.window(window.id).captures)
        },
        _ => None,
    }
}

/// Whether two states agree on every output and window but the one that a source leads to.
pub open spec fn same_elsewhere<S, R, F>(
    before: StateView<S, R, F>,
    after: StateView<S, R, F>,
    source: Option<ImageCaptureSourceKind>,
) -> bool {
    &&& before.outputs.dom() == after.outputs.dom()
    &&& forall|id: u64|
        #![trigger after.outputs[id]]
        before.outputs.contains_key(id) && !(source matches Some(
            ImageCaptureSourceKind::Output(Some(output)),
        ) && output.id == id) ==> after.outputs[id] == before.outputs[id]
    &&& forall|id: u64|
        #![trigger after.window(id)]
        !(source matches Some(ImageCaptureSourceKind::Window(window)) && window.id == id)
            ==> after.window(id) == before.window(id)
    &&& forall|id: u64|
        #![trigger after.window(id)]
        after.window(id).poisoned == before.window(id).poisoned
}

proof fn filter_absent<A>(s: Seq<A>, keep: spec_fn(A) -> bool)
    requires
        forall|i: int| 0 <= i < s.len() ==> keep(#[trigger] s[i]),
    ensures
        s.filter(keep) == s,
    decreases s.len(),
{
    reveal(Seq::filter);
    if s.len() > 0 {
        assert forall|i: int| 0 <= i < s.drop_last().len() implies keep(
            #[trigger] s.drop_last()[i],
        ) by {
            assert(s.drop_last()[i] == s[i]);
        }
        filter_absent(s.drop_last(), keep);
        assert(keep(s[s.len() - 1]));
        assert(s.drop_last().push(s.last()) =~= s);
    }
}

proof fn filter_twice<A>(
    s: Seq<A>,
    first: spec_fn(A) -> bool,
    second: spec_fn(A) -> bool,
    both: spec_fn(A) -> bool,
)
    requires
        forall|a: A| #[trigger] both(a) == (first(a) && second(a)),
    ensures
        s.filter(first).filter(second) == s.filter(both),
    decreases s.len(),
{
    reveal(Seq::filter);
    if s.len() > 0 {
        let rest = s.drop_last();
        filter_twice(rest, first, second, both);
        assert(both(s.last()) == (first(s.last()) && second(s.last())));
        rest.filter(first).lemma_filter_push(s.last(), second);
    }
}

proof fn filter_keeps<A>(s: Seq<A>, keep: spec_fn(A) -> bool)
    ensures
        forall|i: int| 0 <= i < s.filter(keep).len() ==> keep(#[trigger] s.filter(keep)[i]),
{
    broadcast use Seq::lemma_filter_pred;

}

/// Leaving a session out of captures leaves nothing of it and everything of every other session,
/// in its order.
pub proof fn without_leaves_out_one_session<S, R, F>(
    captures: CaptureView<S, R, F>,
    id: u64,
    other: u64,
)
    ensures
        free_of(captures.without(id), id),
        other != id ==> of_session(captures.without(id), other) == of_session(captures, other),
{
    let not_id = |s: SessionHandle<S>| s.id != id;
    let not_id_frame = |p: (SessionHandle<R>, F)| p.0.id != id;
    filter_keeps(captures.sessions, not_id);
    filter_keeps(captures.pending_frames, not_id_frame);
    if other != id {
        let is_other = |s: SessionHandle<S>| s.id == other;
        let is_other_frame = |p: (SessionHandle<R>, F)| p.0.id == other;
        filter_twice(captures.sessions, not_id, is_other, is_other);
        filter_twice(captures.pending_frames, not_id_frame, is_other_frame, is_other_frame);
    }
}

/// It does not matter in which order sessions are left out, nor how often.
pub proof fn without_commutes<S, R, F>(captures: CaptureView<S, R, F>, first: u64, second: u64)
    ensures
        captures.without(first).without(second) == captures.without(second).without(first),
        captures.without(first).without(first) == captures.without(first),
{
    let a = |s: SessionHandle<S>| s.id != first;
    let b = |s: SessionHandle<S>| s.id != second;
    let ab = |s: SessionHandle<S>| s.id != first && s.id != second;
    filter_twice(captures.sessions, a, b, ab);
    filter_twice(captures.sessions, b, a, ab);
    filter_twice(captures.sessions, a, a, a);
    let a = |p: (SessionHandle<R>, F)| p.0.id != first;
    let b = |p: (SessionHandle<R>, F)| p.0.id != second;
    let ab = |p: (SessionHandle<R>, F)| p.0.id != first && p.0.id != second;
    filter_twice(captures.pending_frames, a, b, ab);
    filter_twice(captures.pending_frames, b, a, ab);
    filter_twice(captures.pending_frames, a, a, a);
}

/// Once a session is destroyed, nothing of it is left where its source leads, and nothing changes
/// elsewhere.
pub proof fn destroyed_session_leaves_no_trace<S, R, F>(
    state: StateView<S, R, F>,
    source: Option<ImageCaptureSourceKind>,
    id: u64,
)
    ensures
        captures_of(state.after_session_destroyed(source, id), source) == match captures_of(
            state,
            source,
        ) {
            Some(captures) => Some(captures.without(id)),
            None => None,
        },
        captures_of(state.after_session_destroyed(source, id), source) matches Some(captures)
            ==> free_of(captures, id),
        same_elsewhere(state, state.after_session_destroyed(source, id), source),
{
    let after = state.after_session_destroyed(source, id);
    if let Some(captures) = captures_of(state, source) {
        without_leaves_out_one_session(captures, id, id);
    }
    if let Some(ImageCaptureSourceKind::Window(window)) = source {
        if !state.windows.contains_key(window.id) {
            reveal(Seq::filter);
            assert(CaptureView::<S, R, F>::none().without(id) =~= CaptureView::none());
        }
    }
    assert(after.outputs.dom() =~= state.outputs.dom());
}

/// A frame that a session asks for, and the layout at that time.
pub struct AskedFrame<R, F> {
    pub session: SessionHandle<R>,
    pub frame: F,
    pub layout: Seq<WindowPlace>,
}

/// The captures after frames of a source have been asked for, one after the other.
pub open spec fn after_frames<S, R, F>(
    state: StateView<S, R, F>,
    source: Option<ImageCaptureSourceKind>,
    frames: Seq<AskedFrame<R, F>>,
) -> StateView<S, R, F>
    decreases frames.len(),
{
    if frames.len() == 0 {
        state
    } else {
        let asked = frames.last();
        after_frames(state, source, frames.drop_last()).after_frame(
            source,
            asked.session,
            asked.frame,
            asked.layout,
        )
    }
}

/// Frames of a session make no difference to what is left once the session is left out.
proof fn frames_do_not_outlive_session<S, R, F>(
    state: StateView<S, R, F>,
    source: Option<ImageCaptureSourceKind>,
    id: u64,
    frames: Seq<AskedFrame<R, F>>,
)
    requires
        forall|i: int| 0 <= i < frames.len() ==> (#[trigger] frames[i]).session.id == id,
    ensures
        match (captures_of(state, source), captures_of(
            after_frames(state, source, frames),
            source,
        )) {
            (Some(before), Some(after)) => after.without(id) == before.without(id),
            (None, None) => true,
            _ => false,
        },
        same_elsewhere(state, after_frames(state, source, frames), source),
    decreases frames.len(),
{
    if frames.len() > 0 {
        let rest = frames.drop_last();
        let asked = frames.last();
        assert forall|i: int| 0 <= i < rest.len() implies (#[trigger] rest[i]).session.id
            == id by {
            assert(rest[i] == frames[i]);
        }
        assert(frames[frames.len() - 1].session.id == id);
        frames_do_not_outlive_session(state, source, id, rest);
        let between = after_frames(state, source, rest);
        let after = after_frames(state, source, frames);
        frame_waits_or_fails(between, source, asked.session, asked.frame, asked.layout);
        if let Some(captures) = captures_of(between, source) {
            let not_id_frame = |p: (SessionHandle<R>, F)| p.0.id != id;
            captures.pending_frames.lemma_filter_push((asked.session, asked.frame), not_id_frame);
            assert(captures.with_frame(asked.session, asked.frame).without(id)
                =~= captures.without(id));
        }
        assert(after.outputs.dom() =~= state.outputs.dom());
    }
}

/// Starting a session, asking for any number of its frames and destroying it gives back the
/// captures as they were, where nothing of the session was there before; elsewhere nothing
/// changes.
pub proof fn started_then_destroyed<S, R, F>(
    state: StateView<S, R, F>,
    source: Option<ImageCaptureSourceKind>,
    session: SessionHandle<S>,
    frames: Seq<AskedFrame<R, F>>,
)
    requires
        captures_of(state, source) matches Some(captures) ==> free_of(captures, session.id),
        forall|i: int| 0 <= i < frames.len() ==> (#[trigger] frames[i]).session.id == session.id,
    ensures
        captures_of(
            after_frames(
                state.after_new_session(source, session),
                source,
                frames,
            ).after_session_destroyed(source, session.id),
            source,
        ) == captures_of(state, source),
        same_elsewhere(
            state,
            after_frames(
                state.after_new_session(source, session),
                source,
                frames,
            ).after_session_destroyed(source, session.id),
            source,
        ),
{
    let started = state.after_new_session(source, session);
    let asked = after_frames(started, source, frames);
    let after = asked.after_session_destroyed(source, session.id);
    session_is_tracked_or_given_back(state, source, session);
    if let Some(captures) = captures_of(state, source) {
        let not_id = |s: SessionHandle<S>| s.id != session.id;
        let not_id_frame = |p: (SessionHandle<R>, F)| p.0.id != session.id;
        filter_absent(captures.sessions, not_id);
        filter_absent(captures.pending_frames, not_id_frame);
        captures.sessions.lemma_filter_push(session, not_id);
        assert(captures.with_session(session).without(session.id) =~= captures);
    }
    frames_do_not_outlive_session(started, source, session.id, frames);
    destroyed_session_leaves_no_trace(asked, source, session.id);
    assert(after.outputs.dom() =~= state.outputs.dom());
}

/// A window that has been forgotten is as one that no session was ever started on: nothing of it
/// is left, and its frames fail. The outputs and the other windows stay as they were.
pub proof fn forgotten_window_is_as_new<S, R, F>(
    state: StateView<S, R, F>,
    window: CapturedWindow,
    layout: Seq<WindowPlace>,
)
    ensures
        ({
            let after = StateView { windows: state.windows.remove(window.id), ..state };
            &&& after.window(window.id) == (WindowView {
                poisoned: false,
                captures: CaptureView::<S, R, F>::none(),
            })
            &&& after.redraw_for(Some(ImageCaptureSourceKind::Window(window)), layout) is None
            &&& after.outputs == state.outputs
            &&& forall|id: u64|
                #![trigger after.window(id)]
                id != window.id ==> after.window(id) == state.window(id)
        }),
{
}

/// A session is kept if and only if its source leads to captures that can be reached, and is then
/// the last of those that are tracked there. One that is not kept leaves everything as it was.
/// Elsewhere nothing changes either way.
pub proof fn session_is_tracked_or_given_back<S, R, F>(
    state: StateView<S, R, F>,
    source: Option<ImageCaptureSourceKind>,
    session: SessionHandle<S>,
)
    ensures
        match captures_of(state, source) {
            Some(captures) => {
                &&& state.new_session(source, session).fate is Kept
                &&& captures_of(state.after_new_session(source, session), source) == Some(
                    captures.with_session(session),
                )
            },
            None => {
                &&& match state.new_session(source, session).fate {
                    SessionFate::Stopped(given_back) => given_back == session,
                    SessionFate::Released(given_back) => given_back == session,
                    SessionFate::Kept => false,
                }
                &&& state.after_new_session(source, session) == state
            },
        },
        same_elsewhere(state, state.after_new_session(source, session), source),
{
    let after = state.after_new_session(source, session);
    assert(after.outputs.dom() =~= state.outputs.dom());
}

/// A frame that waits is the last of those that wait where its source leads. One that does not
/// wait leaves everything as it was. Elsewhere nothing changes either way.
pub proof fn frame_waits_or_fails<S, R, F>(
    state: StateView<S, R, F>,
    source: Option<ImageCaptureSourceKind>,
    session: SessionHandle<R>,
    frame: F,
    layout: Seq<WindowPlace>,
)
    ensures
        state.redraw_for(source, layout) is None ==> state.after_frame(
            source,
            session,
            frame,
            layout,
        ) == state,
        state.redraw_for(source, layout) is Some ==> captures_of(state, source) is Some
            && captures_of(state.after_frame(source, session, frame, layout), source) == Some(
            captures_of(state, source)->0.with_frame(session, frame),
        ),
        same_elsewhere(state, state.after_frame(source, session, frame, layout), source),
{
    let after = state.after_frame(source, session, frame, layout);
    assert(after.outputs.dom() =~= state.outputs.dom());
}

/// A source that leads nowhere stops sessions, fails frames and changes nothing.
pub proof fn source_that_leads_nowhere<S, R, F>(
    state: StateView<S, R, F>,
    source: Option<ImageCaptureSourceKind>,
    session: SessionHandle<S>,
    reference: SessionHandle<R>,
    frame: F,
    layout: Seq<WindowPlace>,
)
    requires
        source is None || source == Some(ImageCaptureSourceKind::Destroyed) || source == Some(
            ImageCaptureSourceKind::Output(None),
        ),
    ensures
        state.after_new_session(source, session) == state,
        state.new_session(source, session).fate is Stopped,
        state.new_session(source, session).tracker is None,
        state.redraw_for(source, layout) is None,
        state.after_frame(source, reference, frame, layout) == state,
        state.after_session_destroyed(source, session.id) == state,
{
}

/// The output of a window is that of the first place of the window that has one, wherever in the
/// layout it stands; there is none if and only if no place of the window has one.
pub proof fn output_is_that_of_the_first_place(layout: Seq<WindowPlace>, window: u64)
    ensures
        match image_copy_capture::output_of(layout, window) {
            Some(output) => exists|i: int|
                {
                    &&& 0 <= i < layout.len()
                    &&& (#[trigger] layout[i]).window == window
                    &&& layout[i].output == Some(output)
                    &&& forall|j: int|
                        0 <= j < i && (#[trigger] layout[j]).window == window
                            ==> layout[j].output is None
                },
            None => forall|i: int|
                0 <= i < layout.len() && (#[trigger] layout[i]).window == window
                    ==> layout[i].output is None,
        },
        forall|i: int|
            {
                &&& 0 <= i < layout.len()
                &&& (#[trigger] layout[i]).window == window
                &&& layout[i].output is Some
                &&& forall|j: int|
                    0 <= j < i && (#[trigger] layout[j]).window == window ==> layout[j].output
                        is None
            } ==> image_copy_capture::output_of(layout, window) == layout[i].output,
    decreases layout.len(),
{
    if layout.len() > 0 {
        let rest = layout.drop_first();
        output_is_that_of_the_first_place(rest, window);
        if layout[0].window == window && layout[0].output is Some {
            assert(image_copy_capture::output_of(layout, window) == layout[0].output);
        } else {
            let found = image_copy_capture::output_of(rest, window);
            match found {
                Some(output) => {
                    let k = choose|k: int|
                        {
                            &&& 0 <= k < rest.len()
                            &&& (#[trigger] rest[k]).window == window
                            &&& rest[k].output == Some(output)
                            &&& forall|j: int|
                                0 <= j < k && (#[trigger] rest[j]).window == window
                                    ==> rest[j].output is None
                        };
                    assert(layout[k + 1] == rest[k]);
                    assert forall|j: int|
                        0 <= j < k + 1 && (#[trigger] layout[j]).window
                            == window implies layout[j].output is None by {
                        if j > 0 {
                            assert(rest[j - 1] == layout[j]);
                        }
                    }
                },
                None => {
                    assert forall|i: int|
                        0 <= i < layout.len() && (#[trigger] layout[i]).window
                            == window implies layout[i].output is None by {
                        if i > 0 {
                            assert(rest[i - 1] == layout[i]);
                        }
                    }
                },
            }
            assert forall|i: int|
                {
                    &&& 0 <= i < layout.len()
                    &&& (#[trigger] layout[i]).window == window
                    &&& layout[i].output is Some
                    &&& forall|j: int|
                        0 <= j < i && (#[trigger] layout[j]).window == window ==> layout[j].output
                            is None
                } implies image_copy_capture::output_of(layout, window) == layout[i].output by {
                assert(i > 0);
                assert(rest[i - 1] == layout[i]);
                assert forall|j: int|
                    0 <= j < i - 1 && (#[trigger] rest[j]).window == window implies rest[j].output
                    is None by {
                    assert(layout[j + 1] == rest[j]);
                }
            }
        }
    }
}

/// A session that is started on an output is put behind the sessions that the output tracks, with
/// a damage tracker of that output. Where the output is not there, the session is given up.
/// Nothing else changes.
pub proof fn session_is_put_last_on_output<S, R, F>(
    state: StateView<S, R, F>,
    output: CapturedOutput,
    session: SessionHandle<S>,
)
    ensures
        ({
            let source = Some(ImageCaptureSourceKind::Output(Some(output)));
            let after = state.after_new_session(source, session);
            let new = state.new_session(source, session);
            &&& new.tracker == Some(DamageTracker::OfOutput(output.id))
            &&& after.windows == state.windows
            &&& if state.outputs.contains_key(output.id) {
                &&& new.fate is Kept
                &&& after.outputs.dom() == state.outputs.dom()
                &&& after.outputs[output.id].sessions
                    == state.outputs[output.id].sessions.push(session)
                &&& after.outputs[output.id].pending_frames
                    == state.outputs[output.id].pending_frames
                &&& forall|id: u64|
                    id != output.id && state.outputs.contains_key(id)
                        ==> #[trigger] after.outputs[id] == state.outputs[id]
            } else {
                &&& new.fate == SessionFate::Released(session)
                &&& after.outputs == state.outputs
            }
        }),
{
    let source = Some(ImageCaptureSourceKind::Output(Some(output)));
    assert(state.after_new_session(source, session).outputs.dom() =~= state.outputs.dom());
}

/// A session that is started on a window is put behind the sessions that the window tracks, if it
/// tracks any yet, with a damage tracker of the window's size. Where the window's lock is
/// poisoned, the session is given up. Nothing else changes.
pub proof fn session_is_put_last_on_window<S, R, F>(
    state: StateView<S, R, F>,
    window: CapturedWindow,
    session: SessionHandle<S>,
)
    ensures
        ({
            let source = Some(ImageCaptureSourceKind::Window(window));
            let after = state.after_new_session(source, session);
            let new = state.new_session(source, session);
            let known = state.windows.contains_key(window.id);
            &&& new.tracker == Some(DamageTracker::OfSize(window.geometry_size))
            &&& after.outputs == state.outputs
            &&& if known && state.windows[window.id].poisoned {
                &&& new.fate == SessionFate::Released(session)
                &&& after.windows == state.windows
            } else {
                &&& new.fate is Kept
                &&& after.windows.dom() == state.windows.dom().insert(window.id)
                &&& !after.windows[window.id].poisoned
                &&& after.windows[window.id].captures.sessions == if known {
                    state.windows[window.id].captures.sessions.push(session)
                } else {
                    seq![session]
                }
                &&& after.windows[window.id].captures.pending_frames == if known {
                    state.windows[window.id].captures.pending_frames
                } else {
                    Seq::empty()
                }
                &&& forall|id: u64|
                    id != window.id && state.windows.contains_key(id)
                        ==> #[trigger] after.windows[id] == state.windows[id]
            }
        }),
{
    let source = Some(ImageCaptureSourceKind::Window(window));
    let after = state.after_new_session(source, session);
    if !(state.windows.contains_key(window.id) && state.windows[window.id].poisoned) {
        assert(after.windows.dom() =~= state.windows.dom().insert(window.id));
        assert(seq![session] =~= Seq::<SessionHandle<S>>::empty().push(session));
    }
}

/// A frame of an output waits behind the frames that wait there, for a redraw of that output.
/// Where the output is not there, it waits for nothing. Nothing else changes.
pub proof fn frame_is_put_last_on_output<S, R, F>(
    state: StateView<S, R, F>,
    output: CapturedOutput,
    session: SessionHandle<R>,
    frame: F,
    layout: Seq<WindowPlace>,
)
    ensures
        ({
            let source = Some(ImageCaptureSourceKind::Output(Some(output)));
            let after = state.after_frame(source, session, frame, layout);
            &&& after.windows == state.windows
            &&& if state.outputs.contains_key(output.id) {
                &&& state.redraw_for(source, layout) == Some(output.id)
                &&& after.outputs.dom() == state.outputs.dom()
                &&& after.outputs[output.id].pending_frames
                    == state.outputs[output.id].pending_frames.push((session, frame))
                &&& after.outputs[output.id].sessions == state.outputs[output.id].sessions
                &&& forall|id: u64|
                    id != output.id && state.outputs.contains_key(id)
                        ==> #[trigger] after.outputs[id] == state.outputs[id]
            } else {
                &&& state.redraw_for(source, layout) is None
                &&& after.outputs == state.outputs
            }
        }),
{
    let source = Some(ImageCaptureSourceKind::Output(Some(output)));
    assert(state.after_frame(source, session, frame, layout).outputs.dom()
        =~= state.outputs.dom());
}

/// A frame of a window that tracks sessions, whose lock is not poisoned and which has an output,
/// waits behind the frames that wait at the window, for a redraw of the output of the window's
/// first place that has one. Otherwise it waits for nothing. Nothing else changes.
pub proof fn frame_is_put_last_on_window<S, R, F>(
    state: StateView<S, R, F>,
    window: CapturedWindow,
    session: SessionHandle<R>,
    frame: F,
    layout: Seq<WindowPlace>,
)
    ensures
        ({
            let source = Some(ImageCaptureSourceKind::Window(window));
            let after = state.after_frame(source, session, frame, layout);
            let reached = state.windows.contains_key(window.id)
                && !state.windows[window.id].poisoned;
            let placed = exists|i: int|
                0 <= i < layout.len() && (#[trigger] layout[i]).window == window.id
                    && layout[i].output is Some;
            &&& after.outputs == state.outputs
            &&& if reached && placed {
                &&& exists|i: int|
                    {
                        &&& 0 <= i < layout.len()
                        &&& (#[trigger] layout[i]).window == window.id
                        &&& layout[i].output is Some
                        &&& layout[i].output == state.redraw_for(source, layout)
                        &&& forall|j: int|
                            0 <= j < i && (#[trigger] layout[j]).window == window.id
                                ==> layout[j].output is None
                    }
                &&& after.windows.dom() == state.windows.dom()
                &&& after.windows[window.id].captures.pending_frames
                    == state.windows[window.id].captures.pending_frames.push((session, frame))
                &&& after.windows[window.id].captures.sessions
                    == state.windows[window.id].captures.sessions
                &&& !after.windows[window.id].poisoned
                &&& forall|id: u64|
                    id != window.id && state.windows.contains_key(id)
                        ==> #[trigger] after.windows[id] == state.windows[id]
            } else {
                &&& state.redraw_for(source, layout) is None
                &&& after.windows == state.windows
            }
        }),
{
    let source = Some(ImageCaptureSourceKind::Window(window));
    let after = state.after_frame(source, session, frame, layout);
    output_is_that_of_the_first_place(layout, window.id);
    if state.redraw_for(source, layout) is Some {
        assert(after.windows.dom() =~= state.windows.dom());
    }
}

/// A destroyed session is taken out of what the output or the window of its source tracks, with
/// the frames that wait for it; the others stay in their order. Nothing else changes, and nothing
/// at all where the output is not there, the window tracks nothing or its lock is poisoned.
pub proof fn destroyed_session_is_taken_out<S, R, F>(
    state: StateView<S, R, F>,
    source: Option<ImageCaptureSourceKind>,
    destroyed: u64,
)
    ensures
        ({
            let after = state.after_session_destroyed(source, destroyed);
            let kept = |s: SessionHandle<S>| s.id != destroyed;
            let kept_frame = |p: (SessionHandle<R>, F)| p.0.id != destroyed;
            match source {
                Some(ImageCaptureSourceKind::Output(Some(output))) => {
                    &&& after.windows == state.windows
                    &&& after.outputs.dom() == state.outputs.dom()
                    &&& forall|id: u64|
                        id != output.id && state.outputs.contains_key(id)
                            ==> #[trigger] after.outputs[id] == state.outputs[id]
                    &&& state.outputs.contains_key(output.id) ==> {
                        &&& after.outputs[output.id].sessions
                            == state.outputs[output.id].sessions.filter(kept)
                        &&& after.outputs[output.id].pending_frames
                            == state.outputs[output.id].pending_frames.filter(kept_frame)
                    }
                },
                Some(ImageCaptureSourceKind::Window(window)) => {
                    &&& after.outputs == state.outputs
                    &&& after.windows.dom() == state.windows.dom()
                    &&& forall|id: u64|
                        id != window.id && state.windows.contains_key(id)
                            ==> #[trigger] after.windows[id] == state.windows[id]
                    &&& state.windows.contains_key(window.id)
                        && state.windows[window.id].poisoned ==> after.windows[window.id]
                        == state.windows[window.id]
                    &&& state.windows.contains_key(window.id)
                        && !state.windows[window.id].poisoned ==> {
                        &&& !after.windows[window.id].poisoned
                        &&& after.windows[window.id].captures.sessions
                            == state.windows[window.id].captures.sessions.filter(kept)
                        &&& after.windows[window.id].captures.pending_frames
                            == state.windows[window.id].captures.pending_frames.filter(kept_frame)
                    }
                },
                _ => after == state,
            }
        }),
{
    let after = state.after_session_destroyed(source, destroyed);
    assert(after.outputs.dom() =~= state.outputs.dom());
    assert(after.windows.dom() =~= state.windows.dom());
}

/// A session whose source leads nowhere is given back to be stopped.
pub proof fn session_that_leads_nowhere_is_given_back<S, R, F>(
    state: StateView<S, R, F>,
    source: Option<ImageCaptureSourceKind>,
    session: SessionHandle<S>,
)
    requires
        source is None || source == Some(ImageCaptureSourceKind::Destroyed) || source == Some(
            ImageCaptureSourceKind::Output(None),
        ),
    ensures
        state.new_session(source, session).fate == SessionFate::Stopped(session),
{
}

/// The size of a source is that of its output's mode or of its window's geometry, whatever it is.
pub proof fn size_is_that_of_the_source(output: CapturedOutput, window: CapturedWindow)
    ensures
        image_copy_capture::source_size(Some(ImageCaptureSourceKind::Output(Some(output))))
            == output.mode_size,
        image_copy_capture::source_size(Some(ImageCaptureSourceKind::Window(window))) == Some(
            window.geometry_size,
        ),
        image_copy_capture::source_size(Some(ImageCaptureSourceKind::Output(None))) is None,
        image_copy_capture::source_size(Some(ImageCaptureSourceKind::Destroyed)) is None,
        image_copy_capture::source_size(None) is None,
{
}

/// A modifier is listed under a code if and only if the formats have that pair; each code has one
/// list, which is not empty and has the code's modifiers in the order of the formats.
pub proof fn each_pair_is_listed_under_its_code(formats: Seq<DmabufFormat>)
    ensures
        ({
            let groups = image_copy_capture::groups_of(formats);
            &&& forall|k: int, l: int|
                0 <= k < l < groups.len() ==> (#[trigger] groups[k]).0 != (#[trigger] groups[l]).0
            &&& forall|k: int|
                0 <= k < groups.len() ==> (#[trigger] groups[k]).1.len() > 0 && groups[k].1
                    == formats.filter(|f: DmabufFormat| f.code == groups[k].0).map_values(
                    |f: DmabufFormat| f.modifier,
                )
            &&& forall|code: u32, modifier: u64|
                #![trigger formats.contains(DmabufFormat { code, modifier })]
                formats.contains(DmabufFormat { code, modifier }) <==> exists|k: int|
                    0 <= k < groups.len() && (#[trigger] groups[k]).0 == code
                        && groups[k].1.contains(modifier)
        }),
{
    let groups = image_copy_capture::groups_of(formats);
    let codes = image_copy_capture::codes_of(formats);
    image_copy_capture::codes_are_distinct(formats);
    assert(groups.len() == codes.len());
    assert forall|k: int| 0 <= k < groups.len() implies (#[trigger] groups[k]).1.len() > 0
        && groups[k].1 == formats.filter(|f: DmabufFormat| f.code == groups[k].0).map_values(
        |f: DmabufFormat| f.modifier,
    ) by {
        let of_code = |f: DmabufFormat| f.code == groups[k].0;
        assert(codes.contains(codes[k]));
        let i = choose|i: int| 0 <= i < formats.len() && #[trigger] formats[i].code == codes[k];
        formats.lemma_filter_contains(of_code, i);
        assert(formats.filter(of_code).len() > 0);
    }
    assert forall|code: u32, modifier: u64|
        #![trigger formats.contains(DmabufFormat { code, modifier })]
        formats.contains(DmabufFormat { code, modifier }) <==> exists|k: int|
            0 <= k < groups.len() && (#[trigger] groups[k]).0 == code && groups[k].1.contains(
                modifier,
            ) by {
        let format = DmabufFormat { code, modifier };
        let of_code = |f: DmabufFormat| f.code == code;
        let list = formats.filter(of_code);
        if formats.contains(format) {
            let i = choose|i: int| 0 <= i < formats.len() && formats[i] == format;
            assert(formats[i].code == code);
            assert(codes.contains(code));
            let k = choose|k: int| 0 <= k < codes.len() && codes[k] == code;
            formats.lemma_filter_contains(of_code, i);
            let at = choose|at: int| 0 <= at < list.len() && list[at] == format;
            assert(groups[k].1[at] == modifier);
            assert(groups[k].0 == code && groups[k].1.contains(modifier));
        }
        if exists|k: int|
            0 <= k < groups.len() && (#[trigger] groups[k]).0 == code && groups[k].1.contains(
                modifier,
            ) {
            let k = choose|k: int|
                0 <= k < groups.len() && (#[trigger] groups[k]).0 == code
                    && groups[k].1.contains(modifier);
            let at = choose|at: int| 0 <= at < groups[k].1.len() && groups[k].1[at] == modifier;
            assert(codes[k] == code);
            assert(list[at].modifier == modifier);
            formats.lemma_filter_pred(of_code, at);
            assert(list.contains(list[at]));
            formats.lemma_filter_contains_rev(of_code, list[at]);
            assert(list[at] == format);
        }
    }
}

/// The buffers that a capture can be copied to have the size that is asked for. Shared-memory
/// buffers are offered in four formats, and in two more if and only if the renderer supports ten
/// bits. DMA buffers are offered if and only if there is a render node, whatever else the renderer
/// supports, on that node and in just the renderer's formats.
pub proof fn buffers_are_what_the_renderer_supports<N>(size: Size, renderer: RendererInfo<N>)
    ensures
        ({
            let offered = renderer.constraints(size);
            let formats = renderer.dmabuf_render_formats@;
            &&& offered.size.w == size.w && offered.size.h == size.h
            &&& offered.shm == if renderer.ten_bit {
                seq![
                    ShmFormat::Abgr8888,
                    ShmFormat::Xbgr8888,
                    ShmFormat::Argb8888,
                    ShmFormat::Xrgb8888,
                    ShmFormat::Abgr2101010,
                    ShmFormat::Xbgr2101010,
                ]
            } else {
                seq![
                    ShmFormat::Abgr8888,
                    ShmFormat::Xbgr8888,
                    ShmFormat::Argb8888,
                    ShmFormat::Xrgb8888,
                ]
            }
            &&& offered.dma is Some <==> renderer.render_node is Some
            &&& offered.dma matches Some((node, groups)) ==> {
                &&& renderer.render_node == Some(node)
                &&& forall|k: int, l: int|
                    0 <= k < l < groups.len() ==> (#[trigger] groups[k]).0 != (
                    #[trigger] groups[l]).0
                &&& forall|code: u32, modifier: u64|
                    #![trigger formats.contains(DmabufFormat { code, modifier })]
                    formats.contains(DmabufFormat { code, modifier }) <==> exists|k: int|
                        0 <= k < groups.len() && (#[trigger] groups[k]).0 == code
                            && groups[k].1.contains(modifier)
                &&& forall|k: int|
                    0 <= k < groups.len() ==> (#[trigger] groups[k]).1 == formats.filter(
                        |f: DmabufFormat| f.code == groups[k].0,
                    ).map_values(|f: DmabufFormat| f.modifier)
            }
        }),
{
    each_pair_is_listed_under_its_code(renderer.dmabuf_render_formats@);
    let offered = renderer.constraints(size);
    if renderer.ten_bit {
        assert(offered.shm =~= seq![
            ShmFormat::Abgr8888,
            ShmFormat::Xbgr8888,
            ShmFormat::Argb8888,
            ShmFormat::Xrgb8888,
            ShmFormat::Abgr2101010,
            ShmFormat::Xbgr2101010,
        ]);
    }
}

/// Renderers with the same node and the same formats offer the same DMA buffers, whether they
/// support ten bits or not and whatever the size. Those that agree on ten bits offer the same
/// shared-memory formats, whatever their nodes and formats.
pub proof fn ten_bits_do_not_touch_dma<N>(
    one: RendererInfo<N>,
    other: RendererInfo<N>,
    size: Size,
    other_size: Size,
)
    ensures
        one.render_node == other.render_node && one.dmabuf_render_formats@
            == other.dmabuf_render_formats@ ==> one.constraints(size).dma == other.constraints(
            other_size,
        ).dma,
        one.ten_bit == other.ten_bit ==> one.constraints(size).shm == other.constraints(
            other_size,
        ).shm,
{
}

/// Constraints are seen with the very size, formats, node, codes and modifiers that they hold.
pub proof fn constraints_are_seen_as_they_are<N>(constraints: BufferConstraints<N>)
    ensures
        image_copy_capture::constraints_view(Some(constraints)) == Some(constraints@),
        image_copy_capture::constraints_view(None::<BufferConstraints<N>>) is None,
        constraints@.size == constraints.size,
        constraints@.shm == constraints.shm@,
        constraints@.dma is Some <==> constraints.dma is Some,
        constraints.dma matches Some(dma) ==> {
            let groups = (constraints@.dma->0).1;
            &&& (constraints@.dma->0).0 == dma.node
            &&& groups.len() == dma.formats@.len()
            &&& forall|k: int|
                0 <= k < groups.len() ==> (#[trigger] groups[k]).0 == dma.formats@[k].code
                    && groups[k].1 == dma.formats@[k].modifiers@
        },
{
}

/// A state is seen with the very outputs and windows, sessions and frames that it holds.
pub proof fn state_is_seen_as_it_is<S, R, F>(state: State<S, R, F>, id: u64)
    ensures
        state@.outputs.contains_key(id) <==> state.output_state@.contains_key(id),
        state@.windows.contains_key(id) <==> state.windows@.contains_key(id),
        state.output_state@.contains_key(id) ==> {
            let held = state.output_state@[id];
            &&& state@.outputs[id].sessions == held.image_copy_sessions@
            &&& state@.outputs[id].pending_frames == held.pending_image_copy_frames@
        },
        state.windows@.contains_key(id) ==> {
            let held = state.windows@[id];
            &&& state@.windows[id].poisoned == held.poisoned
            &&& state@.windows[id].captures.sessions == held.state.sessions@
            &&& state@.windows[id].captures.pending_frames == held.state.pending_frames@
        },
{
}

} // verus!
