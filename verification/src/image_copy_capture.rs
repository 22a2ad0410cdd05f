//! Capture of outputs, windows and the cursor: which sessions and frames are tracked where, and
//! which buffers a capture can be copied to.
//!
//! Sessions and frames belong to clients and are handled by the compositor; here a session is
//! known by a number, and what stands behind it is carried along. Outputs and windows are known by
//! numbers too.
use std::collections::HashMap;
use vstd::prelude::*;

verus! {

/// A width and a height. At a scale of one, and without a transformation, a size is the same in
/// physical, logical and buffer coordinates.
#[derive(Debug, Clone, Copy, PartialEq, Eq, Structural)]
pub struct Size {
    pub w: i32,
    pub h: i32,
}

/// A session or a reference to it, with the number that the session is known by.
#[derive(Debug)]
pub struct SessionHandle<H> {
    pub id: u64,
    pub handle: H,
}

/// Per-window image copy capture tracking.
#[derive(Debug)]
pub struct WindowCaptureState<S, R, F> {
    /// Sessions capturing this window.
    pub sessions: Vec<SessionHandle<S>>,
    /// Pending frames waiting to be rendered.
    pub pending_frames: Vec<(SessionHandle<R>, F)>,
}

/// What a window holds behind its lock. A lock whose holder has panicked is poisoned, and gives
/// no access any more.
pub struct WindowCaptureData<S, R, F> {
    pub poisoned: bool,
    pub state: WindowCaptureState<S, R, F>,
}

/// The captures of an output.
#[derive(Debug)]
pub struct OutputState<S, R, F> {
    pub image_copy_sessions: Vec<SessionHandle<S>>,
    pub pending_image_copy_frames: Vec<(SessionHandle<R>, F)>,
}

/// Per-session data for image copy capture.
pub struct SessionUserData<D> {
    pub damage_tracker: D,
}

impl<D> SessionUserData<D> {
    pub fn new(damage_tracker: D) -> (res: Self)
        ensures
            res.damage_tracker == damage_tracker,
    {
        SessionUserData { damage_tracker }
    }
}

/// An output that a capture source leads to.
#[derive(Debug, Clone, Copy)]
pub struct CapturedOutput {
    pub id: u64,
    /// The size of the output's current mode, where it has one.
    pub mode_size: Option<Size>,
}

/// A window that a capture source leads to.
#[derive(Debug, Clone, Copy)]
pub struct CapturedWindow {
    pub id: u64,
    /// The size of the window's geometry.
    pub geometry_size: Size,
}

/// What a capture source leads to.
#[derive(Debug, Clone, Copy)]
pub enum ImageCaptureSourceKind {
    /// An output, unless it is gone.
    Output(Option<CapturedOutput>),
    Window(CapturedWindow),
    Destroyed,
}

/// The captures of one output or window.
#[verifier::ext_equal]
pub struct CaptureView<S, R, F> {
    pub sessions: Seq<SessionHandle<S>>,
    pub pending_frames: Seq<(SessionHandle<R>, F)>,
}

/// The captures of a window behind its lock.
#[verifier::ext_equal]
pub struct WindowView<S, R, F> {
    pub poisoned: bool,
    pub captures: CaptureView<S, R, F>,
}

impl<S, R, F> CaptureView<S, R, F> {
    pub open spec fn none() -> Self {
        CaptureView { sessions: Seq::empty(), pending_frames: Seq::empty() }
    }

    pub open spec fn with_session(self, session: SessionHandle<S>) -> Self {
        CaptureView { sessions: self.sessions.push(session), ..self }
    }

    pub open spec fn with_frame(self, session: SessionHandle<R>, frame: F) -> Self {
        CaptureView { pending_frames: self.pending_frames.push((session, frame)), ..self }
    }

    /// The captures of all sessions but one.
    pub open spec fn without(self, id: u64) -> Self {
        CaptureView {
            sessions: self.sessions.filter(|s: SessionHandle<S>| s.id != id),
            pending_frames: self.pending_frames.filter(|p: (SessionHandle<R>, F)| p.0.id != id),
        }
    }
}

impl<S, R, F> View for WindowCaptureState<S, R, F> {
    type V = CaptureView<S, R, F>;

    open spec fn view(&self) -> CaptureView<S, R, F> {
        CaptureView { sessions: self.sessions@, pending_frames: self.pending_frames@ }
    }
}

impl<S, R, F> View for WindowCaptureData<S, R, F> {
    type V = WindowView<S, R, F>;

    open spec fn view(&self) -> WindowView<S, R, F> {
        WindowView { poisoned: self.poisoned, captures: self.state@ }
    }
}

impl<S, R, F> View for OutputState<S, R, F> {
    type V = CaptureView<S, R, F>;

    open spec fn view(&self) -> CaptureView<S, R, F> {
        CaptureView {
            sessions: self.image_copy_sessions@,
            pending_frames: self.pending_image_copy_frames@,
        }
    }
}

/// The sessions without those of one number, in their order.
fn retain_sessions<S>(sessions: Vec<SessionHandle<S>>, id: u64) -> (res: Vec<SessionHandle<S>>)
    ensures
        res@ == sessions@.filter(|s: SessionHandle<S>| s.id != id),
{
    let ghost all = sessions@;
    let ghost keep = |s: SessionHandle<S>| s.id != id;
    let mut res: Vec<SessionHandle<S>> = Vec::new();
    proof {
        reveal(Seq::filter);
        assert(res@ =~= all.take(0).filter(keep));
    }
    for session in it: sessions
        invariant
            it.seq() == all,
            keep == (|s: SessionHandle<S>| s.id != id),
            res@ == all.take(it.index()).filter(keep),
    {
        proof {
            let done = all.take(it.index());
            assert(all.take(it.index() + 1) =~= done.push(session));
            done.lemma_filter_push(session, keep);
        }
        if session.id != id {
            res.push(session);
        }
    }
    assert(all.take(all.len() as int) =~= all);
    res
}

/// The frames without those of one session, in their order.
fn retain_frames<R, F>(frames: Vec<(SessionHandle<R>, F)>, id: u64) -> (res: Vec<
    (SessionHandle<R>, F),
>)
    ensures
        res@ == frames@.filter(|p: (SessionHandle<R>, F)| p.0.id != id),
{
    let ghost all = frames@;
    let ghost keep = |p: (SessionHandle<R>, F)| p.0.id != id;
    let mut res: Vec<(SessionHandle<R>, F)> = Vec::new();
    proof {
        reveal(Seq::filter);
        assert(res@ =~= all.take(0).filter(keep));
    }
    for pending in it: frames
        invariant
            it.seq() == all,
            keep == (|p: (SessionHandle<R>, F)| p.0.id != id),
            res@ == all.take(it.index()).filter(keep),
    {
        proof {
            let done = all.take(it.index());
            assert(all.take(it.index() + 1) =~= done.push(pending));
            done.lemma_filter_push(pending, keep);
        }
        if pending.0.id != id {
            res.push(pending);
        }
    }
    assert(all.take(all.len() as int) =~= all);
    res
}

/// The damage tracker that a session is to be given, unless it has one already.
#[derive(Debug, Clone, Copy)]
pub enum DamageTracker {
    /// One that follows this output.
    OfOutput(u64),
    /// One of this size, at a scale of one and without a transformation.
    OfSize(Size),
}

/// What becomes of a session.
#[derive(Debug)]
pub enum SessionFate<S> {
    /// It is to be stopped.
    Stopped(SessionHandle<S>),
    /// It is kept where its source leads.
    Kept,
    /// Nothing keeps it, and it is given up.
    Released(SessionHandle<S>),
}

/// What is to be done with a new session.
#[derive(Debug)]
pub struct NewSession<S> {
    pub tracker: Option<DamageTracker>,
    pub fate: SessionFate<S>,
}

/// Why a frame is not captured.
#[derive(Debug, Clone, Copy, PartialEq, Eq, Structural)]
pub enum CaptureFailureReason {
    Unknown,
}

/// What becomes of a frame.
#[derive(Debug)]
pub enum FrameFate<F> {
    /// It waits for the next redraw of this output, which is to be scheduled.
    Queued { redraw: u64 },
    /// It fails.
    Failed { frame: F, reason: CaptureFailureReason },
}

/// A window of the layout, and the output that it is on.
#[derive(Debug, Clone, Copy)]
pub struct WindowPlace {
    pub window: u64,
    pub output: Option<u64>,
}

/// The output that a window is on: that of the first place of the window that has one.
pub open spec fn output_of(layout: Seq<WindowPlace>, window: u64) -> Option<u64>
    decreases layout.len(),
{
    if layout.len() == 0 {
        None
    } else if layout[0].window == window && layout[0].output is Some {
        layout[0].output
    } else {
        output_of(layout.drop_first(), window)
    }
}

/// Finds the output that a window is on.
pub fn find_output(layout: &Vec<WindowPlace>, window: u64) -> (res: Option<u64>)
    ensures
        res == output_of(layout@, window),
{
    let mut i: usize = 0;
    assert(layout@.skip(0) =~= layout@);
    while i < layout.len()
        invariant
            i <= layout@.len(),
            output_of(layout@, window) == output_of(layout@.skip(i as int), window),
        decreases layout@.len() - i,
    {
        let place = layout[i];
        assert(layout@.skip(i as int).drop_first() =~= layout@.skip(i + 1));
        if place.window == window && place.output.is_some() {
            return place.output;
        }
        i += 1;
    }
    None
}

/// The captures of all outputs and windows.
pub struct State<S, R, F> {
    /// The outputs that there are.
    pub output_state: HashMap<u64, OutputState<S, R, F>>,
    /// The windows that a session has been started on.
    pub windows: HashMap<u64, WindowCaptureData<S, R, F>>,
}

/// The captures of all outputs and windows.
#[verifier::ext_equal]
pub struct StateView<S, R, F> {
    pub outputs: Map<u64, CaptureView<S, R, F>>,
    pub windows: Map<u64, WindowView<S, R, F>>,
}

impl<S, R, F> View for State<S, R, F> {
    type V = StateView<S, R, F>;

    open spec fn view(&self) -> StateView<S, R, F> {
        StateView {
            outputs: self.output_state@.map_values(|o: OutputState<S, R, F>| o@),
            windows: self.windows@.map_values(|w: WindowCaptureData<S, R, F>| w@),
        }
    }
}

impl<S, R, F> StateView<S, R, F> {
    /// The captures behind a window's lock; there are none before the first session.
    pub open spec fn window(self, id: u64) -> WindowView<S, R, F> {
        if self.windows.contains_key(id) {
            self.windows[id]
        } else {
            WindowView { poisoned: false, captures: CaptureView::none() }
        }
    }

    pub open spec fn with_output(self, id: u64, captures: CaptureView<S, R, F>) -> Self {
        StateView { outputs: self.outputs.insert(id, captures), ..self }
    }

    pub open spec fn with_window(self, id: u64, captures: CaptureView<S, R, F>) -> Self {
        StateView {
            windows: self.windows.insert(
                id,
                WindowView { poisoned: self.window(id).poisoned, captures },
            ),
            ..self
        }
    }

    /// The captures after a session has been started on a source.
    pub open spec fn after_new_session(
        self,
        source: Option<ImageCaptureSourceKind>,
        session: SessionHandle<S>,
    ) -> Self {
        match source {
            Some(ImageCaptureSourceKind::Output(Some(output))) => if self.outputs.contains_key(
                output.id,
            ) {
                self.with_output(output.id, self.outputs[output.id].with_session(session))
            } else {
                self
            },
            Some(ImageCaptureSourceKind::Window(window)) => if self.window(window.id).poisoned {
                self
            } else {
                self.with_window(
                    window.id,
                    self.window(window.id).captures.with_session(session),
                )
            },
            _ => self,
        }
    }

    /// What is to be done with a session that is started on a source.
    pub open spec fn new_session(
        self,
        source: Option<ImageCaptureSourceKind>,
        session: SessionHandle<S>,
    ) -> NewSession<S> {
        match source {
            Some(ImageCaptureSourceKind::Output(Some(output))) => NewSession {
                tracker: Some(DamageTracker::OfOutput(output.id)),
                fate: if self.outputs.contains_key(output.id) {
                    SessionFate::Kept
                } else {
                    SessionFate::Released(session)
                },
            },
            Some(ImageCaptureSourceKind::Window(window)) => NewSession {
                tracker: Some(DamageTracker::OfSize(window.geometry_size)),
                fate: if self.window(window.id).poisoned {
                    SessionFate::Released(session)
                } else {
                    SessionFate::Kept
                },
            },
            _ => NewSession { tracker: None, fate: SessionFate::Stopped(session) },
        }
    }

    /// The output whose next redraw a frame of a source can wait for. A frame of a window waits
    /// at the window, for the output that the window is on.
    pub open spec fn redraw_for(
        self,
        source: Option<ImageCaptureSourceKind>,
        layout: Seq<WindowPlace>,
    ) -> Option<u64> {
        match source {
            Some(ImageCaptureSourceKind::Output(Some(output))) => if self.outputs.contains_key(
                output.id,
            ) {
                Some(output.id)
            } else {
                None
            },
            Some(ImageCaptureSourceKind::Window(window)) => if self.windows.contains_key(window.id)
                && !self.windows[window.id].poisoned {
                output_of(layout, window.id)
            } else {
                None
            },
            _ => None,
        }
    }

    /// The captures after a frame of a source has been asked for.
    pub open spec fn after_frame(
        self,
        source: Option<ImageCaptureSourceKind>,
        session: SessionHandle<R>,
        frame: F,
        layout: Seq<WindowPlace>,
    ) -> Self {
        if self.redraw_for(source, layout) is None {
            self
        } else {
            match source {
                Some(ImageCaptureSourceKind::Output(Some(output))) => self.with_output(
                    output.id,
                    self.outputs[output.id].with_frame(session, frame),
                ),
                Some(ImageCaptureSourceKind::Window(window)) => self.with_window(
                    window.id,
                    self.windows[window.id].captures.with_frame(session, frame),
                ),
                _ => self,
            }
        }
    }

    /// The captures after a session on a source has been destroyed.
    pub open spec fn after_session_destroyed(
        self,
        source: Option<ImageCaptureSourceKind>,
        id: u64,
    ) -> Self {
        match source {
            Some(ImageCaptureSourceKind::Output(Some(output))) => if self.outputs.contains_key(
                output.id,
            ) {
                self.with_output(output.id, self.outputs[output.id].without(id))
            } else {
                self
            },
            Some(ImageCaptureSourceKind::Window(window)) => if self.windows.contains_key(window.id)
                && !self.windows[window.id].poisoned {
                self.with_window(window.id, self.windows[window.id].captures.without(id))
            } else {
                self
            },
            _ => self,
        }
    }
}

impl<S, R, F> State<S, R, F> {
    /// Starts a session. A source that leads nowhere stops it. Otherwise it is given a damage
    /// tracker, and the output or the window tracks it.
    pub fn new_session(
        &mut self,
        source: Option<ImageCaptureSourceKind>,
        session: SessionHandle<S>,
    ) -> (res: NewSession<S>)
        ensures
            final(self)@ == old(self)@.after_new_session(source, session),
            res == old(self)@.new_session(source, session),
    {
        broadcast use vstd::std_specs::hash::group_hash_axioms;

        let ghost before = self@;
        let kind = match source {
            Some(kind) => kind,
            None => {
                return NewSession { tracker: None, fate: SessionFate::Stopped(session) };
            },
        };
        match kind {
            ImageCaptureSourceKind::Output(None) => NewSession {
                tracker: None,
                fate: SessionFate::Stopped(session),
            },
            ImageCaptureSourceKind::Output(Some(output)) => {
                let tracker = Some(DamageTracker::OfOutput(output.id));
                match self.output_state.remove(&output.id) {
                    Some(mut state) => {
                        state.image_copy_sessions.push(session);
                        self.output_state.insert(output.id, state);
                        assert(self@ =~= before.after_new_session(source, session));
                        NewSession { tracker, fate: SessionFate::Kept }
                    },
                    None => {
                        assert(self@ =~= before);
                        NewSession { tracker, fate: SessionFate::Released(session) }
                    },
                }
            },
            ImageCaptureSourceKind::Window(window) => {
                let tracker = Some(DamageTracker::OfSize(window.geometry_size));
                let mut data = match self.windows.remove(&window.id) {
                    Some(data) => data,
                    None => WindowCaptureData {
                        poisoned: false,
                        state: WindowCaptureState {
                            sessions: Vec::new(),
                            pending_frames: Vec::new(),
                        },
                    },
                };
                assert(data@ =~= before.window(window.id));
                if data.poisoned {
                    self.windows.insert(window.id, data);
                    assert(self@ =~= before);
                    NewSession { tracker, fate: SessionFate::Released(session) }
                } else {
                    data.state.sessions.push(session);
                    self.windows.insert(window.id, data);
                    assert(self@ =~= before.after_new_session(source, session));
                    NewSession { tracker, fate: SessionFate::Kept }
                }
            },
            ImageCaptureSourceKind::Destroyed => NewSession {
                tracker: None,
                fate: SessionFate::Stopped(session),
            },
        }
    }

    /// Takes in a frame. It waits for the next redraw of the output that its source is on, and
    /// fails where there is none or nothing that it could wait at.
    pub fn frame(
        &mut self,
        source: Option<ImageCaptureSourceKind>,
        session: SessionHandle<R>,
        frame: F,
        layout: &Vec<WindowPlace>,
    ) -> (res: FrameFate<F>)
        ensures
            final(self)@ == old(self)@.after_frame(source, session, frame, layout@),
            res == match old(self)@.redraw_for(source, layout@) {
                Some(redraw) => FrameFate::Queued { redraw },
                None => FrameFate::Failed { frame, reason: CaptureFailureReason::Unknown },
            },
    {
        broadcast use vstd::std_specs::hash::group_hash_axioms;

        let ghost before = self@;
        let reason = CaptureFailureReason::Unknown;
        let kind = match source {
            Some(kind) => kind,
            None => {
                return FrameFate::Failed { frame, reason };
            },
        };
        match kind {
            ImageCaptureSourceKind::Output(None) => FrameFate::Failed { frame, reason },
            ImageCaptureSourceKind::Output(Some(output)) => {
                match self.output_state.remove(&output.id) {
                    Some(mut state) => {
                        state.pending_image_copy_frames.push((session, frame));
                        self.output_state.insert(output.id, state);
                        assert(self@ =~= before.after_frame(source, session, frame, layout@));
                        FrameFate::Queued { redraw: output.id }
                    },
                    None => {
                        assert(self@ =~= before);
                        FrameFate::Failed { frame, reason }
                    },
                }
            },
            ImageCaptureSourceKind::Window(window) => {
                let output: u64 = match find_output(layout, window.id) {
                    Some(output) => output,
                    None => {
                        return FrameFate::Failed { frame, reason };
                    },
                };
                match self.windows.remove(&window.id) {
                    Some(mut data) => {
                        if data.poisoned {
                            self.windows.insert(window.id, data);
                            assert(self@ =~= before);
                            FrameFate::Failed { frame, reason }
                        } else {
                            data.state.pending_frames.push((session, frame));
                            self.windows.insert(window.id, data);
                            assert(self@ =~= before.after_frame(source, session, frame, layout@));
                            FrameFate::Queued { redraw: output }
                        }
                    },
                    None => {
                        assert(self@ =~= before);
                        FrameFate::Failed { frame, reason }
                    },
                }
            },
            ImageCaptureSourceKind::Destroyed => FrameFate::Failed { frame, reason },
        }
    }

    /// Forgets a session and the frames that wait for it.
    pub fn session_destroyed(&mut self, source: Option<ImageCaptureSourceKind>, id: u64)
        ensures
            final(self)@ == old(self)@.after_session_destroyed(source, id),
    {
        broadcast use vstd::std_specs::hash::group_hash_axioms;

        let ghost before = self@;
        match source {
            Some(ImageCaptureSourceKind::Output(Some(output))) => {
                if let Some(state) = self.output_state.remove(&output.id) {
                    let state = OutputState {
                        image_copy_sessions: retain_sessions(state.image_copy_sessions, id),
                        pending_image_copy_frames: retain_frames(
                            state.pending_image_copy_frames,
                            id,
                        ),
                    };
                    self.output_state.insert(output.id, state);
                }
                assert(self@ =~= before.after_session_destroyed(source, id));
            },
            Some(ImageCaptureSourceKind::Window(window)) => {
                if let Some(data) = self.windows.remove(&window.id) {
                    let data = if data.poisoned {
                        data
                    } else {
                        WindowCaptureData {
                            poisoned: false,
                            state: WindowCaptureState {
                                sessions: retain_sessions(data.state.sessions, id),
                                pending_frames: retain_frames(data.state.pending_frames, id),
                            },
                        }
                    };
                    self.windows.insert(window.id, data);
                }
                assert(self@ =~= before.after_session_destroyed(source, id));
            },
            _ => {},
        }
    }

    /// Forgets a window that is gone, and gives back what was tracked of it.
    pub fn forget_window(&mut self, id: u64) -> (res: Option<WindowCaptureData<S, R, F>>)
        ensures
            final(self)@ == (StateView { windows: old(self)@.windows.remove(id), ..old(self)@ }),
            match res {
                Some(data) => old(self)@.windows.get(id) == Some(data@),
                None => old(self)@.windows.get(id) is None,
            },
    {
        broadcast use vstd::std_specs::hash::group_hash_axioms;

        let ghost before = self@;
        let res = self.windows.remove(&id);
        assert(self@ =~= StateView { windows: before.windows.remove(id), ..before });
        res
    }

    /// Starts a cursor session, which is given a damage tracker of the standard cursor size.
    pub fn new_cursor_session(&mut self) -> (res: DamageTracker)
        ensures
            *final(self) == *old(self),
            res == DamageTracker::OfSize(Size { w: CURSOR_SIZE, h: CURSOR_SIZE }),
    {
        DamageTracker::OfSize(Size { w: CURSOR_SIZE, h: CURSOR_SIZE })
    }

    /// Takes in a frame of a cursor session. The cursor is not captured yet, so it fails.
    pub fn cursor_frame(&mut self, frame: F) -> (res: FrameFate<F>)
        ensures
            *final(self) == *old(self),
            res == (FrameFate::Failed { frame, reason: CaptureFailureReason::Unknown }),
    {
        FrameFate::Failed { frame, reason: CaptureFailureReason::Unknown }
    }

    /// Nothing is to be done when a frame is aborted.
    pub fn frame_aborted(&mut self)
        ensures
            *final(self) == *old(self),
    {
    }

    /// Nothing is to be done when a cursor session is destroyed.
    pub fn cursor_session_destroyed(&mut self)
        ensures
            *final(self) == *old(self),
    {
    }

    /// The buffers that a source can be copied to, given what is known of the primary renderer,
    /// where there is one.
    pub fn capture_constraints<N>(
        &self,
        source: Option<ImageCaptureSourceKind>,
        renderer: Option<RendererInfo<N>>,
    ) -> (res: Option<BufferConstraints<N>>)
        ensures
            constraints_view(res) == match (source_size(source), renderer) {
                (Some(size), Some(renderer)) => Some(renderer.constraints(size)),
                _ => None,
            },
    {
        match (find_source_size(source), renderer) {
            (Some(size), Some(renderer)) => Some(constraints_for_renderer(size, renderer)),
            _ => None,
        }
    }

    /// The buffers that the cursor can be copied to, whatever the source is.
    pub fn cursor_capture_constraints<N>(
        &self,
        cursor_size: u8,
        renderer: Option<RendererInfo<N>>,
    ) -> (res: Option<BufferConstraints<N>>)
        ensures
            constraints_view(res) == match renderer {
                Some(renderer) => Some(
                    renderer.constraints(Size { w: cursor_size as i32, h: cursor_size as i32 }),
                ),
                None => None,
            },
    {
        let size = Size { w: cursor_size as i32, h: cursor_size as i32 };
        match renderer {
            Some(renderer) => Some(constraints_for_renderer(size, renderer)),
            None => None,
        }
    }
}

/// The standard cursor size.
pub const CURSOR_SIZE: i32 = 64;

/// The size of what a source leads to.
pub open spec fn source_size(source: Option<ImageCaptureSourceKind>) -> Option<Size> {
    match source {
        Some(ImageCaptureSourceKind::Output(Some(output))) => output.mode_size,
        Some(ImageCaptureSourceKind::Window(window)) => Some(window.geometry_size),
        _ => None,
    }
}

/// Finds the size of what a source leads to.
pub fn find_source_size(source: Option<ImageCaptureSourceKind>) -> (res: Option<Size>)
    ensures
        res == source_size(source),
{
    match source {
        Some(ImageCaptureSourceKind::Output(Some(output))) => output.mode_size,
        Some(ImageCaptureSourceKind::Window(window)) => Some(window.geometry_size),
        _ => None,
    }
}

/// The formats of shared-memory buffers that a capture can be copied to.
#[derive(Debug, Clone, Copy, PartialEq, Eq, Structural)]
pub enum ShmFormat {
    Abgr8888,
    Xbgr8888,
    Argb8888,
    Xrgb8888,
    Abgr2101010,
    Xbgr2101010,
}

/// A format of DMA buffers: its code and a modifier.
#[derive(Debug, Clone, Copy, PartialEq, Eq, Structural)]
pub struct DmabufFormat {
    pub code: u32,
    pub modifier: u64,
}

/// A format's code with all its modifiers.
#[derive(Debug)]
pub struct FormatModifiers {
    pub code: u32,
    pub modifiers: Vec<u64>,
}

/// The DMA buffers that a capture can be copied to, and the node that they are allocated on.
#[derive(Debug)]
pub struct DmabufConstraints<N> {
    pub node: N,
    pub formats: Vec<FormatModifiers>,
}

/// The buffers that a capture can be copied to.
#[derive(Debug)]
pub struct BufferConstraints<N> {
    pub size: Size,
    pub shm: Vec<ShmFormat>,
    pub dma: Option<DmabufConstraints<N>>,
}

/// What is known of a renderer.
#[derive(Debug)]
pub struct RendererInfo<N> {
    /// Whether it can render to ten bits per channel.
    pub ten_bit: bool,
    /// The render node of its device, where the device and the node can be found.
    pub render_node: Option<N>,
    /// The formats of DMA buffers that it can render to.
    pub dmabuf_render_formats: Vec<DmabufFormat>,
}

impl View for FormatModifiers {
    type V = (u32, Seq<u64>);

    open spec fn view(&self) -> (u32, Seq<u64>) {
        (self.code, self.modifiers@)
    }
}

/// Formats with all their modifiers.
pub open spec fn groups_view(groups: Seq<FormatModifiers>) -> Seq<(u32, Seq<u64>)> {
    groups.map_values(|g: FormatModifiers| g@)
}

/// A [`BufferConstraints`] with its lists as sequences.
pub struct ConstraintsView<N> {
    pub size: Size,
    pub shm: Seq<ShmFormat>,
    pub dma: Option<(N, Seq<(u32, Seq<u64>)>)>,
}

impl<N> View for BufferConstraints<N> {
    type V = ConstraintsView<N>;

    open spec fn view(&self) -> ConstraintsView<N> {
        ConstraintsView {
            size: self.size,
            shm: self.shm@,
            dma: match self.dma {
                Some(dma) => Some((dma.node, groups_view(dma.formats@))),
                None => None,
            },
        }
    }
}

/// Constraints, where there are any.
pub open spec fn constraints_view<N>(constraints: Option<BufferConstraints<N>>) -> Option<
    ConstraintsView<N>,
> {
    match constraints {
        Some(constraints) => Some(constraints@),
        None => None,
    }
}

/// The codes of formats, each once, in the order in which they first occur.
pub open spec fn codes_of(formats: Seq<DmabufFormat>) -> Seq<u32>
    decreases formats.len(),
{
    if formats.len() == 0 {
        Seq::empty()
    } else {
        let codes = codes_of(formats.drop_last());
        if codes.contains(formats.last().code) {
            codes
        } else {
            codes.push(formats.last().code)
        }
    }
}

/// The modifiers that a code occurs with, in the order in which they occur.
pub open spec fn modifiers_of(formats: Seq<DmabufFormat>, code: u32) -> Seq<u64> {
    formats.filter(|f: DmabufFormat| f.code == code).map_values(|f: DmabufFormat| f.modifier)
}

/// Each code with all its modifiers.
pub open spec fn groups_of(formats: Seq<DmabufFormat>) -> Seq<(u32, Seq<u64>)> {
    codes_of(formats).map_values(|code: u32| (code, modifiers_of(formats, code)))
}

/// One more format adds its modifier to its code, and the code where it is new.
proof fn modifiers_of_one_more(formats: Seq<DmabufFormat>, format: DmabufFormat, code: u32)
    ensures
        codes_of(formats.push(format)) == if codes_of(formats).contains(format.code) {
            codes_of(formats)
        } else {
            codes_of(formats).push(format.code)
        },
        modifiers_of(formats.push(format), code) == if code == format.code {
            modifiers_of(formats, code).push(format.modifier)
        } else {
            modifiers_of(formats, code)
        },
{
    assert(formats.push(format).drop_last() =~= formats);
    let of_code = |f: DmabufFormat| f.code == code;
    formats.lemma_filter_push(format, of_code);
    assert(modifiers_of(formats.push(format), code) =~= if code == format.code {
        modifiers_of(formats, code).push(format.modifier)
    } else {
        modifiers_of(formats, code)
    });
}

/// Of the codes that occur, each occurs once among the codes, and no others do.
pub proof fn codes_are_distinct(formats: Seq<DmabufFormat>)
    ensures
        codes_of(formats).no_duplicates(),
        forall|code: u32|
            codes_of(formats).contains(code) <==> exists|i: int|
                0 <= i < formats.len() && #[trigger] formats[i].code == code,
    decreases formats.len(),
{
    if formats.len() > 0 {
        let rest = formats.drop_last();
        let last = formats.last();
        codes_are_distinct(rest);
        let codes = codes_of(formats);
        assert forall|code: u32| codes.contains(code) implies exists|i: int|
            0 <= i < formats.len() && #[trigger] formats[i].code == code by {
            if codes_of(rest).contains(code) {
                let i = choose|i: int| 0 <= i < rest.len() && #[trigger] rest[i].code == code;
                assert(formats[i].code == code);
            } else {
                assert(formats[formats.len() - 1].code == code);
            }
        }
        assert forall|i: int| 0 <= i < formats.len() implies codes.contains(
            #[trigger] formats[i].code,
        ) by {
            if i < rest.len() {
                assert(rest[i].code == formats[i].code);
                assert(codes_of(rest).contains(formats[i].code));
                let at = choose|at: int|
                    0 <= at < codes_of(rest).len() && codes_of(rest)[at] == formats[i].code;
                assert(codes[at] == formats[i].code);
            } else if !codes_of(rest).contains(last.code) {
                assert(codes[codes.len() - 1] == last.code);
            }
        }
    }
}

/// Collects the modifiers of each code.
pub fn group_formats(formats: &Vec<DmabufFormat>) -> (res: Vec<FormatModifiers>)
    ensures
        groups_view(res@) == groups_of(formats@),
{
    let mut groups: Vec<FormatModifiers> = Vec::new();
    let ghost all = formats@;
    assert(groups_view(groups@) =~= groups_of(all.take(0)));
    let mut i: usize = 0;
    while i < formats.len()
        invariant
            i <= formats@.len(),
            formats@ == all,
            groups_view(groups@) == groups_of(all.take(i as int)),
        decreases formats@.len() - i,
    {
        let format = formats[i];
        let ghost done = all.take(i as int);
        let ghost before = groups@;
        let ghost codes = codes_of(done);
        proof {
            assert(all.take(i + 1) =~= done.push(format));
            codes_are_distinct(done);
            assert(codes.len() == before.len()) by {
                assert(groups_view(before).len() == groups_of(done).len());
            }
            assert forall|k: int| 0 <= k < before.len() implies #[trigger] before[k]@ == (
                codes[k],
                modifiers_of(done, codes[k]),
            ) by {
                assert(groups_view(before)[k] == groups_of(done)[k]);
            }
        }
        let mut at: usize = 0;
        while at < groups.len() && groups[at].code != format.code
            invariant
                at <= groups@.len(),
                groups@ == before,
                forall|k: int| 0 <= k < at ==> (#[trigger] groups@[k]).code != format.code,
            decreases groups@.len() - at,
        {
            at += 1;
        }
        if at < groups.len() {
            assert(codes[at as int] == before[at as int]@.0);
            groups[at].modifiers.push(format.modifier);
        } else {
            assert(!codes.contains(format.code)) by {
                if codes.contains(format.code) {
                    let k = choose|k: int| 0 <= k < codes.len() && codes[k] == format.code;
                    assert(before[k]@.0 == codes[k]);
                }
            }
            let mut modifiers: Vec<u64> = Vec::new();
            modifiers.push(format.modifier);
            groups.push(FormatModifiers { code: format.code, modifiers });
        }
        proof {
            let next = done.push(format);
            modifiers_of_one_more(done, format, format.code);
            assert(groups_view(groups@).len() == groups_of(next).len());
            assert forall|k: int| 0 <= k < groups@.len() implies #[trigger] groups_view(
                groups@,
            )[k] == groups_of(next)[k] by {
                modifiers_of_one_more(done, format, codes_of(next)[k]);
                if k < before.len() {
                    assert(before[k]@ == (codes[k], modifiers_of(done, codes[k])));
                } else {
                    lemma_no_modifiers(done, format.code);
                }
            }
            assert(groups_view(groups@) =~= groups_of(next));
        }
        i += 1;
    }
    assert(all.take(all.len() as int) =~= all);
    groups
}

/// A code that does not occur has no modifiers.
proof fn lemma_no_modifiers(formats: Seq<DmabufFormat>, code: u32)
    requires
        !codes_of(formats).contains(code),
    ensures
        modifiers_of(formats, code) == Seq::<u64>::empty(),
{
    codes_are_distinct(formats);
    let of_code = |f: DmabufFormat| f.code == code;
    formats.lemma_all_neg_filter_empty(of_code);
    assert(modifiers_of(formats, code) =~= Seq::<u64>::empty());
}

/// The formats of shared-memory buffers: four with eight bits per channel, and two more where the
/// renderer supports ten.
pub open spec fn shm_formats(ten_bit: bool) -> Seq<ShmFormat> {
    let basic = seq![
        ShmFormat::Abgr8888,
        ShmFormat::Xbgr8888,
        ShmFormat::Argb8888,
        ShmFormat::Xrgb8888,
    ];
    if ten_bit {
        basic + seq![ShmFormat::Abgr2101010, ShmFormat::Xbgr2101010]
    } else {
        basic
    }
}

impl<N> RendererInfo<N> {
    /// The buffers of a size that a capture can be copied to.
    pub open spec fn constraints(self, size: Size) -> ConstraintsView<N> {
        ConstraintsView {
            size,
            shm: shm_formats(self.ten_bit),
            dma: match self.render_node {
                Some(node) => Some((node, groups_of(self.dmabuf_render_formats@))),
                None => None,
            },
        }
    }
}

/// Generate buffer constraints based on renderer capabilities.
pub fn constraints_for_renderer<N>(size: Size, renderer: RendererInfo<N>) -> (res:
    BufferConstraints<N>)
    ensures
        res@ == renderer.constraints(size),
{
    let mut shm: Vec<ShmFormat> = Vec::new();
    shm.push(ShmFormat::Abgr8888);
    shm.push(ShmFormat::Xbgr8888);
    shm.push(ShmFormat::Argb8888);
    shm.push(ShmFormat::Xrgb8888);
    if renderer.ten_bit {
        shm.push(ShmFormat::Abgr2101010);
        shm.push(ShmFormat::Xbgr2101010);
    }
    assert(shm@ =~= shm_formats(renderer.ten_bit));
    let dma = match renderer.render_node {
        Some(node) => Some(
            DmabufConstraints { node, formats: group_formats(&renderer.dmabuf_render_formats) },
        ),
        None => None,
    };
    BufferConstraints { size, shm, dma }
}

} // verus!
