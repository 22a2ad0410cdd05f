//! The gesture section of the configuration and how its parts are put together.
use vstd::prelude::*;

use crate::binds;
use crate::binds::{Bind, Binds};
use crate::float::{Float, FloatOrInt};
use crate::merge;
use crate::merge::MergeWith;

verus! {

/// Thirty, as a floating-point number. Taken from GTK 4.
pub const THIRTY: u64 = 0x403e_0000_0000_0000;

/// Fifty, as a floating-point number.
pub const FIFTY: u64 = 0x4049_0000_0000_0000;

/// Fifteen hundred, as a floating-point number.
pub const FIFTEEN_HUNDRED: u64 = 0x4097_7000_0000_0000;

#[derive(Debug, PartialEq)]
pub struct Gestures<M, A> {
    pub dnd_edge_view_scroll: DndEdgeViewScroll,
    pub dnd_edge_workspace_switch: DndEdgeWorkspaceSwitch,
    pub hot_corners: HotCorners,
    pub binds: Binds<M, A>,
}

#[derive(Debug, PartialEq)]
pub struct GesturesPart<M, A> {
    pub dnd_edge_view_scroll: Option<DndEdgeViewScrollPart>,
    pub dnd_edge_workspace_switch: Option<DndEdgeWorkspaceSwitchPart>,
    pub hot_corners: Option<HotCorners>,
    pub binds: Option<Binds<M, A>>,
}

#[derive(Debug, Clone, Copy, PartialEq)]
pub struct DndEdgeViewScroll {
    pub trigger_width: Float,
    pub delay_ms: u16,
    pub max_speed: Float,
}

#[derive(Debug, Clone, Copy, PartialEq)]
pub struct DndEdgeViewScrollPart {
    pub trigger_width: Option<FloatOrInt<0, 65535>>,
    pub delay_ms: Option<u16>,
    pub max_speed: Option<FloatOrInt<0, 1_000_000>>,
}

#[derive(Debug, Clone, Copy, PartialEq)]
pub struct DndEdgeWorkspaceSwitch {
    pub trigger_height: Float,
    pub delay_ms: u16,
    pub max_speed: Float,
}

#[derive(Debug, Clone, Copy, PartialEq)]
pub struct DndEdgeWorkspaceSwitchPart {
    pub trigger_height: Option<FloatOrInt<0, 65535>>,
    pub delay_ms: Option<u16>,
    pub max_speed: Option<FloatOrInt<0, 1_000_000>>,
}

#[derive(Debug, Clone, Copy, PartialEq, Eq, Structural)]
pub struct HotCorners {
    pub off: bool,
    pub top_left: bool,
    pub top_right: bool,
    pub bottom_left: bool,
    pub bottom_right: bool,
}

impl DndEdgeViewScroll {
    /// The settings of an empty configuration.
    pub open spec fn initial() -> Self {
        DndEdgeViewScroll {
            trigger_width: Float { bits: THIRTY },
            delay_ms: 100,
            max_speed: Float { bits: FIFTEEN_HUNDRED },
        }
    }

    /// The settings after taking over what a part says.
    pub open spec fn merged(self, part: DndEdgeViewScrollPart) -> Self {
        DndEdgeViewScroll {
            trigger_width: match part.trigger_width {
                Some(value) => value.0,
                None => self.trigger_width,
            },
            delay_ms: merge::said_or(part.delay_ms, self.delay_ms),
            max_speed: match part.max_speed {
                Some(value) => value.0,
                None => self.max_speed,
            },
        }
    }
}

impl DndEdgeWorkspaceSwitch {
    /// The settings of an empty configuration.
    pub open spec fn initial() -> Self {
        DndEdgeWorkspaceSwitch {
            trigger_height: Float { bits: FIFTY },
            delay_ms: 100,
            max_speed: Float { bits: FIFTEEN_HUNDRED },
        }
    }

    /// The settings after taking over what a part says.
    pub open spec fn merged(self, part: DndEdgeWorkspaceSwitchPart) -> Self {
        DndEdgeWorkspaceSwitch {
            trigger_height: match part.trigger_height {
                Some(value) => value.0,
                None => self.trigger_height,
            },
            delay_ms: merge::said_or(part.delay_ms, self.delay_ms),
            max_speed: match part.max_speed {
                Some(value) => value.0,
                None => self.max_speed,
            },
        }
    }
}

impl HotCorners {
    /// The settings of an empty configuration.
    pub open spec fn initial() -> Self {
        HotCorners {
            off: false,
            top_left: false,
            top_right: false,
            bottom_left: false,
            bottom_right: false,
        }
    }
}

impl Default for DndEdgeViewScroll {
    fn default() -> (res: Self)
        ensures
            res == DndEdgeViewScroll::initial(),
    {
        DndEdgeViewScroll {
            trigger_width: Float { bits: THIRTY },
            delay_ms: 100,
            max_speed: Float { bits: FIFTEEN_HUNDRED },
        }
    }
}

impl Default for DndEdgeWorkspaceSwitch {
    fn default() -> (res: Self)
        ensures
            res == DndEdgeWorkspaceSwitch::initial(),
    {
        DndEdgeWorkspaceSwitch {
            trigger_height: Float { bits: FIFTY },
            delay_ms: 100,
            max_speed: Float { bits: FIFTEEN_HUNDRED },
        }
    }
}

impl Default for HotCorners {
    fn default() -> (res: Self)
        ensures
            res == HotCorners::initial(),
    {
        HotCorners {
            off: false,
            top_left: false,
            top_right: false,
            bottom_left: false,
            bottom_right: false,
        }
    }
}

impl<M, A> Default for Gestures<M, A> {
    fn default() -> (res: Self)
        ensures
            res.dnd_edge_view_scroll == DndEdgeViewScroll::initial(),
            res.dnd_edge_workspace_switch == DndEdgeWorkspaceSwitch::initial(),
            res.hot_corners == HotCorners::initial(),
            res.binds.0@.len() == 0,
    {
        Gestures {
            dnd_edge_view_scroll: DndEdgeViewScroll::default(),
            dnd_edge_workspace_switch: DndEdgeWorkspaceSwitch::default(),
            hot_corners: HotCorners::default(),
            binds: Binds(Vec::new()),
        }
    }
}

impl<M, A> Default for GesturesPart<M, A> {
    fn default() -> (res: Self)
        ensures
            res.dnd_edge_view_scroll is None,
            res.dnd_edge_workspace_switch is None,
            res.hot_corners is None,
            res.binds is None,
    {
        GesturesPart {
            dnd_edge_view_scroll: None,
            dnd_edge_workspace_switch: None,
            hot_corners: None,
            binds: None,
        }
    }
}

impl<M: Clone, A: Clone> Clone for Gestures<M, A> {
    fn clone(&self) -> (res: Self)
        ensures
            res.dnd_edge_view_scroll == self.dnd_edge_view_scroll,
            res.dnd_edge_workspace_switch == self.dnd_edge_workspace_switch,
            res.hot_corners == self.hot_corners,
            binds::binds_cloned(self.binds, res.binds),
    {
        Gestures {
            dnd_edge_view_scroll: self.dnd_edge_view_scroll,
            dnd_edge_workspace_switch: self.dnd_edge_workspace_switch,
            hot_corners: self.hot_corners,
            binds: self.binds.clone(),
        }
    }
}

impl<M: Clone, A: Clone> Clone for GesturesPart<M, A> {
    fn clone(&self) -> (res: Self)
        ensures
            res.dnd_edge_view_scroll == self.dnd_edge_view_scroll,
            res.dnd_edge_workspace_switch == self.dnd_edge_workspace_switch,
            res.hot_corners == self.hot_corners,
            match self.binds {
                Some(binds) => res.binds is Some && binds::binds_cloned(binds, res.binds->0),
                None => res.binds is None,
            },
    {
        GesturesPart {
            dnd_edge_view_scroll: self.dnd_edge_view_scroll,
            dnd_edge_workspace_switch: self.dnd_edge_workspace_switch,
            hot_corners: self.hot_corners,
            binds: match &self.binds {
                Some(binds) => Some(binds.clone()),
                None => None,
            },
        }
    }
}

impl MergeWith<DndEdgeViewScrollPart> for DndEdgeViewScroll {
    open spec fn merges_to(base: Self, part: DndEdgeViewScrollPart, merged: Self) -> bool {
        merged == base.merged(part)
    }

    fn merge_with(&mut self, part: &DndEdgeViewScrollPart) {
        if let Some(value) = &part.trigger_width {
            self.trigger_width.merge_with(value);
        }
        if let Some(value) = &part.max_speed {
            self.max_speed.merge_with(value);
        }
        if let Some(value) = &part.delay_ms {
            self.delay_ms = *value;
        }
    }
}

impl MergeWith<DndEdgeWorkspaceSwitchPart> for DndEdgeWorkspaceSwitch {
    open spec fn merges_to(base: Self, part: DndEdgeWorkspaceSwitchPart, merged: Self) -> bool {
        merged == base.merged(part)
    }

    fn merge_with(&mut self, part: &DndEdgeWorkspaceSwitchPart) {
        if let Some(value) = &part.trigger_height {
            self.trigger_height.merge_with(value);
        }
        if let Some(value) = &part.max_speed {
            self.max_speed.merge_with(value);
        }
        if let Some(value) = &part.delay_ms {
            self.delay_ms = *value;
        }
    }
}

/// Each setting takes over what the part says of it. Hot corners are taken over as a whole, binds
/// are put behind those that were there before.
impl<M: Clone, A: Clone> MergeWith<GesturesPart<M, A>> for Gestures<M, A> {
    open spec fn merges_to(base: Self, part: GesturesPart<M, A>, merged: Self) -> bool {
        &&& merge::merges_if_said(
            base.dnd_edge_view_scroll,
            part.dnd_edge_view_scroll,
            merged.dnd_edge_view_scroll,
        )
        &&& merge::merges_if_said(
            base.dnd_edge_workspace_switch,
            part.dnd_edge_workspace_switch,
            merged.dnd_edge_workspace_switch,
        )
        &&& merged.hot_corners == merge::said_or(part.hot_corners, base.hot_corners)
        &&& merge::merges_if_said(base.binds, part.binds, merged.binds)
    }

    fn merge_with(&mut self, part: &GesturesPart<M, A>) {
        if let Some(value) = &part.dnd_edge_view_scroll {
            self.dnd_edge_view_scroll.merge_with(value);
        }
        if let Some(value) = &part.dnd_edge_workspace_switch {
            self.dnd_edge_workspace_switch.merge_with(value);
        }
        if let Some(value) = &part.binds {
            self.binds.merge_with(value);
        }
        if let Some(value) = &part.hot_corners {
            self.hot_corners = *value;
        }
    }
}

/// A part that says nothing changes nothing.
pub proof fn silent_part_changes_nothing<M: Clone, A: Clone>(
    base: Gestures<M, A>,
    part: GesturesPart<M, A>,
    merged: Gestures<M, A>,
)
    requires
        part.dnd_edge_view_scroll is None,
        part.dnd_edge_workspace_switch is None,
        part.hot_corners is None,
        part.binds is None,
        Gestures::merges_to(base, part, merged),
    ensures
        merged == base,
{
}

/// Of two parts, the later one decides each setting of view scrolling that it speaks of, and the
/// earlier one those that the later does not speak of.
pub proof fn later_view_scroll_part_wins(
    base: DndEdgeViewScroll,
    earlier: DndEdgeViewScrollPart,
    later: DndEdgeViewScrollPart,
)
    ensures
        base.merged(earlier).merged(later) == base.merged(
            DndEdgeViewScrollPart {
                trigger_width: if later.trigger_width is Some {
                    later.trigger_width
                } else {
                    earlier.trigger_width
                },
                delay_ms: if later.delay_ms is Some {
                    later.delay_ms
                } else {
                    earlier.delay_ms
                },
                max_speed: if later.max_speed is Some {
                    later.max_speed
                } else {
                    earlier.max_speed
                },
            },
        ),
        base.merged(later).merged(later) == base.merged(later),
{
}

/// Of two parts, the later one decides each setting of workspace switching that it speaks of, and
/// the earlier one those that the later does not speak of.
pub proof fn later_workspace_switch_part_wins(
    base: DndEdgeWorkspaceSwitch,
    earlier: DndEdgeWorkspaceSwitchPart,
    later: DndEdgeWorkspaceSwitchPart,
)
    ensures
        base.merged(earlier).merged(later) == base.merged(
            DndEdgeWorkspaceSwitchPart {
                trigger_height: if later.trigger_height is Some {
                    later.trigger_height
                } else {
                    earlier.trigger_height
                },
                delay_ms: if later.delay_ms is Some {
                    later.delay_ms
                } else {
                    earlier.delay_ms
                },
                max_speed: if later.max_speed is Some {
                    later.max_speed
                } else {
                    earlier.max_speed
                },
            },
        ),
        base.merged(later).merged(later) == base.merged(later),
{
}

/// Merging two parts one after the other keeps the earlier part's binds, and behind them come the
/// later part's; nothing is dropped or reordered. The hot corners are those of the last part that
/// speaks of them.
pub proof fn parts_add_up<M: Clone, A: Clone>(
    base: Gestures<M, A>,
    earlier: GesturesPart<M, A>,
    between: Gestures<M, A>,
    later: GesturesPart<M, A>,
    merged: Gestures<M, A>,
)
    requires
        Gestures::merges_to(base, earlier, between),
        Gestures::merges_to(between, later, merged),
    ensures
        base.binds.0@.is_prefix_of(merged.binds.0@),
        between.binds.0@.is_prefix_of(merged.binds.0@),
        merged.binds.0@.len() == base.binds.0@.len() + brought_binds(earlier).len() + brought_binds(later).len(),
        forall|i: int|
            0 <= i < brought_binds(earlier).len() ==> binds::bind_cloned(
                #[trigger] brought_binds(earlier)[i],
                merged.binds.0@[base.binds.0@.len() + i],
            ),
        forall|i: int|
            0 <= i < brought_binds(later).len() ==> binds::bind_cloned(
                #[trigger] brought_binds(later)[i],
                merged.binds.0@[base.binds.0@.len() + brought_binds(earlier).len() + i],
            ),
        merged.hot_corners == merge::said_or(
            later.hot_corners,
            merge::said_or(earlier.hot_corners, base.hot_corners),
        ),
{
    let a = base.binds.0@;
    let b = between.binds.0@;
    let c = merged.binds.0@;
    assert(b.take(a.len() as int) =~= a);
    assert(c.take(b.len() as int) =~= b);
    assert forall|i: int| 0 <= i < a.len() implies a[i] == c[i] by {
        assert(b.take(a.len() as int)[i] == a[i]);
        assert(c.take(b.len() as int)[i] == b[i]);
    }
    assert(c.take(a.len() as int) =~= a);
    assert forall|i: int| 0 <= i < brought_binds(earlier).len() implies binds::bind_cloned(
        #[trigger] brought_binds(earlier)[i],
        c[a.len() + i],
    ) by {
        assert(c.take(b.len() as int)[a.len() + i] == b[a.len() + i]);
    }
}

/// Merging a part a second time changes nothing but the binds, behind which the part's come once
/// more.
pub proof fn part_merged_twice<M: Clone, A: Clone>(
    base: Gestures<M, A>,
    part: GesturesPart<M, A>,
    once: Gestures<M, A>,
    twice: Gestures<M, A>,
)
    requires
        Gestures::merges_to(base, part, once),
        Gestures::merges_to(once, part, twice),
    ensures
        twice.dnd_edge_view_scroll == once.dnd_edge_view_scroll,
        twice.dnd_edge_workspace_switch == once.dnd_edge_workspace_switch,
        twice.hot_corners == once.hot_corners,
        once.binds.0@.is_prefix_of(twice.binds.0@),
        twice.binds.0@.len() == once.binds.0@.len() + brought_binds(part).len(),
        forall|i: int|
            0 <= i < brought_binds(part).len() ==> binds::bind_cloned(
                #[trigger] brought_binds(part)[i],
                twice.binds.0@[once.binds.0@.len() + i],
            ),
        merge::clones_are_equal::<M>() && merge::clones_are_equal::<A>() ==> twice.binds.0@
            == once.binds.0@ + brought_binds(part),
{
    let a = once.binds.0@;
    let b = twice.binds.0@;
    assert(b.take(a.len() as int) =~= a);
    if merge::clones_are_equal::<M>() && merge::clones_are_equal::<A>() {
        assert forall|i: int| 0 <= i < b.len() implies b[i] == (a + brought_binds(part))[i] by {
            if i < a.len() {
                assert(b.take(a.len() as int)[i] == a[i]);
            } else {
                assert(binds::bind_cloned(brought_binds(part)[i - a.len()], b[i]));
            }
        }
        assert(b =~= a + brought_binds(part));
    }
}

/// After merging, each setting of view scrolling is the very value that the part says, and where
/// it says none, what it was before.
pub proof fn view_scroll_is_what_the_part_says(
    base: DndEdgeViewScroll,
    part: DndEdgeViewScrollPart,
    merged: DndEdgeViewScroll,
)
    requires
        DndEdgeViewScroll::merges_to(base, part, merged),
    ensures
        part.trigger_width matches Some(value) ==> merged.trigger_width.bits == value.0.bits,
        part.trigger_width is None ==> merged.trigger_width.bits == base.trigger_width.bits,
        part.delay_ms matches Some(value) ==> merged.delay_ms == value,
        part.delay_ms is None ==> merged.delay_ms == base.delay_ms,
        part.max_speed matches Some(value) ==> merged.max_speed.bits == value.0.bits,
        part.max_speed is None ==> merged.max_speed.bits == base.max_speed.bits,
{
}

/// After merging, each setting of workspace switching is the very value that the part says, and
/// where it says none, what it was before.
pub proof fn workspace_switch_is_what_the_part_says(
    base: DndEdgeWorkspaceSwitch,
    part: DndEdgeWorkspaceSwitchPart,
    merged: DndEdgeWorkspaceSwitch,
)
    requires
        DndEdgeWorkspaceSwitch::merges_to(base, part, merged),
    ensures
        part.trigger_height matches Some(value) ==> merged.trigger_height.bits == value.0.bits,
        part.trigger_height is None ==> merged.trigger_height.bits == base.trigger_height.bits,
        part.delay_ms matches Some(value) ==> merged.delay_ms == value,
        part.delay_ms is None ==> merged.delay_ms == base.delay_ms,
        part.max_speed matches Some(value) ==> merged.max_speed.bits == value.0.bits,
        part.max_speed is None ==> merged.max_speed.bits == base.max_speed.bits,
{
}

/// After merging, each setting of the section is what the part says of it, and where it says
/// nothing, what it was before. The part's binds come behind those that were there.
pub proof fn gestures_are_what_the_part_says<M: Clone, A: Clone>(
    base: Gestures<M, A>,
    part: GesturesPart<M, A>,
    merged: Gestures<M, A>,
)
    requires
        Gestures::merges_to(base, part, merged),
    ensures
        part.dnd_edge_view_scroll is None ==> merged.dnd_edge_view_scroll
            == base.dnd_edge_view_scroll,
        part.dnd_edge_view_scroll matches Some(said) ==> {
            let old = base.dnd_edge_view_scroll;
            let new = merged.dnd_edge_view_scroll;
            &&& said.trigger_width matches Some(value) ==> new.trigger_width.bits == value.0.bits
            &&& said.trigger_width is None ==> new.trigger_width.bits == old.trigger_width.bits
            &&& said.delay_ms matches Some(value) ==> new.delay_ms == value
            &&& said.delay_ms is None ==> new.delay_ms == old.delay_ms
            &&& said.max_speed matches Some(value) ==> new.max_speed.bits == value.0.bits
            &&& said.max_speed is None ==> new.max_speed.bits == old.max_speed.bits
        },
        part.dnd_edge_workspace_switch is None ==> merged.dnd_edge_workspace_switch
            == base.dnd_edge_workspace_switch,
        part.dnd_edge_workspace_switch matches Some(said) ==> {
            let old = base.dnd_edge_workspace_switch;
            let new = merged.dnd_edge_workspace_switch;
            &&& said.trigger_height matches Some(value) ==> new.trigger_height.bits == value.0.bits
            &&& said.trigger_height is None ==> new.trigger_height.bits == old.trigger_height.bits
            &&& said.delay_ms matches Some(value) ==> new.delay_ms == value
            &&& said.delay_ms is None ==> new.delay_ms == old.delay_ms
            &&& said.max_speed matches Some(value) ==> new.max_speed.bits == value.0.bits
            &&& said.max_speed is None ==> new.max_speed.bits == old.max_speed.bits
        },
        part.hot_corners is None ==> merged.hot_corners == base.hot_corners,
        part.hot_corners matches Some(corners) ==> {
            &&& merged.hot_corners.off == corners.off
            &&& merged.hot_corners.top_left == corners.top_left
            &&& merged.hot_corners.top_right == corners.top_right
            &&& merged.hot_corners.bottom_left == corners.bottom_left
            &&& merged.hot_corners.bottom_right == corners.bottom_right
        },
        part.binds is None ==> merged.binds == base.binds,
        part.binds matches Some(binds) ==> {
            let before = base.binds.0@.len() as int;
            &&& merged.binds.0@.len() == before + binds.0@.len()
            &&& forall|i: int|
                0 <= i < before ==> #[trigger] merged.binds.0@[i] == base.binds.0@[i]
            &&& forall|i: int|
                #![trigger binds.0@[i]]
                0 <= i < binds.0@.len() ==> {
                    &&& merged.binds.0@[before + i].gesture == binds.0@[i].gesture
                    &&& cloned(binds.0@[i].modifiers, merged.binds.0@[before + i].modifiers)
                    &&& cloned(binds.0@[i].action, merged.binds.0@[before + i].action)
                }
        },
{
    if let Some(binds) = part.binds {
        let before = base.binds.0@.len() as int;
        assert forall|i: int| 0 <= i < before implies #[trigger] merged.binds.0@[i]
            == base.binds.0@[i] by {
            assert(merged.binds.0@.take(before)[i] == base.binds.0@[i]);
        }
        assert forall|i: int|
            #![trigger binds.0@[i]]
            0 <= i < binds.0@.len() implies binds::bind_cloned(
            binds.0@[i],
            merged.binds.0@[before + i],
        ) by {}
    }
}

/// The settings of an empty configuration.
pub proof fn initial_settings_are_these()
    ensures
        DndEdgeViewScroll::initial().trigger_width.bits == 0x403e_0000_0000_0000,
        DndEdgeViewScroll::initial().delay_ms == 100,
        DndEdgeViewScroll::initial().max_speed.bits == 0x4097_7000_0000_0000,
        DndEdgeWorkspaceSwitch::initial().trigger_height.bits == 0x4049_0000_0000_0000,
        DndEdgeWorkspaceSwitch::initial().delay_ms == 100,
        DndEdgeWorkspaceSwitch::initial().max_speed.bits == 0x4097_7000_0000_0000,
        !HotCorners::initial().off,
        !HotCorners::initial().top_left,
        !HotCorners::initial().top_right,
        !HotCorners::initial().bottom_left,
        !HotCorners::initial().bottom_right,
{
}

/// The binds that a part brings.
pub open spec fn brought_binds<M, A>(part: GesturesPart<M, A>) -> Seq<Bind<M, A>> {
    match part.binds {
        Some(binds) => binds.0@,
        None => Seq::empty(),
    }
}

} // verus!
