//! Window state that does not depend on the windowing toolkit: the windows'
//! error texts, their UI messages, the decisions of their redraw timers and
//! the screen share toolbar.

use crate::room_service::{DrawSettings, DrawingMode};
use crate::share_input::{spec_clears_paths, spec_tab_mode, ScreenShareTab, SharePointer};
use crate::text::{chars_eq, chars_of};
use vstd::prelude::*;
use vstd::string::StringExecFns;

verus! {

/// Errors of the screen share window's creation.
#[derive(Debug, Clone, Copy, PartialEq, Eq, Structural)]
pub enum ScreensharingWindowError {
    WindowCreation,
    SurfaceCreation,
    AdapterRequest,
    DeviceRequest,
}

/// Errors of the drawing overlay window's creation.
#[derive(Debug, Clone, Copy, PartialEq, Eq, Structural)]
pub enum DrawingWindowError {
    WindowCreation,
    SurfaceCreation,
    AdapterRequest,
    DeviceRequest,
}

/// Errors of the camera window's creation.
#[derive(Debug, Clone, Copy, PartialEq, Eq, Structural)]
pub enum CameraWindowError {
    WindowCreation,
    SurfaceCreation,
    AdapterRequest,
    DeviceRequest,
}

/// The texts the window errors share, by the step that failed:
/// 0 window, 1 surface, 2 adapter, 3 device.
pub open spec fn spec_window_failure_text(step: int) -> Seq<char> {
    if step == 0 {
        "Failed to create window"@
    } else if step == 1 {
        "Failed to create wgpu surface"@
    } else if step == 2 {
        "No suitable GPU adapter found"@
    } else {
        "Failed to request GPU device"@
    }
}

fn window_failure_text(step: u8) -> (r: String)
    requires
        step < 4,
    ensures
        r@ == spec_window_failure_text(step as int),
{
    if step == 0 {
        String::from_str("Failed to create window")
    } else if step == 1 {
        String::from_str("Failed to create wgpu surface")
    } else if step == 2 {
        String::from_str("No suitable GPU adapter found")
    } else {
        String::from_str("Failed to request GPU device")
    }
}

impl ScreensharingWindowError {
    pub open spec fn step(&self) -> int {
        match self {
            ScreensharingWindowError::WindowCreation => 0,
            ScreensharingWindowError::SurfaceCreation => 1,
            ScreensharingWindowError::AdapterRequest => 2,
            ScreensharingWindowError::DeviceRequest => 3,
        }
    }

    /// The text of the error.
    pub fn message(&self) -> (r: String)
        ensures
            r@ == spec_window_failure_text(self.step()),
    {
        match self {
            ScreensharingWindowError::WindowCreation => window_failure_text(0),
            ScreensharingWindowError::SurfaceCreation => window_failure_text(1),
            ScreensharingWindowError::AdapterRequest => window_failure_text(2),
            ScreensharingWindowError::DeviceRequest => window_failure_text(3),
        }
    }
}

impl DrawingWindowError {
    pub open spec fn step(&self) -> int {
        match self {
            DrawingWindowError::WindowCreation => 0,
            DrawingWindowError::SurfaceCreation => 1,
            DrawingWindowError::AdapterRequest => 2,
            DrawingWindowError::DeviceRequest => 3,
        }
    }

    /// The text of the error.
    pub fn message(&self) -> (r: String)
        ensures
            r@ == spec_window_failure_text(self.step()),
    {
        match self {
            DrawingWindowError::WindowCreation => window_failure_text(0),
            DrawingWindowError::SurfaceCreation => window_failure_text(1),
            DrawingWindowError::AdapterRequest => window_failure_text(2),
            DrawingWindowError::DeviceRequest => window_failure_text(3),
        }
    }
}

impl CameraWindowError {
    pub open spec fn step(&self) -> int {
        match self {
            CameraWindowError::WindowCreation => 0,
            CameraWindowError::SurfaceCreation => 1,
            CameraWindowError::AdapterRequest => 2,
            CameraWindowError::DeviceRequest => 3,
        }
    }

    /// The text of the error.
    pub fn message(&self) -> (r: String)
        ensures
            r@ == spec_window_failure_text(self.step()),
    {
        match self {
            CameraWindowError::WindowCreation => window_failure_text(0),
            CameraWindowError::SurfaceCreation => window_failure_text(1),
            CameraWindowError::AdapterRequest => window_failure_text(2),
            CameraWindowError::DeviceRequest => window_failure_text(3),
        }
    }
}

/// Messages of the screen share window's toolbar.
#[derive(Debug)]
pub enum ScreensharingMessage {
    /// A tab of the segmented control was chosen, by its id.
    TabSelected(&'static str),
    ToggleDropdown,
    DismissDropdown,
    /// An entry of the draw settings dropdown was chosen, by its index.
    DropdownItemClicked(usize),
}

/// The tab of a segmented control id: `draw`, `point`, anything else is the
/// control tab.
pub open spec fn spec_tab_for_id(id: Seq<char>) -> ScreenShareTab {
    if id == "draw"@ {
        ScreenShareTab::Draw
    } else if id == "point"@ {
        ScreenShareTab::Point
    } else {
        ScreenShareTab::Control
    }
}

/// The tab of a segmented control id.
pub fn tab_for_id(id: &str) -> (r: ScreenShareTab)
    ensures
        r == spec_tab_for_id(id@),
{
    let chars = chars_of(id);
    let draw = chars_of("draw");
    let point = chars_of("point");
    if chars_eq(chars.as_slice(), draw.as_slice()) {
        ScreenShareTab::Draw
    } else if chars_eq(chars.as_slice(), point.as_slice()) {
        ScreenShareTab::Point
    } else {
        ScreenShareTab::Control
    }
}

/// The toolbar of the screen share window: the chosen tab's id and whether
/// the draw settings dropdown is open.
#[derive(Debug)]
pub struct ShareToolbar {
    pub active_tab: &'static str,
    pub dropdown_open: bool,
}

impl ShareToolbar {
    /// A fresh toolbar: the control tab, the dropdown closed.
    pub fn new() -> (r: Self)
        ensures
            r.active_tab@ == "control"@,
            !r.dropdown_open,
    {
        ShareToolbar { active_tab: "control", dropdown_open: false }
    }

    /// Applies a toolbar message to the toolbar and to the pointer state.
    /// Returns the drawing mode to set and publish, with whether the local
    /// strokes are cleared with it, for a tab choice or a dropdown choice.
    pub fn apply<P: Copy>(&mut self, pointer: &mut SharePointer<P>, message: &ScreensharingMessage) -> (r: Option<(DrawingMode, bool)>)
        ensures
            match *message {
                ScreensharingMessage::TabSelected(id) => {
                    &&& final(self).active_tab == id
                    &&& final(self).dropdown_open == old(self).dropdown_open
                    &&& final(pointer).tab == spec_tab_for_id(id@)
                    &&& !final(pointer).left_mouse_pressed
                    &&& final(pointer).draw_persist == old(pointer).draw_persist
                    &&& r == Some(
                        (
                            spec_tab_mode(spec_tab_for_id(id@), old(pointer).draw_persist),
                            spec_clears_paths(
                                spec_tab_mode(spec_tab_for_id(id@), old(pointer).draw_persist),
                            ),
                        ),
                    )
                },
                ScreensharingMessage::ToggleDropdown => {
                    &&& final(self).active_tab == old(self).active_tab
                    &&& final(self).dropdown_open == !old(self).dropdown_open
                    &&& *final(pointer) == *old(pointer)
                    &&& r is None
                },
                ScreensharingMessage::DismissDropdown => {
                    &&& final(self).active_tab == old(self).active_tab
                    &&& !final(self).dropdown_open
                    &&& *final(pointer) == *old(pointer)
                    &&& r is None
                },
                ScreensharingMessage::DropdownItemClicked(index) => {
                    &&& final(self).active_tab == old(self).active_tab
                    &&& !final(self).dropdown_open
                    &&& final(pointer).tab == old(pointer).tab
                    &&& final(pointer).left_mouse_pressed == old(pointer).left_mouse_pressed
                    &&& final(pointer).draw_persist == (if index == 0 {
                        false
                    } else if index == 1 {
                        true
                    } else {
                        old(pointer).draw_persist
                    })
                    &&& r == Some(
                        (
                            DrawingMode::Draw(DrawSettings { permanent: index == 1 }),
                            false,
                        ),
                    )
                },
            },
            final(pointer).in_area == old(pointer).in_area,
            final(pointer).current_path_id == old(pointer).current_path_id,
            final(pointer).last_draw_cursor == old(pointer).last_draw_cursor,
            final(pointer).remote_control_allowed == old(pointer).remote_control_allowed,
            final(pointer).local_in_control == old(pointer).local_in_control,
    {
        match message {
            ScreensharingMessage::TabSelected(id) => {
                let tab = tab_for_id(id);
                let change = pointer.select_tab(tab);
                self.active_tab = *id;
                Some(change)
            },
            ScreensharingMessage::ToggleDropdown => {
                self.dropdown_open = !self.dropdown_open;
                None
            },
            ScreensharingMessage::DismissDropdown => {
                self.dropdown_open = false;
                None
            },
            ScreensharingMessage::DropdownItemClicked(index) => {
                let mode = pointer.choose_draw_setting(*index);
                self.dropdown_open = false;
                Some((mode, false))
            },
        }
    }
}

/// Commands to the screen share window's redraw timer.
#[derive(Debug, Clone, Copy, PartialEq, Eq, Structural)]
pub enum RedrawCommand {
    ForceRedraw,
    Stop,
}

/// What woke a redraw timer: a command, the end of the interval, or the
/// window dropping its sender.
#[derive(Debug, Clone, Copy)]
pub enum RedrawWake<C> {
    Received(C),
    TimedOut,
    Disconnected,
}

/// What a redraw timer does next.
#[derive(Debug, Clone, Copy, PartialEq, Eq, Structural)]
pub enum RedrawAction {
    /// Ask the window to redraw, then wait again.
    Redraw,
    /// Wait again without redrawing.
    Wait,
    /// Stop the timer.
    Exit,
}

/// One step of the screen share window's redraw timer: it redraws at every
/// interval, and on a forced redraw unless a redraw is in progress; a stop
/// command or a dropped sender ends it.
pub fn share_redraw_step(wake: RedrawWake<RedrawCommand>, redraw_in_progress: bool) -> (r: RedrawAction)
    ensures
        r == (match wake {
            RedrawWake::Received(RedrawCommand::ForceRedraw) => if redraw_in_progress {
                RedrawAction::Wait
            } else {
                RedrawAction::Redraw
            },
            RedrawWake::Received(RedrawCommand::Stop) => RedrawAction::Exit,
            RedrawWake::Disconnected => RedrawAction::Exit,
            RedrawWake::TimedOut => RedrawAction::Redraw,
        }),
{
    match wake {
        RedrawWake::Received(RedrawCommand::ForceRedraw) => {
            if redraw_in_progress {
                RedrawAction::Wait
            } else {
                RedrawAction::Redraw
            }
        },
        RedrawWake::Received(RedrawCommand::Stop) => RedrawAction::Exit,
        RedrawWake::Disconnected => RedrawAction::Exit,
        RedrawWake::TimedOut => RedrawAction::Redraw,
    }
}

/// Commands to the drawing overlay's redraw timer.
#[derive(Debug, Clone, Copy, PartialEq, Eq, Structural)]
pub enum OverlayRedrawCommand {
    /// Something was drawn.
    Activity,
    Stop,
}

/// The drawing overlay's redraw interval, in nanoseconds (16 ms).
pub const OVERLAY_REDRAW_INTERVAL_NANOS: u128 = 16_000_000;

/// How long the drawing overlay keeps redrawing after the last activity, in
/// nanoseconds (15 s).
pub const OVERLAY_INACTIVITY_TIMEOUT_NANOS: u128 = 15_000_000_000;

/// One step of the drawing overlay's redraw timer, given the time since the
/// last recorded activity. Returns the action and whether the activity time
/// is reset to now. Activity closer than one interval to the last recorded
/// one is ignored; otherwise it is recorded and a redraw follows. At the end
/// of an interval the overlay redraws until the inactivity timeout has
/// passed.
pub fn overlay_redraw_step(wake: RedrawWake<OverlayRedrawCommand>, since_activity_nanos: u128) -> (r: (RedrawAction, bool))
    ensures
        r == (match wake {
            RedrawWake::Received(OverlayRedrawCommand::Stop) => (RedrawAction::Exit, false),
            RedrawWake::Disconnected => (RedrawAction::Exit, false),
            RedrawWake::Received(OverlayRedrawCommand::Activity) => if since_activity_nanos
                < OVERLAY_REDRAW_INTERVAL_NANOS {
                (RedrawAction::Wait, false)
            } else {
                (RedrawAction::Redraw, true)
            },
            RedrawWake::TimedOut => if since_activity_nanos > OVERLAY_INACTIVITY_TIMEOUT_NANOS {
                (RedrawAction::Wait, false)
            } else {
                (RedrawAction::Redraw, false)
            },
        }),
{
    match wake {
        RedrawWake::Received(OverlayRedrawCommand::Stop) => (RedrawAction::Exit, false),
        RedrawWake::Disconnected => (RedrawAction::Exit, false),
        RedrawWake::Received(OverlayRedrawCommand::Activity) => {
            if since_activity_nanos < OVERLAY_REDRAW_INTERVAL_NANOS {
                (RedrawAction::Wait, false)
            } else {
                (RedrawAction::Redraw, true)
            }
        },
        RedrawWake::TimedOut => {
            if since_activity_nanos > OVERLAY_INACTIVITY_TIMEOUT_NANOS {
                (RedrawAction::Wait, false)
            } else {
                (RedrawAction::Redraw, false)
            }
        },
    }
}

/// How far back a frame id must jump for the share window to take it as a
/// restarted stream.
pub const FRAME_ID_RESTART_GAP: u64 = 40;

/// What the share window does with the latest frame when it redraws.
#[derive(Debug, Clone, Copy, PartialEq, Eq, Structural)]
pub enum FrameDecision {
    /// The stream's size changed: resize the window to the new aspect and
    /// draw nothing until the resize is done.
    Resize { width: u32, height: u32 },
    /// Draw; the frame's pixels only when `draw_frame`, else it was drawn
    /// already.
    Render { draw_frame: bool },
}

/// What the share window remembers of the frames it drew.
#[derive(Debug, Clone, Copy, PartialEq, Eq, Structural)]
pub struct FrameTracker {
    pub last_rendered_frame_id: u64,
    pub last_stream_width: u32,
    pub last_stream_height: u32,
}

/// The last drawn frame id after a stream restart check: a frame id more
/// than the gap below it means the stream started over.
pub open spec fn restarted_last(last: u64, frame_id: u64) -> u64 {
    if frame_id > 0 && last > FRAME_ID_RESTART_GAP && frame_id < last - FRAME_ID_RESTART_GAP {
        0
    } else {
        last
    }
}

/// The tracker and the decision after checking a frame.
pub open spec fn spec_frame_check(g: FrameTracker, frame_id: u64, width: u32, height: u32) -> (
    FrameTracker,
    FrameDecision,
) {
    let last = restarted_last(g.last_rendered_frame_id, frame_id);
    if width > 0 && height > 0 && (width != g.last_stream_width || height != g.last_stream_height) {
        (
            FrameTracker {
                last_rendered_frame_id: last,
                last_stream_width: width,
                last_stream_height: height,
            },
            FrameDecision::Resize { width, height },
        )
    } else {
        (
            FrameTracker { last_rendered_frame_id: last, ..g },
            FrameDecision::Render { draw_frame: !(frame_id > 0 && frame_id <= last) },
        )
    }
}

/// The tracker after a redraw that drew frame `frame_id`, or drew none.
pub open spec fn spec_rendered(g: FrameTracker, frame_id: u64, drew_frame: bool) -> FrameTracker {
    if drew_frame {
        FrameTracker { last_rendered_frame_id: frame_id, ..g }
    } else {
        g
    }
}

impl FrameTracker {
    /// Nothing drawn yet.
    pub fn new() -> (r: Self)
        ensures
            r.last_rendered_frame_id == 0,
            r.last_stream_width == 0,
            r.last_stream_height == 0,
    {
        FrameTracker { last_rendered_frame_id: 0, last_stream_width: 0, last_stream_height: 0 }
    }

    /// A new sharer: frame ids start over.
    pub fn reset_frames(&mut self)
        ensures
            final(self).last_rendered_frame_id == 0,
            final(self).last_stream_width == old(self).last_stream_width,
            final(self).last_stream_height == old(self).last_stream_height,
    {
        self.last_rendered_frame_id = 0;
    }

    /// Decides a redraw for the latest frame, with its id and size. A frame
    /// already drawn is not drawn again; a stream whose size changed asks for
    /// a resize first.
    pub fn check(&mut self, frame_id: u64, width: u32, height: u32) -> (r: FrameDecision)
        ensures
            (*final(self), r) == spec_frame_check(*old(self), frame_id, width, height),
    {
        if frame_id > 0 && self.last_rendered_frame_id > FRAME_ID_RESTART_GAP && frame_id
            < self.last_rendered_frame_id - FRAME_ID_RESTART_GAP {
            self.last_rendered_frame_id = 0;
        }
        let draw_frame = !(frame_id > 0 && frame_id <= self.last_rendered_frame_id);
        if width > 0 && height > 0 && (width != self.last_stream_width || height
            != self.last_stream_height) {
            self.last_stream_width = width;
            self.last_stream_height = height;
            return FrameDecision::Resize { width, height };
        }
        FrameDecision::Render { draw_frame }
    }

    /// A redraw finished: a drawn frame becomes the last drawn one.
    pub fn rendered(&mut self, frame_id: u64, drew_frame: bool)
        ensures
            *final(self) == spec_rendered(*old(self), frame_id, drew_frame),
    {
        if drew_frame {
            self.last_rendered_frame_id = frame_id;
        }
    }
}

/// A frame is not drawn twice: once a frame has been drawn, checking the
/// same frame again, at the size the tracker knows, draws nothing new.
pub proof fn law_frame_drawn_once(g: FrameTracker, frame_id: u64, width: u32, height: u32)
    requires
        frame_id > 0,
        spec_frame_check(g, frame_id, width, height).1 == (FrameDecision::Render { draw_frame: true }),
    ensures
        ({
            let after = spec_rendered(spec_frame_check(g, frame_id, width, height).0, frame_id, true);
            spec_frame_check(after, frame_id, width, height).1 == (FrameDecision::Render {
                draw_frame: false,
            })
        }),
{
}

/// Checking a frame of a stream with a known size (both sides positive)
/// leaves the tracker at that size, and asks for a resize, to exactly that
/// size, exactly when the size differs from the one the tracker held; a frame
/// without a size keeps the tracker's size and never resizes. A frame id more
/// than the restart gap below the last drawn one resets the last drawn id to
/// 0; a redraw draws the frame's pixels exactly when its id is 0 or above the
/// last drawn id.
pub proof fn law_frame_check_follows_the_stream(g: FrameTracker, frame_id: u64, width: u32, height: u32)
    ensures
        ({
            let (after, d) = spec_frame_check(g, frame_id, width, height);
            &&& width > 0 && height > 0 ==> after.last_stream_width == width && after.last_stream_height
                == height
            &&& !(width > 0 && height > 0) ==> after.last_stream_width == g.last_stream_width
                && after.last_stream_height == g.last_stream_height
            &&& (d is Resize) == (width > 0 && height > 0 && (width != g.last_stream_width || height
                != g.last_stream_height))
            &&& d is Resize ==> d == (FrameDecision::Resize { width, height })
            &&& after.last_rendered_frame_id == (if frame_id > 0 && g.last_rendered_frame_id > 40
                && frame_id < g.last_rendered_frame_id - 40 {
                0
            } else {
                g.last_rendered_frame_id
            })
            &&& d is Render ==> d == (FrameDecision::Render {
                draw_frame: frame_id == 0 || frame_id > after.last_rendered_frame_id,
            })
        }),
{
}

/// The earliest of the times that are set, if any.
pub open spec fn earliest(times: Seq<Option<u64>>) -> Option<u64>
    decreases times.len(),
{
    if times.len() == 0 {
        None
    } else {
        let rest = earliest(times.drop_last());
        match (times.last(), rest) {
            (Some(t), Some(e)) => Some(if t < e {
                t
            } else {
                e
            }),
            (Some(t), None) => Some(t),
            (None, _) => rest,
        }
    }
}

/// The event loop's redraw schedule at `now`, given when each open window
/// wants its next redraw (`None` for a window that is not open): which
/// windows redraw now, and when the loop wakes next (`None`: only on
/// events).
pub fn redraw_schedule(now: u64, next_redraws: &[Option<u64>]) -> (r: (Vec<bool>, Option<u64>))
    ensures
        r.0@.len() == next_redraws@.len(),
        forall|i: int|
            0 <= i < next_redraws@.len() ==> r.0@[i] == (next_redraws@[i] matches Some(t) && now
                >= t),
        r.1 == earliest(next_redraws@),
{
    let mut due: Vec<bool> = Vec::new();
    let mut wake: Option<u64> = None;
    let mut i: usize = 0;
    while i < next_redraws.len()
        invariant
            i <= next_redraws@.len(),
            due@.len() == i,
            forall|k: int|
                0 <= k < i ==> due@[k] == (next_redraws@[k] matches Some(t) && now >= t),
            wake == earliest(next_redraws@.take(i as int)),
        decreases next_redraws@.len() - i,
    {
        proof {
            assert(next_redraws@.take(i + 1).drop_last() =~= next_redraws@.take(i as int));
        }
        match next_redraws[i] {
            Some(t) => {
                due.push(now >= t);
                wake = match wake {
                    Some(e) => Some(
                        if t < e {
                            t
                        } else {
                            e
                        },
                    ),
                    None => Some(t),
                };
            },
            None => {
                due.push(false);
            },
        }
        i += 1;
    }
    assert(next_redraws@.take(next_redraws@.len() as int) =~= next_redraws@);
    (due, wake)
}

/// The loop wakes no later than any window wants to redraw, and at a time
/// one of them asked for.
pub proof fn law_wake_is_earliest(times: Seq<Option<u64>>)
    ensures
        forall|i: int|
            0 <= i < times.len() && (#[trigger] times[i]) is Some ==> (earliest(times) is Some
                && earliest(times)->0 <= times[i]->0),
        earliest(times) matches Some(e) ==> exists|i: int| 0 <= i < times.len() && times[i] == Some(e),
        earliest(times) is None ==> forall|i: int| 0 <= i < times.len() ==> times[i] is None,
    decreases times.len(),
{
    if times.len() > 0 {
        law_wake_is_earliest(times.drop_last());
        assert forall|i: int| 0 <= i < times.len() - 1 implies times.drop_last()[i] == times[i] by {}
        if let Some(e) = earliest(times.drop_last()) {
            let j = choose|j: int| 0 <= j < times.drop_last().len() && times.drop_last()[j] == Some(e);
            assert(times[j] == Some(e));
        }
    }
}

/// The segmented control's ids: `draw` selects the draw tab, `point` the
/// point tab, and every other id the control tab.
pub proof fn law_tab_ids(id: Seq<char>)
    ensures
        (spec_tab_for_id(id) == ScreenShareTab::Draw) == (id == seq!['d', 'r', 'a', 'w']),
        (spec_tab_for_id(id) == ScreenShareTab::Point) == (id == seq!['p', 'o', 'i', 'n', 't']),
        (spec_tab_for_id(id) == ScreenShareTab::Control) == (id != seq!['d', 'r', 'a', 'w'] && id != seq![
            'p',
            'o',
            'i',
            'n',
            't',
        ]),
{
    reveal_strlit("draw");
    reveal_strlit("point");
    assert("draw"@ =~= seq!['d', 'r', 'a', 'w']);
    assert("point"@ =~= seq!['p', 'o', 'i', 'n', 't']);
    assert(seq!['d', 'r', 'a', 'w'].len() != seq!['p', 'o', 'i', 'n', 't'].len());
}

} // verus!
