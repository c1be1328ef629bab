//! Pointer state machines of the drawing features: the local drawing mode of
//! the overlay, the drawing window, and the pointer handling of the screen
//! sharing window. Positions are opaque to these machines: they are passed
//! through unchanged, so `P` is whatever position type the windows use.

use crate::room_service::{DrawSettings, DrawingMode};
use vstd::prelude::*;

verus! {

/// A drawing operation to perform locally and to publish to the room.
#[derive(Debug, Clone, Copy, PartialEq, Eq)]
pub enum DrawAction<P> {
    /// A new stroke starts at `point`.
    Start { point: P, path_id: u64 },
    /// The current stroke continues to `point`.
    AddPoint(P),
    /// The current stroke ends at `point`.
    End(P),
    /// All strokes of the local participant are cleared.
    ClearAll,
}

/// Number of redraws during which the pencil cursor is re-applied after local
/// drawing was enabled.
pub const CURSOR_REFRESH_LIMIT: u32 = 500;

/// State of the local drawing mode on the overlay window.
#[derive(Debug)]
pub struct LocalDrawing<P> {
    pub enabled: bool,
    pub permanent: bool,
    pub left_mouse_pressed: bool,
    pub current_path_id: u64,
    pub last_cursor_position: Option<P>,
    pub previous_controllers_enabled: bool,
    pub cursor_set_times: u32,
}

impl<P: Copy> LocalDrawing<P> {
    /// Drawing disabled, no stroke, no cursor position.
    pub fn new() -> (r: Self)
        ensures
            !r.enabled && !r.permanent && !r.left_mouse_pressed,
            r.current_path_id == 0,
            r.last_cursor_position is None,
            !r.previous_controllers_enabled,
            r.cursor_set_times == 0,
    {
        LocalDrawing {
            enabled: false,
            permanent: false,
            left_mouse_pressed: false,
            current_path_id: 0,
            last_cursor_position: None,
            previous_controllers_enabled: false,
            cursor_set_times: 0,
        }
    }

    /// Resets the drawing state at the start of a screen share; the cursor
    /// refresh counter is kept.
    pub fn reset(&mut self)
        ensures
            !final(self).enabled && !final(self).permanent && !final(self).left_mouse_pressed,
            final(self).current_path_id == 0,
            final(self).last_cursor_position is None,
            !final(self).previous_controllers_enabled,
            final(self).cursor_set_times == old(self).cursor_set_times,
    {
        self.enabled = false;
        self.permanent = false;
        self.left_mouse_pressed = false;
        self.current_path_id = 0;
        self.last_cursor_position = None;
        self.previous_controllers_enabled = false;
    }

    /// Turns local drawing on: remembers whether remote control was enabled
    /// (it is switched off while drawing) and returns the drawing mode to set
    /// and publish.
    pub fn enable(&mut self, permanent: bool, controllers_enabled: bool) -> (r: DrawingMode)
        ensures
            final(self).enabled,
            final(self).permanent == permanent,
            final(self).cursor_set_times == 0,
            final(self).previous_controllers_enabled == controllers_enabled,
            final(self).left_mouse_pressed == old(self).left_mouse_pressed,
            final(self).current_path_id == old(self).current_path_id,
            final(self).last_cursor_position == old(self).last_cursor_position,
            r == DrawingMode::Draw(DrawSettings { permanent }),
    {
        self.enabled = true;
        self.permanent = permanent;
        self.cursor_set_times = 0;
        self.previous_controllers_enabled = controllers_enabled;
        DrawingMode::Draw(DrawSettings { permanent })
    }

    /// Turns local drawing off and returns whether remote control is to be
    /// re-enabled (its state from before drawing started).
    pub fn disable(&mut self) -> (r: bool)
        ensures
            !final(self).enabled,
            !final(self).left_mouse_pressed,
            final(self).last_cursor_position is None,
            final(self).permanent == old(self).permanent,
            final(self).current_path_id == old(self).current_path_id,
            final(self).previous_controllers_enabled == old(self).previous_controllers_enabled,
            final(self).cursor_set_times == old(self).cursor_set_times,
            r == old(self).previous_controllers_enabled,
    {
        self.enabled = false;
        self.left_mouse_pressed = false;
        self.last_cursor_position = None;
        self.previous_controllers_enabled
    }

    /// Handles a press or release of the left button while the overlay can
    /// draw (`can_draw`): a press starts a stroke at the last cursor position,
    /// a release ends it there.
    pub fn on_left_button(&mut self, pressed: bool, can_draw: bool) -> (r: Option<DrawAction<P>>)
        requires
            old(self).enabled && pressed && can_draw && old(self).last_cursor_position is Some
                ==> old(self).current_path_id < u64::MAX,
        ensures
            !old(self).enabled ==> *final(self) == *old(self) && r is None,
            old(self).enabled ==> {
                &&& final(self).left_mouse_pressed == pressed
                &&& final(self).enabled == old(self).enabled
                &&& final(self).permanent == old(self).permanent
                &&& final(self).last_cursor_position == old(self).last_cursor_position
                &&& final(self).previous_controllers_enabled
                    == old(self).previous_controllers_enabled
                &&& final(self).cursor_set_times == old(self).cursor_set_times
                &&& match old(self).last_cursor_position {
                    Some(pos) => if can_draw && pressed {
                        &&& final(self).current_path_id == old(self).current_path_id + 1
                        &&& r == Some(
                            DrawAction::Start { point: pos, path_id: final(self).current_path_id },
                        )
                    } else if can_draw {
                        final(self).current_path_id == old(self).current_path_id && r == Some(
                            DrawAction::End(pos),
                        )
                    } else {
                        final(self).current_path_id == old(self).current_path_id && r is None
                    },
                    None => final(self).current_path_id == old(self).current_path_id && r is None,
                }
            },
    {
        if !self.enabled {
            return None;
        }
        self.left_mouse_pressed = pressed;
        match self.last_cursor_position {
            Some(pos) => {
                if !can_draw {
                    None
                } else if pressed {
                    self.current_path_id = self.current_path_id + 1;
                    Some(DrawAction::Start { point: pos, path_id: self.current_path_id })
                } else {
                    Some(DrawAction::End(pos))
                }
            },
            None => None,
        }
    }

    /// A right click clears all local strokes while drawing.
    pub fn on_right_press(&self, can_draw: bool) -> (r: Option<DrawAction<P>>)
        ensures
            r == (if self.enabled && can_draw {
                Some(DrawAction::<P>::ClearAll)
            } else {
                None
            }),
    {
        if self.enabled && can_draw {
            Some(DrawAction::ClearAll)
        } else {
            None
        }
    }

    /// Records the cursor position and, while the left button is held,
    /// continues the stroke to it.
    pub fn on_cursor_moved(&mut self, pos: P, can_draw: bool) -> (r: Option<DrawAction<P>>)
        ensures
            !old(self).enabled ==> *final(self) == *old(self) && r is None,
            old(self).enabled ==> {
                &&& final(self).last_cursor_position == Some(pos)
                &&& final(self).enabled == old(self).enabled
                &&& final(self).permanent == old(self).permanent
                &&& final(self).left_mouse_pressed == old(self).left_mouse_pressed
                &&& final(self).current_path_id == old(self).current_path_id
                &&& final(self).previous_controllers_enabled
                    == old(self).previous_controllers_enabled
                &&& final(self).cursor_set_times == old(self).cursor_set_times
                &&& r == (if old(self).left_mouse_pressed && can_draw {
                    Some(DrawAction::AddPoint(pos))
                } else {
                    None
                })
            },
    {
        if !self.enabled {
            return None;
        }
        self.last_cursor_position = Some(pos);
        if self.left_mouse_pressed && can_draw {
            Some(DrawAction::AddPoint(pos))
        } else {
            None
        }
    }

    /// Escape while drawing asks for drawing to be turned off.
    pub fn on_escape_pressed(&self) -> (r: bool)
        ensures
            r == self.enabled,
    {
        self.enabled
    }

    /// Whether the pencil cursor is to be re-applied on this redraw; counts
    /// the refreshes, which stop after `CURSOR_REFRESH_LIMIT`.
    pub fn take_cursor_refresh(&mut self) -> (r: bool)
        ensures
            r == (old(self).enabled && old(self).cursor_set_times < CURSOR_REFRESH_LIMIT),
            r ==> final(self).cursor_set_times == old(self).cursor_set_times + 1,
            !r ==> final(self).cursor_set_times == old(self).cursor_set_times,
            final(self).enabled == old(self).enabled,
            final(self).permanent == old(self).permanent,
            final(self).left_mouse_pressed == old(self).left_mouse_pressed,
            final(self).current_path_id == old(self).current_path_id,
            final(self).last_cursor_position == old(self).last_cursor_position,
            final(self).previous_controllers_enabled == old(self).previous_controllers_enabled,
    {
        if self.enabled && self.cursor_set_times < CURSOR_REFRESH_LIMIT {
            self.cursor_set_times = self.cursor_set_times + 1;
            true
        } else {
            false
        }
    }
}

/// Stroke state of the drawing window.
#[derive(Debug)]
pub struct StrokeTracker<P> {
    pub left_mouse_pressed: bool,
    pub current_path_id: u64,
    pub last_cursor_position: Option<P>,
    pub draw_persist: bool,
}

impl<P: Copy> StrokeTracker<P> {
    pub fn new() -> (r: Self)
        ensures
            !r.left_mouse_pressed,
            r.current_path_id == 0,
            r.last_cursor_position is None,
            !r.draw_persist,
    {
        StrokeTracker {
            left_mouse_pressed: false,
            current_path_id: 0,
            last_cursor_position: None,
            draw_persist: false,
        }
    }

    /// Records the cursor position; continues the stroke while the button is held.
    pub fn cursor_moved(&mut self, pos: P) -> (r: Option<DrawAction<P>>)
        ensures
            final(self).last_cursor_position == Some(pos),
            final(self).left_mouse_pressed == old(self).left_mouse_pressed,
            final(self).current_path_id == old(self).current_path_id,
            final(self).draw_persist == old(self).draw_persist,
            r == (if old(self).left_mouse_pressed {
                Some(DrawAction::AddPoint(pos))
            } else {
                None
            }),
    {
        self.last_cursor_position = Some(pos);
        if self.left_mouse_pressed {
            Some(DrawAction::AddPoint(pos))
        } else {
            None
        }
    }

    /// The pointer left the window or the window lost focus: a stroke in
    /// progress ends at the last known position.
    pub fn pointer_left(&mut self) -> (r: Option<DrawAction<P>>)
        ensures
            !final(self).left_mouse_pressed,
            final(self).last_cursor_position == old(self).last_cursor_position,
            final(self).current_path_id == old(self).current_path_id,
            final(self).draw_persist == old(self).draw_persist,
            r == (if old(self).left_mouse_pressed {
                match old(self).last_cursor_position {
                    Some(p) => Some(DrawAction::End(p)),
                    None => None,
                }
            } else {
                None
            }),
    {
        if self.left_mouse_pressed {
            self.left_mouse_pressed = false;
            match self.last_cursor_position {
                Some(p) => Some(DrawAction::End(p)),
                None => None,
            }
        } else {
            None
        }
    }

    /// A press of the left button starts a stroke at `pos` with a new path
    /// id; a release ends it at `pos`.
    pub fn left_button(&mut self, pressed: bool, pos: P) -> (r: DrawAction<P>)
        requires
            pressed ==> old(self).current_path_id < u64::MAX,
        ensures
            final(self).left_mouse_pressed == pressed,
            final(self).last_cursor_position == old(self).last_cursor_position,
            final(self).draw_persist == old(self).draw_persist,
            pressed ==> final(self).current_path_id == old(self).current_path_id + 1 && r == (
            DrawAction::Start { point: pos, path_id: final(self).current_path_id }),
            !pressed ==> final(self).current_path_id == old(self).current_path_id && r
                == DrawAction::End(pos),
    {
        self.left_mouse_pressed = pressed;
        if pressed {
            self.current_path_id = self.current_path_id + 1;
            DrawAction::Start { point: pos, path_id: self.current_path_id }
        } else {
            DrawAction::End(pos)
        }
    }

    /// A right click clears all strokes when strokes are permanent.
    pub fn right_button(&self, pressed: bool) -> (r: Option<DrawAction<P>>)
        ensures
            r == (if pressed && self.draw_persist {
                Some(DrawAction::<P>::ClearAll)
            } else {
                None
            }),
    {
        if pressed && self.draw_persist {
            Some(DrawAction::ClearAll)
        } else {
            None
        }
    }

    pub fn set_draw_persist(&mut self, permanent: bool)
        ensures
            final(self).draw_persist == permanent,
            final(self).left_mouse_pressed == old(self).left_mouse_pressed,
            final(self).current_path_id == old(self).current_path_id,
            final(self).last_cursor_position == old(self).last_cursor_position,
    {
        self.draw_persist = permanent;
    }
}

} // verus!
