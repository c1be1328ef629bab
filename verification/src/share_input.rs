//! Pointer and keyboard decisions of the window that shows a remote screen
//! share: which input is forwarded to the sharer, how strokes are drawn, and
//! which cursor is shown. Positions are passed through unchanged.

use crate::drawing::DrawAction;
use crate::room_service::{DrawSettings, DrawingMode};
use crate::text::{chars_of, is_whitespace, spec_is_whitespace, string_from_chars};
use vstd::prelude::*;
use vstd::string::StringExecFns;

verus! {

/// The segmented control tabs of the screen share window.
#[derive(Debug, Clone, Copy, PartialEq, Eq, Structural)]
pub enum ScreenShareTab {
    Control,
    Draw,
    Point,
}

/// The cursor shown over the screen share window.
#[derive(Debug, Clone, Copy, PartialEq, Eq, Structural)]
pub enum CursorKind {
    /// The operating system's default arrow.
    Default,
    Pencil,
    ClickPointer,
    /// The local participant's hand cursor.
    Hand,
}

/// A mouse button as reported by the window system.
#[derive(Debug, Clone, Copy, PartialEq, Eq, Structural)]
pub enum PointerButton {
    Left,
    Right,
    Middle,
    Back,
    Forward,
    Other(u16),
}

/// Input to forward to the room.
#[derive(Debug, Clone, Copy, PartialEq, Eq)]
pub enum ShareInput<P> {
    CursorMoved(P),
    Draw(DrawAction<P>),
    ClickAnimation(P),
    MouseClick { point: P, button: u32, clicks: u32, down: bool },
}

/// What a key press with the copy/paste modifier held means.
#[derive(Debug, Clone, Copy, PartialEq, Eq, Structural)]
pub enum KeyAction {
    Copy,
    Cut,
    Paste,
    /// Forward the key as a keystroke.
    Keystroke,
}

/// Button numbers in the Web `MouseEvent.button` convention, which the
/// receiving side uses: 0 left, 1 middle, 2 right, 3 back, 4 forward.
pub open spec fn spec_button_number(button: PointerButton) -> u32 {
    match button {
        PointerButton::Left => 0,
        PointerButton::Middle => 1,
        PointerButton::Right => 2,
        PointerButton::Back => 3,
        PointerButton::Forward => 4,
        PointerButton::Other(n) => n as u32,
    }
}

pub fn button_number(button: PointerButton) -> (r: u32)
    ensures
        r == spec_button_number(button),
{
    match button {
        PointerButton::Left => 0,
        PointerButton::Middle => 1,
        PointerButton::Right => 2,
        PointerButton::Back => 3,
        PointerButton::Forward => 4,
        PointerButton::Other(n) => n as u32,
    }
}

/// The drawing mode a tab stands for.
pub open spec fn spec_tab_mode(tab: ScreenShareTab, draw_persist: bool) -> DrawingMode {
    match tab {
        ScreenShareTab::Draw => DrawingMode::Draw(DrawSettings { permanent: draw_persist }),
        ScreenShareTab::Point => DrawingMode::ClickAnimation,
        ScreenShareTab::Control => DrawingMode::Disabled,
    }
}

/// A mode change to Disabled or ClickAnimation clears the local strokes.
pub open spec fn spec_clears_paths(mode: DrawingMode) -> bool {
    mode == DrawingMode::Disabled || mode == DrawingMode::ClickAnimation
}

/// Whether a drawing mode change clears the local strokes.
pub fn clears_paths(mode: DrawingMode) -> (r: bool)
    ensures
        r == spec_clears_paths(mode),
{
    match mode {
        DrawingMode::Disabled => true,
        DrawingMode::ClickAnimation => true,
        DrawingMode::Draw(_) => false,
    }
}

/// What a key means while the copy/paste modifier (Cmd on macOS, Ctrl
/// elsewhere) is held and the key is pressed: `c` copies, `x` cuts, `v`
/// pastes; anything else is a plain keystroke.
pub open spec fn spec_key_action(modifier_pressed: bool, key: Seq<char>) -> KeyAction {
    if modifier_pressed && key == "c"@ {
        KeyAction::Copy
    } else if modifier_pressed && key == "x"@ {
        KeyAction::Cut
    } else if modifier_pressed && key == "v"@ {
        KeyAction::Paste
    } else {
        KeyAction::Keystroke
    }
}

/// What a key means; `modifier_pressed` is "the copy/paste modifier is held
/// and the key is going down".
pub fn key_action(modifier_pressed: bool, key: &str) -> (r: KeyAction)
    ensures
        r == spec_key_action(modifier_pressed, key@),
{
    proof {
        reveal_strlit("c");
        reveal_strlit("x");
        reveal_strlit("v");
    }
    if !modifier_pressed {
        return KeyAction::Keystroke;
    }
    let chars = chars_of(key);
    if chars.len() != 1 {
        assert(chars@ != "c"@ && chars@ != "x"@ && chars@ != "v"@);
        return KeyAction::Keystroke;
    }
    let c = chars[0];
    if c == 'c' {
        assert(chars@ =~= "c"@);
        KeyAction::Copy
    } else if c == 'x' {
        assert(chars@ =~= "x"@);
        KeyAction::Cut
    } else if c == 'v' {
        assert(chars@ =~= "v"@);
        KeyAction::Paste
    } else {
        assert(chars@ != "c"@ && chars@ != "x"@ && chars@ != "v"@);
        KeyAction::Keystroke
    }
}

/// Whether a press continues the previous click sequence (see
/// `spec_click_count`).
pub open spec fn click_continues(
    last_count: u32,
    last_button: u32,
    button: u32,
    close_in_time_and_space: bool,
    cap_at_three: bool,
) -> bool {
    !(last_count == 0 || !close_in_time_and_space || last_button != button || (cap_at_three
        && last_count >= 3))
}

/// Multi-click counting as Chromium does it: a press continues the previous
/// click sequence when it comes soon enough and near enough
/// (`close_in_time_and_space`, measured by the caller), with the same button;
/// where `cap_at_three`, a fourth click starts over.
pub open spec fn spec_click_count(
    last_count: u32,
    last_button: u32,
    button: u32,
    close_in_time_and_space: bool,
    cap_at_three: bool,
) -> u32 {
    if last_count == 0 || !close_in_time_and_space || last_button != button || (cap_at_three
        && last_count >= 3) {
        1
    } else {
        (last_count + 1) as u32
    }
}

pub fn click_count(
    last_count: u32,
    last_button: u32,
    button: u32,
    close_in_time_and_space: bool,
    cap_at_three: bool,
) -> (r: u32)
    requires
        click_continues(last_count, last_button, button, close_in_time_and_space, cap_at_three)
            ==> last_count < u32::MAX,
    ensures
        r == spec_click_count(last_count, last_button, button, close_in_time_and_space, cap_at_three),
        r >= 1,
{
    if last_count == 0 {
        return 1;
    }
    if !close_in_time_and_space {
        return 1;
    }
    if last_button != button {
        return 1;
    }
    if cap_at_three && last_count >= 3 {
        return 1;
    }
    last_count + 1
}

/// The cursor for the pointer position, tab and control ownership.
pub open spec fn spec_cursor_for(in_area: bool, tab: ScreenShareTab, in_control: bool) -> CursorKind {
    if !in_area {
        CursorKind::Default
    } else if tab == ScreenShareTab::Draw {
        CursorKind::Pencil
    } else if tab == ScreenShareTab::Point {
        CursorKind::ClickPointer
    } else if in_control {
        CursorKind::Default
    } else {
        CursorKind::Hand
    }
}

/// The first whitespace-separated word of a name, if any.
pub open spec fn first_word(name: Seq<char>) -> Option<Seq<char>>
    decreases name.len(),
{
    if name.len() == 0 {
        None
    } else if spec_is_whitespace(name[0]) {
        first_word(name.drop_first())
    } else {
        Some(word_prefix(name))
    }
}

/// The characters of `s` up to the first whitespace.
pub open spec fn word_prefix(s: Seq<char>) -> Seq<char>
    decreases s.len(),
{
    if s.len() == 0 || spec_is_whitespace(s[0]) {
        Seq::empty()
    } else {
        seq![s[0]] + word_prefix(s.drop_first())
    }
}

/// A participant listed for the screen share header: SID, name, and whether
/// it is sharing its screen.
#[derive(Debug)]
pub struct SharerCandidate {
    pub sid: String,
    pub name: String,
    pub is_screensharing: bool,
}

/// Index of the first sharing candidate, or -1.
pub open spec fn first_sharer(c: Seq<SharerCandidate>) -> int
    decreases c.len(),
{
    if c.len() == 0 {
        -1
    } else if c[0].is_screensharing {
        0
    } else {
        let k = first_sharer(c.drop_first());
        if k < 0 {
            -1
        } else {
            k + 1
        }
    }
}

/// The name shown for the sharer: the first word of the first sharing
/// participant's name, or "Screen".
pub open spec fn spec_sharer_name(c: Seq<SharerCandidate>) -> Seq<char> {
    let k = first_sharer(c);
    if k < 0 {
        "Screen"@
    } else {
        match first_word(c[k].name@) {
            Some(w) => w,
            None => "Screen"@,
        }
    }
}

proof fn lemma_first_sharer(c: Seq<SharerCandidate>)
    ensures
        -1 <= first_sharer(c) < c.len(),
        first_sharer(c) >= 0 ==> c[first_sharer(c)].is_screensharing && forall|j: int|
            0 <= j < first_sharer(c) ==> !c[j].is_screensharing,
        first_sharer(c) == -1 ==> forall|j: int| 0 <= j < c.len() ==> !c[j].is_screensharing,
    decreases c.len(),
{
    if c.len() > 0 && !c[0].is_screensharing {
        lemma_first_sharer(c.drop_first());
        assert forall|j: int| 0 < j < c.len() implies c[j] == c.drop_first()[j - 1] by {}
    }
}

proof fn lemma_first_word_skip(s: Seq<char>, i: int)
    requires
        0 <= i <= s.len(),
        forall|k: int| 0 <= k < i ==> spec_is_whitespace(s[k]),
    ensures
        first_word(s) == first_word(s.subrange(i, s.len() as int)),
    decreases i,
{
    if i > 0 {
        assert(s.drop_first().subrange(i - 1, s.drop_first().len() as int) =~= s.subrange(
            i,
            s.len() as int,
        ));
        lemma_first_word_skip(s.drop_first(), i - 1);
    } else {
        assert(s.subrange(0, s.len() as int) =~= s);
    }
}

proof fn lemma_word_prefix(s: Seq<char>, i: int)
    requires
        0 <= i <= s.len(),
        forall|k: int| 0 <= k < i ==> !spec_is_whitespace(s[k]),
        i == s.len() || spec_is_whitespace(s[i]),
    ensures
        word_prefix(s) == s.subrange(0, i),
    decreases i,
{
    if i > 0 {
        lemma_word_prefix(s.drop_first(), i - 1);
        assert(seq![s[0]] + s.drop_first().subrange(0, i - 1) =~= s.subrange(0, i));
    } else {
        assert(s.subrange(0, 0) =~= Seq::<char>::empty());
    }
}

/// The first whitespace-separated word of `name`.
pub fn first_word_of(name: &str) -> (r: Option<String>)
    ensures
        match r {
            Some(w) => first_word(name@) == Some(w@),
            None => first_word(name@) is None,
        },
{
    let chars = chars_of(name);
    let n = chars.len();
    let mut i: usize = 0;
    while i < n && is_whitespace(chars[i])
        invariant
            n == chars@.len(),
            i <= n,
            forall|k: int| 0 <= k < i ==> spec_is_whitespace(chars@[k]),
        decreases n - i,
    {
        i += 1;
    }
    proof {
        lemma_first_word_skip(chars@, i as int);
    }
    if i == n {
        assert(chars@.subrange(i as int, n as int) =~= Seq::<char>::empty());
        return None;
    }
    let start = i;
    let mut word: Vec<char> = Vec::new();
    while i < n && !is_whitespace(chars[i])
        invariant
            n == chars@.len(),
            start <= i <= n,
            word@ == chars@.subrange(start as int, i as int),
            forall|k: int| start <= k < i ==> !spec_is_whitespace(chars@[k]),
        decreases n - i,
    {
        word.push(chars[i]);
        i += 1;
        assert(word@ =~= chars@.subrange(start as int, i as int));
    }
    proof {
        let rest = chars@.subrange(start as int, n as int);
        assert forall|k: int| 0 <= k < i - start implies !spec_is_whitespace(rest[k]) by {
            assert(rest[k] == chars@[start + k]);
        }
        lemma_word_prefix(rest, i - start);
        assert(rest.subrange(0, i - start) =~= word@);
        assert(!spec_is_whitespace(rest[0]));
    }
    Some(string_from_chars(word.as_slice()))
}

/// The name shown for the sharer in the screen share window header.
pub fn sharer_display_name(candidates: &[SharerCandidate]) -> (r: String)
    ensures
        r@ == spec_sharer_name(candidates@),
{
    proof {
        lemma_first_sharer(candidates@);
        reveal_strlit("Screen");
    }
    let mut i: usize = 0;
    while i < candidates.len()
        invariant
            i <= candidates@.len(),
            forall|j: int| 0 <= j < i ==> !candidates@[j].is_screensharing,
            -1 <= first_sharer(candidates@) < candidates@.len(),
            first_sharer(candidates@) >= 0 ==> candidates@[first_sharer(
                candidates@,
            )].is_screensharing && forall|j: int|
                0 <= j < first_sharer(candidates@) ==> !candidates@[j].is_screensharing,
            first_sharer(candidates@) == -1 ==> forall|j: int|
                0 <= j < candidates@.len() ==> !candidates@[j].is_screensharing,
        decreases candidates@.len() - i,
    {
        if candidates[i].is_screensharing {
            assert(first_sharer(candidates@) == i);
            return match first_word_of(candidates[i].name.as_str()) {
                Some(w) => w,
                None => String::from_str("Screen"),
            };
        }
        i += 1;
    }
    String::from_str("Screen")
}

/// Pointer state of the screen share window.
#[derive(Debug)]
pub struct SharePointer<P> {
    pub tab: ScreenShareTab,
    /// Whether the pointer is over the shared screen image.
    pub in_area: bool,
    pub left_mouse_pressed: bool,
    pub current_path_id: u64,
    /// Last pointer position over the shared screen, while it is there.
    pub last_draw_cursor: Option<P>,
    pub draw_persist: bool,
    pub remote_control_allowed: bool,
    pub local_in_control: bool,
    pub last_click_count: u32,
    pub last_click_button: u32,
}

impl<P: Copy> SharePointer<P> {
    /// The state of a freshly opened window: control tab, remote control allowed.
    pub fn new() -> (r: Self)
        ensures
            r.tab == ScreenShareTab::Control,
            !r.in_area && !r.left_mouse_pressed && !r.draw_persist && !r.local_in_control,
            r.remote_control_allowed,
            r.current_path_id == 0,
            r.last_draw_cursor is None,
            r.last_click_count == 0 && r.last_click_button == 0,
    {
        SharePointer {
            tab: ScreenShareTab::Control,
            in_area: false,
            left_mouse_pressed: false,
            current_path_id: 0,
            last_draw_cursor: None,
            draw_persist: false,
            remote_control_allowed: true,
            local_in_control: false,
            last_click_count: 0,
            last_click_button: 0,
        }
    }

    /// The cursor to show.
    pub fn cursor(&self) -> (r: CursorKind)
        ensures
            r == spec_cursor_for(self.in_area, self.tab, self.local_in_control),
    {
        if !self.in_area {
            CursorKind::Default
        } else if self.tab == ScreenShareTab::Draw {
            CursorKind::Pencil
        } else if self.tab == ScreenShareTab::Point {
            CursorKind::ClickPointer
        } else if self.local_in_control {
            CursorKind::Default
        } else {
            CursorKind::Hand
        }
    }

    /// The drawing mode of the current tab.
    pub fn drawing_mode(&self) -> (r: DrawingMode)
        ensures
            r == spec_tab_mode(self.tab, self.draw_persist),
    {
        match self.tab {
            ScreenShareTab::Draw => DrawingMode::Draw(DrawSettings { permanent: self.draw_persist }),
            ScreenShareTab::Point => DrawingMode::ClickAnimation,
            ScreenShareTab::Control => DrawingMode::Disabled,
        }
    }

    /// Ends a stroke in progress at the last position over the shared screen
    /// and forgets that position.
    fn end_stroke_on_leave(&mut self) -> (r: Option<ShareInput<P>>)
        ensures
            final(self).last_draw_cursor is None,
            final(self).left_mouse_pressed == (old(self).left_mouse_pressed && old(self).tab
                != ScreenShareTab::Draw),
            r == (if old(self).tab == ScreenShareTab::Draw && old(self).left_mouse_pressed {
                match old(self).last_draw_cursor {
                    Some(p) => Some(ShareInput::Draw(DrawAction::End(p))),
                    None => None,
                }
            } else {
                None
            }),
            final(self).tab == old(self).tab,
            final(self).in_area == old(self).in_area,
            final(self).current_path_id == old(self).current_path_id,
            final(self).draw_persist == old(self).draw_persist,
            final(self).remote_control_allowed == old(self).remote_control_allowed,
            final(self).local_in_control == old(self).local_in_control,
            final(self).last_click_count == old(self).last_click_count,
            final(self).last_click_button == old(self).last_click_button,
    {
        let mut out = None;
        if self.tab == ScreenShareTab::Draw && self.left_mouse_pressed {
            out = match self.last_draw_cursor {
                Some(p) => Some(ShareInput::Draw(DrawAction::End(p))),
                None => None,
            };
            self.left_mouse_pressed = false;
        }
        self.last_draw_cursor = None;
        out
    }

    /// The pointer moved; `inside` tells whether it is over the shared screen
    /// (and no dropdown is open), `pos` is its position there.
    pub fn cursor_moved(&mut self, inside: bool, pos: P) -> (r: Option<ShareInput<P>>)
        ensures
            final(self).in_area == inside,
            inside ==> {
                &&& final(self).last_draw_cursor == Some(pos)
                &&& final(self).left_mouse_pressed == old(self).left_mouse_pressed
                &&& r == (if old(self).tab == ScreenShareTab::Draw && old(self).left_mouse_pressed {
                    Some(ShareInput::Draw(DrawAction::AddPoint(pos)))
                } else {
                    Some(ShareInput::CursorMoved(pos))
                })
            },
            !inside && old(self).in_area ==> {
                &&& final(self).last_draw_cursor is None
                &&& final(self).left_mouse_pressed == (old(self).left_mouse_pressed && old(self).tab != ScreenShareTab::Draw)
                &&& r == (if old(self).tab == ScreenShareTab::Draw && old(self).left_mouse_pressed {
                    match old(self).last_draw_cursor {
                        Some(p) => Some(ShareInput::Draw(DrawAction::End(p))),
                        None => None,
                    }
                } else {
                    None
                })
            },
            !inside && !old(self).in_area ==> r is None && final(self).last_draw_cursor == old(self).last_draw_cursor && final(self).left_mouse_pressed == old(self).left_mouse_pressed,
            final(self).tab == old(self).tab,
            final(self).current_path_id == old(self).current_path_id,
            final(self).draw_persist == old(self).draw_persist,
            final(self).remote_control_allowed == old(self).remote_control_allowed,
            final(self).local_in_control == old(self).local_in_control,
            final(self).last_click_count == old(self).last_click_count,
            final(self).last_click_button == old(self).last_click_button,
    {
        let was_inside = self.in_area;
        self.in_area = inside;
        if inside {
            self.last_draw_cursor = Some(pos);
            if self.tab == ScreenShareTab::Draw && self.left_mouse_pressed {
                Some(ShareInput::Draw(DrawAction::AddPoint(pos)))
            } else {
                Some(ShareInput::CursorMoved(pos))
            }
        } else if was_inside {
            self.end_stroke_on_leave()
        } else {
            None
        }
    }

    /// The pointer left the window, or the window lost focus.
    pub fn pointer_left(&mut self) -> (r: Option<ShareInput<P>>)
        ensures
            !final(self).in_area,
            old(self).in_area ==> {
                &&& final(self).last_draw_cursor is None
                &&& final(self).left_mouse_pressed == (old(self).left_mouse_pressed && old(self).tab != ScreenShareTab::Draw)
                &&& r == (if old(self).tab == ScreenShareTab::Draw && old(self).left_mouse_pressed {
                    match old(self).last_draw_cursor {
                        Some(p) => Some(ShareInput::Draw(DrawAction::End(p))),
                        None => None,
                    }
                } else {
                    None
                })
            },
            !old(self).in_area ==> r is None && *final(self) == *old(self),
            final(self).tab == old(self).tab,
            final(self).current_path_id == old(self).current_path_id,
            final(self).draw_persist == old(self).draw_persist,
            final(self).remote_control_allowed == old(self).remote_control_allowed,
            final(self).local_in_control == old(self).local_in_control,
            final(self).last_click_count == old(self).last_click_count,
            final(self).last_click_button == old(self).last_click_button,
    {
        if !self.in_area {
            return None;
        }
        let r = self.end_stroke_on_leave();
        self.in_area = false;
        r
    }

    /// A mouse button changed state over the window at `pos`.
    /// `close_in_time_and_space` is whether this press is within the double
    /// click time and distance of the previous one; `cap_at_three` whether
    /// click sequences restart after three clicks on this platform.
    pub fn mouse_button(
        &mut self,
        button: PointerButton,
        pressed: bool,
        pos: P,
        close_in_time_and_space: bool,
        cap_at_three: bool,
    ) -> (r: Option<ShareInput<P>>)
        requires
            old(self).in_area && old(self).tab == ScreenShareTab::Draw && button
                == PointerButton::Left && pressed ==> old(self).current_path_id < u64::MAX,
            old(self).in_area && old(self).tab == ScreenShareTab::Control
                && old(self).remote_control_allowed && pressed && click_continues(
                old(self).last_click_count,
                old(self).last_click_button,
                spec_button_number(button),
                close_in_time_and_space,
                cap_at_three,
            ) ==> old(self).last_click_count < u32::MAX,
        ensures
            !old(self).in_area ==> r is None && *final(self) == *old(self),
            old(self).in_area && old(self).tab == ScreenShareTab::Draw ==> match button {
                PointerButton::Left => if pressed {
                    &&& final(self).current_path_id == old(self).current_path_id + 1
                    &&& final(self).left_mouse_pressed
                    &&& r == Some(
                        ShareInput::Draw(
                            DrawAction::Start { point: pos, path_id: final(self).current_path_id },
                        ),
                    )
                } else {
                    &&& final(self).current_path_id == old(self).current_path_id
                    &&& !final(self).left_mouse_pressed
                    &&& r == Some(ShareInput::Draw(DrawAction::End(pos)))
                },
                PointerButton::Right => *final(self) == *old(self) && r == (if pressed && old(self).draw_persist {
                    Some(ShareInput::Draw(DrawAction::<P>::ClearAll))
                } else {
                    None
                }),
                _ => *final(self) == *old(self) && r is None,
            },
            old(self).in_area && old(self).tab == ScreenShareTab::Point ==> *final(self) == *old(self) && r == (if button == PointerButton::Left && pressed {
                Some(ShareInput::ClickAnimation(pos))
            } else {
                None
            }),
            old(self).in_area && old(self).tab == ScreenShareTab::Control
                && !old(self).remote_control_allowed ==> *final(self) == *old(self) && r is None,
            old(self).in_area && old(self).tab == ScreenShareTab::Control && old(self).remote_control_allowed ==> {
                let n = spec_button_number(button);
                let clicks = if pressed {
                    spec_click_count(
                        old(self).last_click_count,
                        old(self).last_click_button,
                        n,
                        close_in_time_and_space,
                        cap_at_three,
                    )
                } else {
                    old(self).last_click_count
                };
                &&& r == Some(ShareInput::MouseClick { point: pos, button: n, clicks, down: pressed })
                &&& pressed ==> final(self).last_click_count == clicks && final(self).last_click_button == n
                &&& !pressed ==> final(self).last_click_count == old(self).last_click_count
                    && final(self).last_click_button == old(self).last_click_button
                &&& final(self).left_mouse_pressed == old(self).left_mouse_pressed
                &&& final(self).current_path_id == old(self).current_path_id
            },
            final(self).tab == old(self).tab,
            final(self).in_area == old(self).in_area,
            final(self).last_draw_cursor == old(self).last_draw_cursor,
            final(self).draw_persist == old(self).draw_persist,
            final(self).remote_control_allowed == old(self).remote_control_allowed,
            final(self).local_in_control == old(self).local_in_control,
    {
        if !self.in_area {
            return None;
        }
        match self.tab {
            ScreenShareTab::Draw => match button {
                PointerButton::Left => {
                    if pressed {
                        self.current_path_id = self.current_path_id + 1;
                        self.left_mouse_pressed = true;
                        Some(
                            ShareInput::Draw(
                                DrawAction::Start { point: pos, path_id: self.current_path_id },
                            ),
                        )
                    } else {
                        self.left_mouse_pressed = false;
                        Some(ShareInput::Draw(DrawAction::End(pos)))
                    }
                },
                PointerButton::Right => {
                    if pressed && self.draw_persist {
                        Some(ShareInput::Draw(DrawAction::ClearAll))
                    } else {
                        None
                    }
                },
                _ => None,
            },
            ScreenShareTab::Point => {
                if button == PointerButton::Left && pressed {
                    Some(ShareInput::ClickAnimation(pos))
                } else {
                    None
                }
            },
            ScreenShareTab::Control => {
                if !self.remote_control_allowed {
                    return None;
                }
                let n = button_number(button);
                let clicks = if pressed {
                    let c = click_count(
                        self.last_click_count,
                        self.last_click_button,
                        n,
                        close_in_time_and_space,
                        cap_at_three,
                    );
                    self.last_click_count = c;
                    self.last_click_button = n;
                    c
                } else {
                    self.last_click_count
                };
                Some(ShareInput::MouseClick { point: pos, button: n, clicks, down: pressed })
            },
        }
    }

    /// Wheel and keyboard input is forwarded only over the shared screen, on
    /// the control tab, while the sharer allows remote control.
    pub fn forwards_wheel_and_keys(&self) -> (r: bool)
        ensures
            r == (self.in_area && self.tab == ScreenShareTab::Control
                && self.remote_control_allowed),
    {
        self.in_area && self.tab == ScreenShareTab::Control && self.remote_control_allowed
    }

    /// A tab was selected: the new drawing mode to set and publish, and
    /// whether the local strokes are cleared with it.
    pub fn select_tab(&mut self, tab: ScreenShareTab) -> (r: (DrawingMode, bool))
        ensures
            final(self).tab == tab,
            !final(self).left_mouse_pressed,
            r.0 == spec_tab_mode(tab, old(self).draw_persist),
            r.1 == spec_clears_paths(r.0),
            final(self).in_area == old(self).in_area,
            final(self).current_path_id == old(self).current_path_id,
            final(self).last_draw_cursor == old(self).last_draw_cursor,
            final(self).draw_persist == old(self).draw_persist,
            final(self).remote_control_allowed == old(self).remote_control_allowed,
            final(self).local_in_control == old(self).local_in_control,
            final(self).last_click_count == old(self).last_click_count,
            final(self).last_click_button == old(self).last_click_button,
    {
        self.tab = tab;
        self.left_mouse_pressed = false;
        let mode = self.drawing_mode();
        let clear = clears_paths(mode);
        (mode, clear)
    }

    /// An entry of the draw settings dropdown was chosen: entry 0 makes
    /// strokes fade, entry 1 makes them permanent; the Draw mode with the
    /// chosen setting is published.
    pub fn choose_draw_setting(&mut self, index: usize) -> (r: DrawingMode)
        ensures
            r == DrawingMode::Draw(DrawSettings { permanent: index == 1 }),
            final(self).draw_persist == (if index == 0 {
                false
            } else if index == 1 {
                true
            } else {
                old(self).draw_persist
            }),
            final(self).tab == old(self).tab,
            final(self).in_area == old(self).in_area,
            final(self).left_mouse_pressed == old(self).left_mouse_pressed,
            final(self).current_path_id == old(self).current_path_id,
            final(self).last_draw_cursor == old(self).last_draw_cursor,
            final(self).remote_control_allowed == old(self).remote_control_allowed,
            final(self).local_in_control == old(self).local_in_control,
            final(self).last_click_count == old(self).last_click_count,
            final(self).last_click_button == old(self).last_click_button,
    {
        if index == 0 {
            self.draw_persist = false;
        } else if index == 1 {
            self.draw_persist = true;
        }
        DrawingMode::Draw(DrawSettings { permanent: index == 1 })
    }

    /// A new participant started sharing: stroke, click and control state
    /// start over; the tab and the draw setting stay.
    pub fn reset_for_new_sharer(&mut self)
        ensures
            final(self).current_path_id == 0,
            final(self).remote_control_allowed,
            !final(self).left_mouse_pressed,
            final(self).last_click_count == 0,
            final(self).last_click_button == 0,
            !final(self).local_in_control,
            final(self).tab == old(self).tab,
            final(self).in_area == old(self).in_area,
            final(self).last_draw_cursor == old(self).last_draw_cursor,
            final(self).draw_persist == old(self).draw_persist,
    {
        self.current_path_id = 0;
        self.remote_control_allowed = true;
        self.left_mouse_pressed = false;
        self.last_click_count = 0;
        self.last_click_button = 0;
        self.local_in_control = false;
    }
}

/// Selecting the control or point tab always clears the local strokes;
/// selecting the draw tab never does.
pub proof fn law_tab_mode_clears(tab: ScreenShareTab, draw_persist: bool)
    ensures
        spec_clears_paths(spec_tab_mode(tab, draw_persist)) == (tab != ScreenShareTab::Draw),
{
}

/// The copy/paste shortcuts: without the modifier every key is a plain
/// keystroke; with it, only the single letters `c`, `x` and `v` copy, cut
/// and paste, each its own, and every other key is a keystroke.
pub proof fn law_shortcuts(modifier_pressed: bool, key: Seq<char>)
    ensures
        !modifier_pressed ==> spec_key_action(modifier_pressed, key) == KeyAction::Keystroke,
        spec_key_action(modifier_pressed, key) != KeyAction::Keystroke ==> modifier_pressed && key.len() == 1,
        modifier_pressed && key == seq!['c'] ==> spec_key_action(modifier_pressed, key) == KeyAction::Copy,
        modifier_pressed && key == seq!['x'] ==> spec_key_action(modifier_pressed, key) == KeyAction::Cut,
        modifier_pressed && key == seq!['v'] ==> spec_key_action(modifier_pressed, key) == KeyAction::Paste,
        key.len() == 1 && key[0] != 'c' && key[0] != 'x' && key[0] != 'v' ==> spec_key_action(
            modifier_pressed,
            key,
        ) == KeyAction::Keystroke,
{
    reveal_strlit("c");
    reveal_strlit("x");
    reveal_strlit("v");
    assert("c"@ =~= seq!['c']);
    assert("x"@ =~= seq!['x']);
    assert("v"@ =~= seq!['v']);
    assert(seq!['x'][0] != seq!['c'][0]);
    assert(seq!['v'][0] != seq!['c'][0]);
    assert(seq!['v'][0] != seq!['x'][0]);
}

/// Multi-click counting: a press starts a new sequence at 1 after no click,
/// with another button, or when it comes too late or too far; otherwise it
/// counts one more than the previous press, except that where counts are
/// capped at three a press after a triple click starts over at 1. So quick
/// presses of one button with the cap count 1, 2, 3, 1, 2, 3, ...
pub proof fn law_click_counting(
    last_count: u32,
    last_button: u32,
    button: u32,
    close: bool,
    cap_at_three: bool,
)
    requires
        click_continues(last_count, last_button, button, close, cap_at_three) ==> last_count < u32::MAX,
    ensures
        spec_click_count(last_count, last_button, button, close, cap_at_three) == 1 || spec_click_count(
            last_count,
            last_button,
            button,
            close,
            cap_at_three,
        ) == last_count + 1,
        last_count > 0 && close && last_button == button && !(cap_at_three && last_count >= 3)
            ==> spec_click_count(last_count, last_button, button, close, cap_at_three) == last_count + 1,
        last_count == 0 || !close || last_button != button ==> spec_click_count(
            last_count,
            last_button,
            button,
            close,
            cap_at_three,
        ) == 1,
        cap_at_three && 1 <= last_count <= 2 && close && last_button == button ==> spec_click_count(
            last_count,
            last_button,
            button,
            close,
            cap_at_three,
        ) == last_count + 1,
        cap_at_three && last_count >= 3 ==> spec_click_count(last_count, last_button, button, close, cap_at_three) == 1,
{
}

/// The cursor over the shared screen: outside the shared area always the
/// default arrow; inside it, the pencil on the draw tab, the click pointer
/// on the point tab, and on the control tab the hand unless the local
/// participant is in control, when it is the default arrow.
pub proof fn law_cursor_choice(in_area: bool, tab: ScreenShareTab, in_control: bool)
    ensures
        !in_area ==> spec_cursor_for(in_area, tab, in_control) == CursorKind::Default,
        in_area && tab == ScreenShareTab::Draw ==> spec_cursor_for(in_area, tab, in_control) == CursorKind::Pencil,
        in_area && tab == ScreenShareTab::Point ==> spec_cursor_for(in_area, tab, in_control)
            == CursorKind::ClickPointer,
        in_area && tab == ScreenShareTab::Control ==> spec_cursor_for(in_area, tab, in_control) == (if in_control {
            CursorKind::Default
        } else {
            CursorKind::Hand
        }),
{
}

/// Button numbers follow the Web convention: left 0, middle 1, right 2,
/// back 3, forward 4, and any other button its own number.
pub proof fn law_button_numbers(button: PointerButton)
    ensures
        (spec_button_number(button) == 0) == (button is Left || button == PointerButton::Other(0)),
        (spec_button_number(button) == 1) == (button is Middle || button == PointerButton::Other(1)),
        (spec_button_number(button) == 2) == (button is Right || button == PointerButton::Other(2)),
        button is Back ==> spec_button_number(button) == 3,
        button is Forward ==> spec_button_number(button) == 4,
        button matches PointerButton::Other(n) ==> spec_button_number(button) == n,
{
}

/// The sharer's name: the first word of the first participant that shares
/// its screen, a nonempty run of non-whitespace characters preceded in its
/// name only by whitespace; "Screen" when nobody shares or the name is blank.
pub proof fn law_sharer_name(c: Seq<SharerCandidate>)
    ensures
        (forall|j: int| 0 <= j < c.len() ==> !(#[trigger] c[j]).is_screensharing) ==> spec_sharer_name(c)
            == "Screen"@,
        forall|k: int|
            0 <= k < c.len() && (#[trigger] c[k]).is_screensharing && (forall|j: int|
                0 <= j < k ==> !c[j].is_screensharing) ==> match first_word(c[k].name@) {
                Some(w) => spec_sharer_name(c) == w,
                None => spec_sharer_name(c) == "Screen"@,
            },
{
    lemma_first_sharer(c);
    assert forall|k: int|
        0 <= k < c.len() && (#[trigger] c[k]).is_screensharing && (forall|j: int|
            0 <= j < k ==> !c[j].is_screensharing) implies match first_word(c[k].name@) {
            Some(w) => spec_sharer_name(c) == w,
            None => spec_sharer_name(c) == "Screen"@,
        } by {
        let f = first_sharer(c);
        if f >= 0 && f != k {
            if f < k {
                assert(!c[f].is_screensharing);
            } else {
                assert(!c[k].is_screensharing);
            }
        }
        if f < 0 {
            assert(!c[k].is_screensharing);
        }
    }
}

proof fn lemma_word_prefix_shape(s: Seq<char>)
    ensures
        word_prefix(s).len() <= s.len(),
        word_prefix(s) == s.subrange(0, word_prefix(s).len() as int),
        forall|k: int| 0 <= k < word_prefix(s).len() ==> !spec_is_whitespace(#[trigger] word_prefix(s)[k]),
        word_prefix(s).len() == s.len() || spec_is_whitespace(s[word_prefix(s).len() as int]),
    decreases s.len(),
{
    if s.len() > 0 && !spec_is_whitespace(s[0]) {
        lemma_word_prefix_shape(s.drop_first());
        let t = word_prefix(s.drop_first());
        assert(word_prefix(s) == seq![s[0]] + t);
        assert(seq![s[0]] + s.drop_first().subrange(0, t.len() as int) =~= s.subrange(0, t.len() as int + 1));
        assert forall|k: int| 0 <= k < word_prefix(s).len() implies !spec_is_whitespace(#[trigger] word_prefix(s)[k]) by {
            if k > 0 {
                assert(word_prefix(s)[k] == t[k - 1]);
            }
        }
        if t.len() < s.drop_first().len() {
            assert(s[t.len() as int + 1] == s.drop_first()[t.len() as int]);
        }
    } else {
        assert(s.subrange(0, 0) =~= Seq::<char>::empty());
    }
}

/// The first word of a name is a nonempty run of non-whitespace characters
/// that follows only whitespace and ends at whitespace or at the end of the
/// name; a name of whitespace only has none.
pub proof fn law_first_word(name: Seq<char>)
    ensures
        first_word(name) is None <==> forall|k: int| 0 <= k < name.len() ==> spec_is_whitespace(#[trigger] name[k]),
        first_word(name) matches Some(w) ==> w.len() > 0 && exists|i: int|
            0 <= i && i + w.len() <= name.len() && #[trigger] name.subrange(i, i + w.len()) == w && (forall|k: int|
                0 <= k < i ==> spec_is_whitespace(#[trigger] name[k])) && !spec_is_whitespace(name[i])
                && (forall|k: int| 0 <= k < w.len() ==> !spec_is_whitespace(#[trigger] w[k])) && (i
                + w.len() == name.len() || spec_is_whitespace(name[i + w.len()])),
    decreases name.len(),
{
    if name.len() > 0 {
        law_first_word(name.drop_first());
        if spec_is_whitespace(name[0]) {
            assert forall|k: int| 0 < k < name.len() implies name[k] == name.drop_first()[k - 1] by {}
            assert(first_word(name) == first_word(name.drop_first()));
            if forall|k: int| 0 <= k < name.len() ==> spec_is_whitespace(#[trigger] name[k]) {
                assert forall|k: int| 0 <= k < name.drop_first().len() implies spec_is_whitespace(
                    #[trigger] name.drop_first()[k],
                ) by {
                    assert(name.drop_first()[k] == name[k + 1]);
                }
            }
            if first_word(name) is None {
                assert forall|k: int| 0 <= k < name.len() implies spec_is_whitespace(#[trigger] name[k]) by {
                    if k > 0 {
                        assert(name[k] == name.drop_first()[k - 1]);
                    }
                }
            }
            if let Some(w) = first_word(name) {
                let i = choose|i: int|
                    0 <= i && i + w.len() <= name.drop_first().len() && #[trigger] name.drop_first().subrange(i, i + w.len()) == w
                        && (forall|k: int| 0 <= k < i ==> spec_is_whitespace(#[trigger] name.drop_first()[k]))
                        && !spec_is_whitespace(name.drop_first()[i]) && (forall|k: int|
                        0 <= k < w.len() ==> !spec_is_whitespace(#[trigger] w[k])) && (i + w.len()
                        == name.drop_first().len() || spec_is_whitespace(name.drop_first()[i + w.len()]));
                assert(name.subrange(i + 1, i + 1 + w.len()) =~= name.drop_first().subrange(i, i + w.len()));
                assert(name[i + 1] == name.drop_first()[i]);
                if i + w.len() < name.drop_first().len() {
                    assert(name[i + 1 + w.len()] == name.drop_first()[i + w.len()]);
                }
                assert forall|k: int| 0 <= k < i + 1 implies spec_is_whitespace(#[trigger] name[k]) by {
                    if k > 0 {
                        assert(name[k] == name.drop_first()[k - 1]);
                    }
                }
            }
        } else {
            lemma_word_prefix_shape(name);
            let w = word_prefix(name);
            assert(w == seq![name[0]] + word_prefix(name.drop_first()));
            assert(w.len() > 0);
            assert(name.subrange(0, w.len() as int) == w);
            assert(first_word(name) == Some(w));
            assert(w.len() == name.len() || spec_is_whitespace(name[0int + w.len()]));
            assert(forall|k: int| 0 <= k < 0 ==> spec_is_whitespace(#[trigger] name[k]));
        }
    }
}

} // verus!
