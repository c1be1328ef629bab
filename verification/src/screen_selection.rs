//! State of the share picker: which tab (screens or windows) is shown and
//! which source is selected.

use vstd::prelude::*;
use vstd::string::StringExecFns;

verus! {

#[derive(Debug, Clone, Copy, PartialEq, Eq, Structural)]
pub enum ScreenSelectionTab {
    Screens,
    Windows,
}

/// A display or window that can be shared.
#[derive(Debug)]
pub struct ShareableSource {
    /// Identifier of the monitor this source belongs to.
    pub monitor_content_id: u64,
    pub title: String,
    /// Owning application, for windows.
    pub app_name: Option<String>,
}

/// Windows found on the system, or why none could be listed.
#[derive(Debug)]
pub struct ListedWindows {
    pub windows: Vec<ShareableSource>,
    pub error: Option<String>,
}

/// One row/tile in the share picker, in the order of the current sources.
#[derive(Debug)]
pub struct ScreenSelectionItemUi {
    pub title: String,
    pub subtitle: Option<String>,
}

/// Snapshot passed to the overlay renderer for the share picker.
#[derive(Debug)]
pub struct ScreenSelectionUi {
    pub tab: ScreenSelectionTab,
    pub windows_supported: bool,
    pub items: Vec<ScreenSelectionItemUi>,
    pub selected_index: usize,
    /// Shown on the Windows tab when the list is empty (e.g. missing permission).
    pub windows_hint: Option<String>,
}

/// Subtitle shown under every display in the picker.
pub open spec fn screen_subtitle() -> Seq<char> {
    "Entire screen"@
}

/// Hint shown when the platform cannot share single windows.
pub open spec fn windows_unsupported_hint() -> Seq<char> {
    "Window sharing is not available on this platform."@
}

#[derive(Debug)]
pub struct ScreenSelectionState {
    pub tab: ScreenSelectionTab,
    pub displays: Vec<ShareableSource>,
    pub windows: Vec<ShareableSource>,
    pub selected_index: usize,
    pub windows_supported: bool,
    pub windows_hint: Option<String>,
}

/// The selection after moving `delta` steps from `index` in a list of `len`
/// entries, wrapping around at both ends.
pub open spec fn moved_index(index: int, delta: int, len: int) -> int {
    if len == 0 {
        0
    } else {
        (index + delta) % len
    }
}

/// Index of the first source whose monitor is `id`.
pub open spec fn first_display_for(displays: Seq<ShareableSource>, id: u64) -> int
    recommends
        exists|i: int| 0 <= i < displays.len() && displays[i].monitor_content_id == id,
{
    choose|i: int|
        0 <= i < displays.len() && displays[i].monitor_content_id == id && forall|j: int|
            0 <= j < i ==> displays[j].monitor_content_id != id
}

pub open spec fn has_display_for(displays: Seq<ShareableSource>, id: u64) -> bool {
    exists|i: int| 0 <= i < displays.len() && displays[i].monitor_content_id == id
}

impl ScreenSelectionState {
    /// Sources listed on the current tab.
    pub open spec fn sources(&self) -> Seq<ShareableSource> {
        match self.tab {
            ScreenSelectionTab::Screens => self.displays@,
            ScreenSelectionTab::Windows => self.windows@,
        }
    }

    /// The picker's invariant: the Windows tab is only shown where window
    /// sharing is supported, and the selection is on a listed source or 0.
    pub open spec fn picker_ok(&self) -> bool {
        &&& (self.windows_supported || self.tab == ScreenSelectionTab::Screens)
        &&& (self.selected_index == 0 || self.selected_index < self.sources().len())
    }

    /// Builds the picker state from the displays and, where the platform can
    /// share single windows, the listed windows (`None` where it cannot).
    pub fn new(displays: Vec<ShareableSource>, listed_windows: Option<ListedWindows>) -> (r: Self)
        ensures
            r.picker_ok(),
            r.tab == ScreenSelectionTab::Screens,
            r.displays@ == displays@,
            r.selected_index == 0,
            r.windows_supported == listed_windows.is_some(),
            match listed_windows {
                Some(l) => r.windows@ == l.windows@ && r.windows_hint == l.error,
                None => r.windows@.len() == 0 && r.windows_hint is Some
                    && r.windows_hint->0@ == windows_unsupported_hint(),
            },
    {
        let windows_supported = listed_windows.is_some();
        let (windows, error) = match listed_windows {
            Some(l) => (l.windows, l.error),
            None => {
                let hint = String::from_str("Window sharing is not available on this platform.");
                proof {
                    reveal_strlit("Window sharing is not available on this platform.");
                }
                (Vec::new(), Some(hint))
            },
        };
        ScreenSelectionState {
            tab: ScreenSelectionTab::Screens,
            displays,
            windows,
            selected_index: 0,
            windows_supported,
            windows_hint: error,
        }
    }

    pub fn current_sources(&self) -> (r: &[ShareableSource])
        ensures
            r@ == self.sources(),
    {
        match self.tab {
            ScreenSelectionTab::Screens => self.displays.as_slice(),
            ScreenSelectionTab::Windows => self.windows.as_slice(),
        }
    }

    pub fn selected(&self) -> (r: Option<&ShareableSource>)
        ensures
            self.selected_index < self.sources().len() ==> r == Some(
                &self.sources()[self.selected_index as int],
            ),
            self.selected_index >= self.sources().len() ==> r is None,
    {
        let sources = self.current_sources();
        if self.selected_index < sources.len() {
            Some(&sources[self.selected_index])
        } else {
            None
        }
    }

    /// Moves the selection by `delta` entries, wrapping around the list.
    pub fn move_selection(&mut self, delta: isize)
        requires
            isize::MIN <= (old(self).selected_index as isize) + delta <= isize::MAX,
            old(self).sources().len() <= isize::MAX,
        ensures
            old(self).picker_ok() ==> final(self).picker_ok(),
            final(self).selected_index == moved_index(
                (old(self).selected_index as isize) as int,
                delta as int,
                old(self).sources().len() as int,
            ),
            final(self).tab == old(self).tab,
            final(self).displays == old(self).displays,
            final(self).windows == old(self).windows,
            final(self).windows_supported == old(self).windows_supported,
            final(self).windows_hint == old(self).windows_hint,
    {
        let len = self.current_sources().len();
        if len == 0 {
            self.selected_index = 0;
            return;
        }
        let current = #[verifier::truncate] (self.selected_index as isize);
        let next = current + delta;
        let wrapped = match next.checked_rem_euclid(len as isize) {
            Some(r) => r,
            None => 0,
        };
        proof {
            assert(0 <= wrapped < len);
        }
        self.selected_index = wrapped as usize;
    }

    /// Selects the source at `index` on the current tab, if there is one.
    pub fn select_index(&mut self, index: usize) -> (r: bool)
        ensures
            old(self).picker_ok() ==> final(self).picker_ok(),
            r == (index < old(self).sources().len()),
            r ==> final(self).selected_index == index,
            !r ==> final(self).selected_index == old(self).selected_index,
            final(self).tab == old(self).tab,
            final(self).displays == old(self).displays,
            final(self).windows == old(self).windows,
            final(self).windows_supported == old(self).windows_supported,
            final(self).windows_hint == old(self).windows_hint,
    {
        if index < self.current_sources().len() {
            self.selected_index = index;
            true
        } else {
            false
        }
    }

    /// Selects the display matching `monitor_content_id` when on the Screens tab.
    pub fn select_display_for_monitor(&mut self, monitor_content_id: u64) -> (r: bool)
        ensures
            old(self).picker_ok() ==> final(self).picker_ok(),
            r == (old(self).tab == ScreenSelectionTab::Screens && has_display_for(
                old(self).displays@,
                monitor_content_id,
            )),
            r ==> final(self).selected_index == first_display_for(
                old(self).displays@,
                monitor_content_id,
            ),
            !r ==> final(self).selected_index == old(self).selected_index,
            final(self).tab == old(self).tab,
            final(self).displays == old(self).displays,
            final(self).windows == old(self).windows,
            final(self).windows_supported == old(self).windows_supported,
            final(self).windows_hint == old(self).windows_hint,
    {
        if self.tab != ScreenSelectionTab::Screens {
            return false;
        }
        let mut i: usize = 0;
        while i < self.displays.len()
            invariant
                *self == *old(self),
                self.tab == ScreenSelectionTab::Screens,
                i <= self.displays.len(),
                forall|j: int| 0 <= j < i ==> self.displays@[j].monitor_content_id != monitor_content_id,
            decreases self.displays.len() - i,
        {
            if self.displays[i].monitor_content_id == monitor_content_id {
                proof {
                    let ii = i as int;
                    assert(self.displays@[ii].monitor_content_id == monitor_content_id);
                    assert(0 <= ii < self.displays@.len() && self.displays@[ii].monitor_content_id
                        == monitor_content_id && forall|j: int|
                        0 <= j < ii ==> self.displays@[j].monitor_content_id != monitor_content_id);
                    let k = first_display_for(self.displays@, monitor_content_id);
                    assert(0 <= k < self.displays@.len() && self.displays@[k].monitor_content_id
                        == monitor_content_id);
                    if k < ii {
                    } else if k > ii {
                        assert(self.displays@[ii].monitor_content_id != monitor_content_id);
                    }
                }
                self.selected_index = i;
                return true;
            }
            i += 1;
        }
        false
    }

    /// Switches to `tab`; the Windows tab is refused where window sharing is
    /// not supported. Switching to another tab resets the selection.
    pub fn set_tab(&mut self, tab: ScreenSelectionTab)
        ensures
            old(self).picker_ok() ==> final(self).picker_ok(),
            (tab == ScreenSelectionTab::Windows && !old(self).windows_supported) ==> *final(self)
                == *old(self),
            !(tab == ScreenSelectionTab::Windows && !old(self).windows_supported) ==> {
                &&& final(self).tab == tab
                &&& final(self).selected_index == (if old(self).tab == tab {
                    old(self).selected_index
                } else {
                    0
                })
                &&& final(self).displays == old(self).displays
                &&& final(self).windows == old(self).windows
                &&& final(self).windows_supported == old(self).windows_supported
                &&& final(self).windows_hint == old(self).windows_hint
            },
    {
        if tab == ScreenSelectionTab::Windows && !self.windows_supported {
            return ;
        }
        if self.tab != tab {
            self.tab = tab;
            self.selected_index = 0;
        }
    }

    /// Switches between the two tabs where window sharing is supported.
    pub fn toggle_tab(&mut self)
        ensures
            old(self).picker_ok() ==> final(self).picker_ok(),
            !old(self).windows_supported ==> *final(self) == *old(self),
            old(self).windows_supported ==> {
                &&& final(self).tab == other_tab(old(self).tab)
                &&& final(self).selected_index == 0
                &&& final(self).displays == old(self).displays
                &&& final(self).windows == old(self).windows
                &&& final(self).windows_supported == old(self).windows_supported
                &&& final(self).windows_hint == old(self).windows_hint
            },
    {
        if !self.windows_supported {
            return ;
        }
        let next = match self.tab {
            ScreenSelectionTab::Screens => ScreenSelectionTab::Windows,
            ScreenSelectionTab::Windows => ScreenSelectionTab::Screens,
        };
        self.set_tab(next);
    }

    /// Snapshot for the picker renderer: one item per current source, in order.
    pub fn ui_snapshot(&self) -> (r: ScreenSelectionUi)
        ensures
            r.tab == self.tab,
            r.windows_supported == self.windows_supported,
            r.selected_index == self.selected_index,
            r.windows_hint == self.windows_hint,
            r.items@.len() == self.sources().len(),
            forall|i: int|
                0 <= i < r.items@.len() ==> {
                    &&& (#[trigger] r.items@[i]).title@ == self.sources()[i].title@
                    &&& match self.tab {
                        ScreenSelectionTab::Screens => r.items@[i].subtitle is Some
                            && r.items@[i].subtitle->0@ == screen_subtitle(),
                        ScreenSelectionTab::Windows => r.items@[i].subtitle
                            == self.sources()[i].app_name,
                    }
                },
    {
        let sources = self.current_sources();
        let mut items: Vec<ScreenSelectionItemUi> = Vec::new();
        let mut i: usize = 0;
        while i < sources.len()
            invariant
                i <= sources@.len(),
                sources@ == self.sources(),
                items@.len() == i,
                forall|k: int|
                    0 <= k < i ==> {
                        &&& (#[trigger] items@[k]).title@ == sources@[k].title@
                        &&& match self.tab {
                            ScreenSelectionTab::Screens => items@[k].subtitle is Some
                                && items@[k].subtitle->0@ == screen_subtitle(),
                            ScreenSelectionTab::Windows => items@[k].subtitle
                                == sources@[k].app_name,
                        }
                    },
            decreases sources@.len() - i,
        {
            let source = &sources[i];
            let subtitle = match self.tab {
                ScreenSelectionTab::Screens => {
                    proof {
                        reveal_strlit("Entire screen");
                    }
                    Some(String::from_str("Entire screen"))
                },
                ScreenSelectionTab::Windows => match &source.app_name {
                    Some(name) => Some(name.clone()),
                    None => None,
                },
            };
            items.push(ScreenSelectionItemUi { title: source.title.clone(), subtitle });
            i += 1;
        }
        let windows_hint = match &self.windows_hint {
            Some(h) => Some(h.clone()),
            None => None,
        };
        ScreenSelectionUi {
            tab: self.tab,
            windows_supported: self.windows_supported,
            items,
            selected_index: self.selected_index,
            windows_hint,
        }
    }
}

/// The tab `toggle_tab` switches to.
pub open spec fn other_tab(tab: ScreenSelectionTab) -> ScreenSelectionTab {
    match tab {
        ScreenSelectionTab::Screens => ScreenSelectionTab::Windows,
        ScreenSelectionTab::Windows => ScreenSelectionTab::Screens,
    }
}

/// Moving the selection keeps it on an existing entry of a non-empty list.
pub proof fn law_moved_selection_in_range(index: int, delta: int, len: int)
    requires
        len > 0,
    ensures
        0 <= moved_index(index, delta, len) < len,
{
}

/// Moving by `delta` and then by `-delta` returns to the entry one started on,
/// and moving by the length of the list stays on it.
pub proof fn law_move_back_and_forth(index: int, delta: int, len: int)
    requires
        0 <= index < len,
    ensures
        moved_index(moved_index(index, delta, len), -delta, len) == index,
        moved_index(index, len, len) == index,
{
    vstd::arithmetic::div_mod::lemma_mod_add_multiples_vanish(index, len);
    vstd::arithmetic::div_mod::lemma_small_mod(index as nat, len as nat);
    let q = (index + delta) / len;
    let m = (index + delta) % len;
    vstd::arithmetic::div_mod::lemma_fundamental_div_mod(index + delta, len);
    assert(m + (-delta) == len * (-q) + index) by (nonlinear_arith)
        requires
            index + delta == len * q + m,
    ;
    vstd::arithmetic::div_mod::lemma_mod_multiples_vanish(-q, index, len);
    vstd::arithmetic::div_mod::lemma_small_mod(index as nat, len as nat);
}

/// Toggling the tab twice returns to the tab one started on.
pub proof fn law_toggle_twice(tab: ScreenSelectionTab)
    ensures
        other_tab(other_tab(tab)) == tab,
{
}

/// Toggling always switches to the other tab.
pub proof fn law_toggle_switches(tab: ScreenSelectionTab)
    ensures
        other_tab(tab) != tab,
{
}

} // verus!
