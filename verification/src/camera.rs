//! Decisions of the camera window: participant labels and avatars, texture
//! keys, and what its buttons ask the application to do.

use crate::participants::{local_key, ParticipantEntry};
use crate::text::{chars_eq, chars_of, is_whitespace, spec_is_whitespace, string_from_chars};
use std::hash::{Hash, Hasher};
use vstd::prelude::*;
use vstd::string::StringExecFns;

verus! {

/// Longest name shown on a tile before it is cut short.
pub const MAX_NAME_CHARS: usize = 16;

/// The label shown for a participant: the name, or its first 16 characters
/// followed by `...` when it is longer.
pub open spec fn spec_truncate_name(name: Seq<char>) -> Seq<char> {
    if name.len() > MAX_NAME_CHARS {
        name.take(MAX_NAME_CHARS as int) + "..."@
    } else {
        name
    }
}

/// Truncates a name to at most 16 characters, adding `...` when truncated.
pub fn truncate_name(name: &str) -> (r: String)
    ensures
        r@ == spec_truncate_name(name@),
{
    let chars = chars_of(name);
    if chars.len() > MAX_NAME_CHARS {
        let mut kept: Vec<char> = Vec::new();
        let mut i: usize = 0;
        while i < MAX_NAME_CHARS
            invariant
                i <= MAX_NAME_CHARS < chars@.len(),
                kept@ == chars@.take(i as int),
            decreases MAX_NAME_CHARS - i,
        {
            kept.push(chars[i]);
            i += 1;
            assert(kept@ =~= chars@.take(i as int));
        }
        string_from_chars(kept.as_slice()).concat("...")
    } else {
        String::from_str(name)
    }
}

/// The upper-case form of a character, as `char::to_uppercase` yields it.
pub uninterp spec fn char_uppercase(c: char) -> Seq<char>;

/// Upper-cases one character (std's `char::to_uppercase`, collected into a
/// string). The contract states the result by name; for ASCII it states the
/// documented mapping: `a`..`z` become `A`..`Z`, other ASCII is unchanged.
#[verifier::external_body]
fn uppercase_string(c: char) -> (r: String)
    ensures
        r@ == char_uppercase(c),
        'a' <= c <= 'z' ==> r@ == seq![((c as u32) - 32) as char],
        (c as u32) < 128 && !('a' <= c <= 'z') ==> r@ == seq![c],
{
    c.to_uppercase().collect::<String>()
}

/// Position `i` starts a whitespace-separated word of `s`.
pub open spec fn word_start(s: Seq<char>, i: int) -> bool {
    0 <= i < s.len() && !spec_is_whitespace(s[i]) && (i == 0 || spec_is_whitespace(s[i - 1]))
}

/// The first word start at or after `i`, or -1.
pub open spec fn first_start_from(s: Seq<char>, i: int) -> int
    decreases s.len() - i,
{
    if i < 0 || i >= s.len() {
        -1
    } else if word_start(s, i) {
        i
    } else {
        first_start_from(s, i + 1)
    }
}

/// The last word start before `i`, or -1.
pub open spec fn last_start_before(s: Seq<char>, i: int) -> int
    decreases i,
{
    if i <= 0 {
        -1
    } else if word_start(s, i - 1) {
        i - 1
    } else {
        last_start_before(s, i - 1)
    }
}

/// The initials shown on a participant without video: a shrug for a name
/// without words, the upper-cased first letter for one word, and the
/// upper-cased first letters of the first and last word otherwise.
pub open spec fn spec_initials(s: Seq<char>) -> Seq<Seq<char>> {
    let f = first_start_from(s, 0);
    let l = last_start_before(s, s.len() as int);
    if f < 0 {
        seq!["\u{1F937}"@]
    } else if f == l {
        seq![char_uppercase(s[f])]
    } else {
        seq![char_uppercase(s[f]), char_uppercase(s[l])]
    }
}

/// Whether position `i` of `s` starts a word.
fn is_word_start(s: &[char], i: usize) -> (r: bool)
    requires
        i < s@.len(),
    ensures
        r == word_start(s@, i as int),
{
    !is_whitespace(s[i]) && (i == 0 || is_whitespace(s[i - 1]))
}

/// The letters the initials are made of: the first letter of the first
/// word, and of the last word when there are several; none without words.
pub open spec fn initial_letters(s: Seq<char>) -> Seq<char> {
    let f = first_start_from(s, 0);
    let l = last_start_before(s, s.len() as int);
    if f < 0 {
        Seq::empty()
    } else if f == l {
        seq![s[f]]
    } else {
        seq![s[f], s[l]]
    }
}

/// The upper-case form of an ASCII character: `a`..`z` become `A`..`Z`,
/// other ASCII characters stay; `None` outside ASCII.
pub open spec fn ascii_upper_form(c: char) -> Option<Seq<char>> {
    if 'a' <= c <= 'z' {
        Some(seq![((c as u32) - 32) as char])
    } else if (c as u32) < 128 {
        Some(seq![c])
    } else {
        None
    }
}

/// The initials of a name (see `spec_initials`). An initial made from an
/// ASCII letter is that letter in upper case.
pub fn get_initials(name: &str) -> (r: Vec<String>)
    ensures
        r@.len() == spec_initials(name@).len(),
        forall|k: int| 0 <= k < r@.len() ==> #[trigger] r@[k]@ == spec_initials(name@)[k],
        forall|k: int|
            0 <= k < initial_letters(name@).len() ==> (ascii_upper_form(
                #[trigger] initial_letters(name@)[k],
            ) matches Some(u) ==> r@[k]@ == u),
{
    let s = chars_of(name);
    let n = s.len();
    let mut i: usize = 0;
    while i < n && !is_word_start(s.as_slice(), i)
        invariant
            n == s@.len(),
            i <= n,
            first_start_from(s@, 0) == first_start_from(s@, i as int),
        decreases n - i,
    {
        i += 1;
    }
    let mut out: Vec<String> = Vec::new();
    if i == n {
        proof {
            reveal_strlit("\u{1F937}");
        }
        out.push(String::from_str("\u{1F937}"));
        return out;
    }
    let f = i;
    assert(first_start_from(s@, 0) == f);
    let mut j: usize = n;
    while j > 0 && !is_word_start(s.as_slice(), j - 1)
        invariant
            n == s@.len(),
            f < n,
            word_start(s@, f as int),
            j <= n,
            j > f,
            last_start_before(s@, n as int) == last_start_before(s@, j as int),
        decreases j,
    {
        j -= 1;
    }
    let l = j - 1;
    assert(last_start_before(s@, n as int) == l);
    out.push(uppercase_string(s[f]));
    if f != l {
        out.push(uppercase_string(s[l]));
    }
    assert(initial_letters(s@) =~= (if f == l {
        seq![s@[f as int]]
    } else {
        seq![s@[f as int], s@[l as int]]
    }));
    out
}

/// The texture key of a participant's SID (std's `DefaultHasher`, created
/// with `DefaultHasher::new`).
pub uninterp spec fn sid_hash(sid: Seq<char>) -> u64;

/// Hashes a SID with std's `DefaultHasher` (fixed keys). The contract names
/// the hash; its value is not stated.
#[verifier::external_body]
fn hash_sid(sid: &str) -> (r: u64)
    ensures
        r == sid_hash(sid@),
{
    let mut hasher = std::collections::hash_map::DefaultHasher::new();
    sid.hash(&mut hasher);
    hasher.finish()
}

/// Hashes a SID string to a u64 for GPU texture keying.
pub fn sid_to_id(sid: &str) -> (r: u64)
    ensures
        r == sid_hash(sid@),
{
    hash_sid(sid)
}

/// Messages of the camera window's controls.
#[derive(Debug, Clone, Copy, PartialEq, Eq, Structural)]
pub enum CameraMessage {
    MicToggle,
    ScreenShare,
    VideoToggle,
    EndCall,
    ToggleSelfVisibility,
    /// The pointer entered (`true`) or left the local participant's tile.
    LocalTileHover(bool),
}

/// What a camera window control asks the application to do.
#[derive(Debug, Clone, Copy, PartialEq, Eq, Structural)]
pub enum CameraCommand {
    MuteAudio,
    UnmuteAudio,
    OpenContentPicker,
    StopCamera,
    StartCamera,
    CallEnd,
}

/// Window-local state of the camera window that its controls change.
#[derive(Debug, Clone, Copy, PartialEq, Eq, Structural)]
pub struct CameraControls {
    /// Local camera on/off, updated from the camera start/stop handlers.
    pub camera_active: bool,
    /// The local participant's tile is hidden.
    pub self_hidden: bool,
    /// The pointer is over the local participant's tile.
    pub local_tile_hovered: bool,
}

/// Whether the local participant is muted, as the camera window sees it:
/// a missing local participant counts as unmuted.
pub fn local_muted(entries: &[ParticipantEntry]) -> (r: bool)
    ensures
        forall|k: int|
            0 <= k < entries@.len() && entries@[k].sid@ == local_key() && (forall|m: int|
                0 <= m < k ==> entries@[m].sid@ != local_key()) ==> r == entries@[k].record.muted,
        (forall|k: int| 0 <= k < entries@.len() ==> entries@[k].sid@ != local_key()) ==> !r,
{
    let local = chars_of("local");
    proof {
        reveal_strlit("local");
    }
    let mut i: usize = 0;
    while i < entries.len()
        invariant
            i <= entries@.len(),
            local@ == local_key(),
            forall|k: int| 0 <= k < i ==> entries@[k].sid@ != local_key(),
        decreases entries@.len() - i,
    {
        let sid = chars_of(entries[i].sid.as_str());
        if chars_eq(sid.as_slice(), local.as_slice()) {
            return entries[i].record.muted;
        }
        i += 1;
    }
    false
}

impl CameraControls {
    pub fn new() -> (r: Self)
        ensures
            !r.camera_active && !r.self_hidden && !r.local_tile_hovered,
    {
        CameraControls { camera_active: false, self_hidden: false, local_tile_hovered: false }
    }

    /// The controls after `message`, and the command it asks for.
    pub open spec fn after_message(self, message: CameraMessage, local_muted: bool) -> (
        CameraControls,
        Option<CameraCommand>,
    ) {
        match message {
            CameraMessage::MicToggle => (
                self,
                Some(
                    if local_muted {
                        CameraCommand::UnmuteAudio
                    } else {
                        CameraCommand::MuteAudio
                    },
                ),
            ),
            CameraMessage::ScreenShare => (self, Some(CameraCommand::OpenContentPicker)),
            CameraMessage::VideoToggle => (
                self,
                Some(
                    if self.camera_active {
                        CameraCommand::StopCamera
                    } else {
                        CameraCommand::StartCamera
                    },
                ),
            ),
            CameraMessage::EndCall => (self, Some(CameraCommand::CallEnd)),
            CameraMessage::ToggleSelfVisibility => (
                CameraControls {
                    self_hidden: !self.self_hidden,
                    local_tile_hovered: self.local_tile_hovered && self.self_hidden,
                    ..self
                },
                None,
            ),
            CameraMessage::LocalTileHover(h) => (
                CameraControls { local_tile_hovered: h, ..self },
                None,
            ),
        }
    }

    /// Applies a control message; returns the command for the application,
    /// if the message asks for one. `local_muted` is the local participant's
    /// current mute state.
    pub fn update(&mut self, message: CameraMessage, local_muted: bool) -> (r: Option<
        CameraCommand,
    >)
        ensures
            (*final(self), r) == old(self).after_message(message, local_muted),
    {
        match message {
            CameraMessage::MicToggle => {
                if local_muted {
                    Some(CameraCommand::UnmuteAudio)
                } else {
                    Some(CameraCommand::MuteAudio)
                }
            },
            CameraMessage::ScreenShare => Some(CameraCommand::OpenContentPicker),
            CameraMessage::VideoToggle => {
                if self.camera_active {
                    Some(CameraCommand::StopCamera)
                } else {
                    Some(CameraCommand::StartCamera)
                }
            },
            CameraMessage::EndCall => Some(CameraCommand::CallEnd),
            CameraMessage::ToggleSelfVisibility => {
                self.self_hidden = !self.self_hidden;
                if self.self_hidden {
                    self.local_tile_hovered = false;
                }
                None
            },
            CameraMessage::LocalTileHover(hovered) => {
                self.local_tile_hovered = hovered;
                None
            },
        }
    }

    pub fn set_camera_active(&mut self, active: bool)
        ensures
            final(self).camera_active == active,
            final(self).self_hidden == old(self).self_hidden,
            final(self).local_tile_hovered == old(self).local_tile_hovered,
    {
        self.camera_active = active;
    }
}

/// Toggling self visibility twice shows the tile as it was, a hidden tile
/// is never hovered, and the toggles change no window state but the visibility
/// and hover flags; the mic and video toggles never change the controls.
pub proof fn law_camera_toggles(c: CameraControls, local_muted: bool)
    ensures
        c.after_message(CameraMessage::ToggleSelfVisibility, local_muted).0.after_message(
            CameraMessage::ToggleSelfVisibility,
            local_muted,
        ).0.self_hidden == c.self_hidden,
        c.after_message(CameraMessage::ToggleSelfVisibility, local_muted).0.self_hidden ==> !c.after_message(
            CameraMessage::ToggleSelfVisibility,
            local_muted,
        ).0.local_tile_hovered,
        c.after_message(CameraMessage::ToggleSelfVisibility, local_muted).0.camera_active
            == c.camera_active,
        c.after_message(CameraMessage::MicToggle, local_muted).0 == c,
        c.after_message(CameraMessage::VideoToggle, local_muted).0 == c,
{
}

/// A name of at most 16 characters is shown whole; a longer one is shown
/// as its first 16 characters followed by `...`, 19 characters in all.
pub proof fn law_name_truncation(name: Seq<char>)
    ensures
        name.len() <= 16 ==> spec_truncate_name(name) == name,
        name.len() > 16 ==> {
            &&& spec_truncate_name(name).len() == 19
            &&& spec_truncate_name(name).take(16) == name.take(16)
            &&& spec_truncate_name(name).skip(16) == seq!['.', '.', '.']
        },
{
    reveal_strlit("...");
    if name.len() > 16 {
        let r = spec_truncate_name(name);
        assert(r.take(16) =~= name.take(16));
        assert(r.skip(16) =~= seq!['.', '.', '.']);
    }
}

/// The camera window's buttons: the microphone button asks to unmute when
/// the local participant is muted and to mute otherwise; the video button
/// asks to stop the camera when it is on and to start it otherwise; the
/// screen share and end-call buttons ask to open the picker and to end the
/// call. Only these four ask for anything; hovering only sets the hover
/// flag.
pub proof fn law_camera_buttons(c: CameraControls, message: CameraMessage, local_muted: bool)
    ensures
        (c.after_message(message, local_muted).1 is Some) == (message is MicToggle || message is ScreenShare
            || message is VideoToggle || message is EndCall),
        message is MicToggle ==> c.after_message(message, local_muted).1 == Some(if local_muted {
            CameraCommand::UnmuteAudio
        } else {
            CameraCommand::MuteAudio
        }),
        message is VideoToggle ==> c.after_message(message, local_muted).1 == Some(if c.camera_active {
            CameraCommand::StopCamera
        } else {
            CameraCommand::StartCamera
        }),
        message is ScreenShare ==> c.after_message(message, local_muted).1 == Some(CameraCommand::OpenContentPicker),
        message is EndCall ==> c.after_message(message, local_muted).1 == Some(CameraCommand::CallEnd),
        message matches CameraMessage::LocalTileHover(h) ==> c.after_message(message, local_muted).0
            == (CameraControls { local_tile_hovered: h, ..c }),
        !(message is ToggleSelfVisibility || message is LocalTileHover) ==> c.after_message(message, local_muted).0 == c,
        c.after_message(message, local_muted).0.camera_active == c.camera_active,
{
}

proof fn lemma_first_start(s: Seq<char>, i: int)
    requires
        0 <= i,
    ensures
        first_start_from(s, i) == -1 ==> forall|k: int| i <= k < s.len() ==> !#[trigger] word_start(s, k),
        first_start_from(s, i) != -1 ==> i <= first_start_from(s, i) < s.len() && word_start(s, first_start_from(s, i))
            && forall|k: int| i <= k < first_start_from(s, i) ==> !#[trigger] word_start(s, k),
    decreases s.len() - i,
{
    if i < s.len() && !word_start(s, i) {
        lemma_first_start(s, i + 1);
    }
}

proof fn lemma_last_start(s: Seq<char>, i: int)
    requires
        i <= s.len(),
    ensures
        last_start_before(s, i) == -1 ==> forall|k: int| 0 <= k < i ==> !#[trigger] word_start(s, k),
        last_start_before(s, i) != -1 ==> 0 <= last_start_before(s, i) < i && word_start(s, last_start_before(s, i))
            && forall|k: int| last_start_before(s, i) < k < i ==> !#[trigger] word_start(s, k),
    decreases i,
{
    if i > 0 && !word_start(s, i - 1) {
        lemma_last_start(s, i - 1);
    }
}

/// The initials of a name: a shrug when it has no word; otherwise the upper
/// case of the first letter of its first word, followed, when the name has
/// more than one word, by that of the first letter of its last word.
pub proof fn law_initials_from_first_and_last_word(s: Seq<char>)
    ensures
        (forall|k: int| 0 <= k < s.len() ==> !#[trigger] word_start(s, k)) ==> spec_initials(s) == seq![
            "\u{1F937}"@,
        ],
        forall|f: int|
            #![trigger word_start(s, f)]
            word_start(s, f) && (forall|k: int| 0 <= k < f ==> !#[trigger] word_start(s, k)) ==> {
                &&& spec_initials(s)[0] == char_uppercase(s[f])
                &&& (spec_initials(s).len() == 1) == (forall|k: int| f < k < s.len() ==> !#[trigger] word_start(s, k))
                &&& spec_initials(s).len() <= 2
                &&& forall|l: int|
                    #![trigger word_start(s, l)]
                    f < l && word_start(s, l) && (forall|k: int| l < k < s.len() ==> !#[trigger] word_start(s, k))
                        ==> spec_initials(s)[1] == char_uppercase(s[l])
            },
{
    lemma_first_start(s, 0);
    lemma_last_start(s, s.len() as int);
    let fs = first_start_from(s, 0);
    let ls = last_start_before(s, s.len() as int);
    if fs != -1 {
        assert(word_start(s, fs));
        assert(ls != -1);
        assert(fs <= ls) by {
            if ls < fs {
                assert(!word_start(s, fs));
            }
        }
    }
    if ls != -1 {
        assert(word_start(s, ls));
        assert(fs != -1);
    }
    assert forall|f: int|
        #![trigger word_start(s, f)]
        word_start(s, f) && (forall|k: int| 0 <= k < f ==> !#[trigger] word_start(s, k)) implies {
            &&& spec_initials(s)[0] == char_uppercase(s[f])
            &&& (spec_initials(s).len() == 1) == (forall|k: int| f < k < s.len() ==> !#[trigger] word_start(s, k))
            &&& spec_initials(s).len() <= 2
            &&& forall|l: int|
                #![trigger word_start(s, l)]
                f < l && word_start(s, l) && (forall|k: int| l < k < s.len() ==> !#[trigger] word_start(s, k))
                    ==> spec_initials(s)[1] == char_uppercase(s[l])
        } by {
        assert(fs == f) by {
            if fs != f {
                if fs < f {
                    assert(!word_start(s, fs));
                } else {
                    assert(!word_start(s, f));
                }
            }
        }
        if fs == ls {
            if exists|k: int| f < k < s.len() && #[trigger] word_start(s, k) {
                let k = choose|k: int| f < k < s.len() && #[trigger] word_start(s, k);
                assert(!word_start(s, k));
            }
        } else {
            assert(f < ls && word_start(s, ls));
        }
        assert forall|l: int|
            #![trigger word_start(s, l)]
            f < l && word_start(s, l) && (forall|k: int| l < k < s.len() ==> !#[trigger] word_start(s, k))
                implies spec_initials(s)[1] == char_uppercase(s[l]) by {
            if ls != l {
                if ls < l {
                    assert(!word_start(s, l));
                } else {
                    assert(!word_start(s, ls));
                }
            }
        }
    }
}

} // verus!
