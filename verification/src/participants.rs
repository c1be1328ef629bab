//! Participant bookkeeping: identities, the per-user snapshot sent to the
//! desktop app, and the lookups the room event handling needs.
//!
//! A LiveKit identity has the form `room:<roomId>:<userId>:<trackType>`; one
//! user may join with several participants (audio, video, camera).

use crate::text::{
    chars_eq, chars_of, contains_chars, contains_seq, split_chars, split_parts, string_from_chars,
    strip_suffix_chars, strip_suffix_seq,
};
use vstd::prelude::*;

verus! {

/// Key of the local participant in the participant table.
pub open spec fn local_key() -> Seq<char> {
    "local"@
}

/// What the bookkeeping reads of one participant.
#[derive(Debug)]
pub struct ParticipantRecord {
    pub identity: String,
    pub name: String,
    pub muted: bool,
    pub is_speaking: bool,
    pub is_screensharing: bool,
    pub camera_active: bool,
}

/// One row of the participant table, keyed by the participant's SID
/// (`"local"` for the local participant).
#[derive(Debug)]
pub struct ParticipantEntry {
    pub sid: String,
    pub record: ParticipantRecord,
}

/// The state of one user as reported to the desktop app.
#[derive(Debug)]
pub struct ParticipantState {
    pub identity: String,
    pub name: String,
    pub connected: bool,
    pub muted: bool,
    pub has_camera: bool,
    pub is_screensharing: bool,
}

/// The user id and track type of an identity, when it has at least four
/// `:`-separated parts.
pub open spec fn parse_identity(identity: Seq<char>) -> Option<(Seq<char>, Seq<char>)> {
    let parts = split_parts(identity, ':');
    if parts.len() < 4 {
        None
    } else {
        Some((parts[2], parts[3]))
    }
}

/// Splits an identity into its user id and track type.
pub fn parse_identity_chars(identity: &[char]) -> (r: Option<(Vec<char>, Vec<char>)>)
    ensures
        match r {
            Some((user, track)) => parse_identity(identity@) == Some((user@, track@)),
            None => parse_identity(identity@) is None,
        },
{
    let parts = split_chars(identity, ':');
    if parts.len() < 4 {
        return None;
    }
    let user = parts[2].clone();
    let track = parts[3].clone();
    assert(parts@[2]@ == split_parts(identity@, ':')[2]);
    assert(parts@[3]@ == split_parts(identity@, ':')[3]);
    Some((user, track))
}

/// The state a user starts with when the first of its participants is seen.
pub open spec fn fresh_state(rec: ParticipantRecord) -> ParticipantState {
    ParticipantState {
        identity: rec.identity,
        name: rec.name,
        connected: true,
        muted: false,
        has_camera: false,
        is_screensharing: false,
    }
}

/// Folds one participant of the user into the user's state: the audio
/// participant decides `muted`; camera and screen share are on when any
/// participant has them on.
pub open spec fn merge_record(
    state: ParticipantState,
    rec: ParticipantRecord,
    track: Seq<char>,
) -> ParticipantState {
    ParticipantState {
        muted: if track == "audio"@ {
            rec.muted
        } else {
            state.muted
        },
        has_camera: state.has_camera || rec.camera_active,
        is_screensharing: state.is_screensharing || rec.is_screensharing,
        ..state
    }
}

/// Index of the first entry for `user`, or -1.
pub open spec fn user_index(users: Seq<Seq<char>>, user: Seq<char>) -> int
    decreases users.len(),
{
    if users.len() == 0 {
        -1
    } else {
        let j = user_index(users.drop_last(), user);
        if j >= 0 {
            j
        } else if users.last() == user {
            users.len() - 1
        } else {
            -1
        }
    }
}

/// The users seen so far and their states, after folding in `entries` in order.
pub open spec fn snapshot_fold(entries: Seq<ParticipantEntry>) -> (Seq<Seq<char>>, Seq<ParticipantState>)
    decreases entries.len(),
{
    if entries.len() == 0 {
        (Seq::empty(), Seq::empty())
    } else {
        let (users, states) = snapshot_fold(entries.drop_last());
        let rec = entries.last().record;
        match parse_identity(rec.identity@) {
            None => (users, states),
            Some((user, track)) => {
                let j = user_index(users, user);
                if j >= 0 {
                    (users, states.update(j, merge_record(states[j], rec, track)))
                } else {
                    (users.push(user), states.push(merge_record(fresh_state(rec), rec, track)))
                }
            },
        }
    }
}

/// The snapshot of `entries`: one state per user, in order of first appearance.
pub open spec fn snapshot_of(entries: Seq<ParticipantEntry>) -> Seq<ParticipantState> {
    snapshot_fold(entries).1
}

proof fn lemma_user_index(users: Seq<Seq<char>>, user: Seq<char>)
    ensures
        -1 <= user_index(users, user) < users.len(),
        user_index(users, user) >= 0 ==> users[user_index(users, user)] == user,
        user_index(users, user) == -1 ==> forall|k: int| 0 <= k < users.len() ==> users[k] != user,
        user_index(users, user) >= 0 ==> forall|k: int|
            0 <= k < user_index(users, user) ==> users[k] != user,
    decreases users.len(),
{
    if users.len() > 0 {
        lemma_user_index(users.drop_last(), user);
        assert(forall|k: int| 0 <= k < users.len() - 1 ==> users.drop_last()[k] == users[k]);
    }
}

proof fn lemma_fold_lengths(entries: Seq<ParticipantEntry>)
    ensures
        snapshot_fold(entries).0.len() == snapshot_fold(entries).1.len(),
    decreases entries.len(),
{
    if entries.len() > 0 {
        lemma_fold_lengths(entries.drop_last());
        let (users, states) = snapshot_fold(entries.drop_last());
        match parse_identity(entries.last().record.identity@) {
            None => {},
            Some((user, track)) => {
                lemma_user_index(users, user);
            },
        }
    }
}

fn clone_state(s: &ParticipantState) -> (r: ParticipantState)
    ensures
        r == *s,
{
    ParticipantState {
        identity: s.identity.clone(),
        name: s.name.clone(),
        connected: s.connected,
        muted: s.muted,
        has_camera: s.has_camera,
        is_screensharing: s.is_screensharing,
    }
}

fn find_user(users: &Vec<Vec<char>>, user: &Vec<char>) -> (r: Option<usize>)
    ensures
        match r {
            Some(j) => user_index(users@.map_values(|u: Vec<char>| u@), user@) == j,
            None => user_index(users@.map_values(|u: Vec<char>| u@), user@) == -1,
        },
{
    let ghost keys = users@.map_values(|u: Vec<char>| u@);
    proof {
        lemma_user_index(keys, user@);
    }
    let mut i: usize = 0;
    while i < users.len()
        invariant
            i <= users@.len(),
            keys == users@.map_values(|u: Vec<char>| u@),
            -1 <= user_index(keys, user@) < keys.len(),
            user_index(keys, user@) >= 0 ==> keys[user_index(keys, user@)] == user@,
            user_index(keys, user@) == -1 ==> forall|k: int| 0 <= k < keys.len() ==> keys[k] != user@,
            user_index(keys, user@) >= 0 ==> forall|k: int|
                0 <= k < user_index(keys, user@) ==> keys[k] != user@,
            forall|k: int| 0 <= k < i ==> keys[k] != user@,
        decreases users@.len() - i,
    {
        if chars_eq(users[i].as_slice(), user.as_slice()) {
            assert(keys[i as int] == user@);
            return Some(i);
        }
        assert(keys[i as int] != user@);
        i += 1;
    }
    None
}

/// Builds the per-user snapshot of the participant table: participants are
/// grouped by the user id of their identity (entries whose identity has fewer
/// than four parts are skipped), in order of first appearance.
pub fn build_participants_snapshot(entries: &[ParticipantEntry]) -> (r: Vec<ParticipantState>)
    ensures
        r@ == snapshot_of(entries@),
{
    let mut users: Vec<Vec<char>> = Vec::new();
    let mut states: Vec<ParticipantState> = Vec::new();
    let mut i: usize = 0;
    while i < entries.len()
        invariant
            i <= entries@.len(),
            snapshot_fold(entries@.take(i as int)).0 == users@.map_values(|u: Vec<char>| u@),
            snapshot_fold(entries@.take(i as int)).1 == states@,
        decreases entries@.len() - i,
    {
        proof {
            assert(entries@.take(i + 1).drop_last() =~= entries@.take(i as int));
            lemma_fold_lengths(entries@.take(i as int));
        }
        let rec = &entries[i].record;
        let identity = chars_of(rec.identity.as_str());
        match parse_identity_chars(identity.as_slice()) {
            None => {},
            Some((user, track)) => {
                let audio = chars_of("audio");
                proof {
                    reveal_strlit("audio");
                }
                let is_audio = chars_eq(track.as_slice(), audio.as_slice());
                match find_user(&users, &user) {
                    Some(j) => {
                        proof {
                            lemma_user_index(users@.map_values(|u: Vec<char>| u@), user@);
                        }
                        let old_state = &states[j];
                        let merged = ParticipantState {
                            identity: old_state.identity.clone(),
                            name: old_state.name.clone(),
                            connected: old_state.connected,
                            muted: if is_audio {
                                rec.muted
                            } else {
                                old_state.muted
                            },
                            has_camera: old_state.has_camera || rec.camera_active,
                            is_screensharing: old_state.is_screensharing || rec.is_screensharing,
                        };
                        states.set(j, merged);
                    },
                    None => {
                        let fresh = ParticipantState {
                            identity: rec.identity.clone(),
                            name: rec.name.clone(),
                            connected: true,
                            muted: if is_audio {
                                rec.muted
                            } else {
                                false
                            },
                            has_camera: rec.camera_active,
                            is_screensharing: rec.is_screensharing,
                        };
                        let ghost old_keys = users@.map_values(|u: Vec<char>| u@);
                        let ghost user_view = user@;
                        users.push(user);
                        states.push(fresh);
                        assert(users@.map_values(|u: Vec<char>| u@) =~= old_keys.push(user_view));
                    },
                }
            },
        }
        i += 1;
    }
    assert(entries@.take(entries@.len() as int) =~= entries@);
    states
}

/// The user an entry belongs to, when its identity can be parsed.
pub open spec fn user_of(entry: ParticipantEntry) -> Option<Seq<char>> {
    match parse_identity(entry.record.identity@) {
        Some((user, _)) => Some(user),
        None => None,
    }
}

/// The camera (`camera == true`) or screen share flag of a participant.
pub open spec fn record_flag(rec: ParticipantRecord, camera: bool) -> bool {
    if camera {
        rec.camera_active
    } else {
        rec.is_screensharing
    }
}

/// The camera (`camera == true`) or screen share flag of a user's state.
pub open spec fn state_flag(state: ParticipantState, camera: bool) -> bool {
    if camera {
        state.has_camera
    } else {
        state.is_screensharing
    }
}

/// Some participant of `user` has the flag on.
pub open spec fn user_has_flag(entries: Seq<ParticipantEntry>, user: Seq<char>, camera: bool) -> bool {
    exists|k: int|
        0 <= k < entries.len() && user_of(entries[k]) == Some(user) && record_flag(
            entries[k].record,
            camera,
        )
}

proof fn lemma_flag_step(entries: Seq<ParticipantEntry>, v: Seq<char>, camera: bool)
    requires
        entries.len() > 0,
    ensures
        user_has_flag(entries, v, camera) == (user_has_flag(entries.drop_last(), v, camera) || (
        user_of(entries.last()) == Some(v) && record_flag(entries.last().record, camera))),
{
    let prev = entries.drop_last();
    let n = entries.len() - 1;
    if user_has_flag(entries, v, camera) {
        let k = choose|k: int|
            0 <= k < entries.len() && user_of(entries[k]) == Some(v) && record_flag(
                entries[k].record,
                camera,
            );
        if k < n {
            assert(prev[k] == entries[k]);
        }
    }
    if user_has_flag(prev, v, camera) {
        let k = choose|k: int|
            0 <= k < prev.len() && user_of(prev[k]) == Some(v) && record_flag(prev[k].record, camera);
        assert(entries[k] == prev[k]);
    }
    if user_of(entries.last()) == Some(v) && record_flag(entries.last().record, camera) {
        assert(entries[n] == entries.last());
    }
}

proof fn lemma_fold_distinct(entries: Seq<ParticipantEntry>)
    ensures
        snapshot_fold(entries).0.len() == snapshot_fold(entries).1.len(),
        forall|i: int, j: int|
            0 <= i < j < snapshot_fold(entries).0.len() ==> snapshot_fold(entries).0[i]
                != snapshot_fold(entries).0[j],
    decreases entries.len(),
{
    if entries.len() > 0 {
        lemma_fold_distinct(entries.drop_last());
        let (users, states) = snapshot_fold(entries.drop_last());
        match parse_identity(entries.last().record.identity@) {
            None => {},
            Some((u, track)) => {
                lemma_user_index(users, u);
            },
        }
    }
}

proof fn lemma_fold_cover(entries: Seq<ParticipantEntry>)
    ensures
        forall|k: int|
            0 <= k < entries.len() && user_of(#[trigger] entries[k]) is Some ==> exists|i: int|
                0 <= i < snapshot_fold(entries).0.len() && snapshot_fold(entries).0[i] == user_of(
                    entries[k],
                )->0,
        forall|i: int|
            0 <= i < snapshot_fold(entries).0.len() ==> exists|k: int|
                0 <= k < entries.len() && user_of(entries[k]) == Some(
                    #[trigger] snapshot_fold(entries).0[i],
                ),
    decreases entries.len(),
{
    if entries.len() > 0 {
        let prev = entries.drop_last();
        lemma_fold_cover(prev);
        let (users, states) = snapshot_fold(prev);
        let users2 = snapshot_fold(entries).0;
        let n = entries.len() - 1;
        match parse_identity(entries.last().record.identity@) {
            None => {
                assert forall|k: int|
                    0 <= k < entries.len() && user_of(#[trigger] entries[k]) is Some implies exists|i: int|
                        0 <= i < users2.len() && users2[i] == user_of(entries[k])->0 by {
                    assert(k < n);
                    assert(prev[k] == entries[k]);
                }
                assert forall|i: int| 0 <= i < users2.len() implies exists|k: int|
                    0 <= k < entries.len() && user_of(entries[k]) == Some(#[trigger] users2[i]) by {
                    let k = choose|k: int| 0 <= k < prev.len() && user_of(prev[k]) == Some(users[i]);
                    assert(entries[k] == prev[k]);
                }
            },
            Some((u, track)) => {
                lemma_user_index(users, u);
                let j = user_index(users, u);
                assert forall|k: int|
                    0 <= k < entries.len() && user_of(#[trigger] entries[k]) is Some implies exists|i: int|
                        0 <= i < users2.len() && users2[i] == user_of(entries[k])->0 by {
                    if k < n {
                        assert(prev[k] == entries[k]);
                        let i = choose|i: int|
                            0 <= i < users.len() && users[i] == user_of(prev[k])->0;
                        assert(users2[i] == users[i]);
                    } else {
                        if j >= 0 {
                            assert(users2[j] == u);
                        } else {
                            assert(users2[users.len() as int] == u);
                        }
                    }
                }
                assert forall|i: int| 0 <= i < users2.len() implies exists|k: int|
                    0 <= k < entries.len() && user_of(entries[k]) == Some(#[trigger] users2[i]) by {
                    if i < users.len() {
                        let k = choose|k: int| 0 <= k < prev.len() && user_of(prev[k]) == Some(users[i]);
                        assert(entries[k] == prev[k]);
                        assert(users2[i] == users[i]);
                    } else {
                        assert(user_of(entries[n]) == Some(users2[i]));
                    }
                }
            },
        }
    }
}

proof fn lemma_fold_flag(entries: Seq<ParticipantEntry>, camera: bool)
    ensures
        forall|i: int|
            0 <= i < snapshot_fold(entries).0.len() ==> state_flag(
                #[trigger] snapshot_fold(entries).1[i],
                camera,
            ) == user_has_flag(entries, snapshot_fold(entries).0[i], camera),
    decreases entries.len(),
{
    lemma_fold_distinct(entries);
    if entries.len() > 0 {
        let prev = entries.drop_last();
        lemma_fold_flag(prev, camera);
        lemma_fold_distinct(prev);
        let (users, states) = snapshot_fold(prev);
        let (users2, states2) = snapshot_fold(entries);
        let e = entries.last();
        match parse_identity(e.record.identity@) {
            None => {
                assert forall|i: int| 0 <= i < users2.len() implies state_flag(
                    #[trigger] states2[i],
                    camera,
                ) == user_has_flag(entries, users2[i], camera) by {
                    lemma_flag_step(entries, users2[i], camera);
                }
            },
            Some((u, track)) => {
                lemma_user_index(users, u);
                let j = user_index(users, u);
                assert forall|i: int| 0 <= i < users2.len() implies state_flag(
                    #[trigger] states2[i],
                    camera,
                ) == user_has_flag(entries, users2[i], camera) by {
                    lemma_flag_step(entries, users2[i], camera);
                    if i < users.len() {
                        assert(users2[i] == users[i]);
                    } else {
                        assert(users2[i] == u);
                        assert(!user_has_flag(prev, u, camera)) by {
                            if user_has_flag(prev, u, camera) {
                                let k = choose|k: int|
                                    0 <= k < prev.len() && user_of(prev[k]) == Some(u)
                                        && record_flag(prev[k].record, camera);
                                lemma_fold_cover(prev);
                                assert(user_of(prev[k]) is Some);
                            }
                        }
                    }
                }
            },
        }
    }
}

/// The snapshot holds one state per user: no two states belong to the same
/// user, every participant with a well-formed identity is represented, and
/// every state belongs to some participant.
pub proof fn law_snapshot_one_state_per_user(entries: Seq<ParticipantEntry>)
    ensures
        snapshot_of(entries).len() == snapshot_fold(entries).0.len(),
        forall|i: int, j: int|
            0 <= i < j < snapshot_fold(entries).0.len() ==> snapshot_fold(entries).0[i]
                != snapshot_fold(entries).0[j],
        forall|k: int|
            0 <= k < entries.len() && user_of(#[trigger] entries[k]) is Some ==> exists|i: int|
                0 <= i < snapshot_fold(entries).0.len() && snapshot_fold(entries).0[i] == user_of(
                    entries[k],
                )->0,
        forall|i: int|
            0 <= i < snapshot_fold(entries).0.len() ==> exists|k: int|
                0 <= k < entries.len() && user_of(entries[k]) == Some(
                    #[trigger] snapshot_fold(entries).0[i],
                ),
{
    lemma_fold_distinct(entries);
    lemma_fold_cover(entries);
}

/// A user has its camera on (or shares its screen) in the snapshot exactly
/// when one of its participants has.
pub proof fn law_snapshot_flags_are_any(entries: Seq<ParticipantEntry>)
    ensures
        forall|i: int|
            0 <= i < snapshot_of(entries).len() ==> (#[trigger] snapshot_of(entries)[i]).has_camera
                == user_has_flag(entries, snapshot_fold(entries).0[i], true),
        forall|i: int|
            0 <= i < snapshot_of(entries).len() ==> (#[trigger] snapshot_of(entries)[i]).is_screensharing
                == user_has_flag(entries, snapshot_fold(entries).0[i], false),
{
    lemma_fold_distinct(entries);
    lemma_fold_flag(entries, true);
    lemma_fold_flag(entries, false);
    assert forall|i: int| 0 <= i < snapshot_of(entries).len() implies (#[trigger] snapshot_of(
        entries,
    )[i]).has_camera == user_has_flag(entries, snapshot_fold(entries).0[i], true) by {
        assert(state_flag(snapshot_fold(entries).1[i], true) == snapshot_of(entries)[i].has_camera);
    }
    assert forall|i: int| 0 <= i < snapshot_of(entries).len() implies (#[trigger] snapshot_of(
        entries,
    )[i]).is_screensharing == user_has_flag(entries, snapshot_fold(entries).0[i], false) by {
        assert(state_flag(snapshot_fold(entries).1[i], false) == snapshot_of(
            entries,
        )[i].is_screensharing);
    }
}

/// A screen share identity `<prefix>:video` belongs to the audio identity
/// `<prefix>:audio`; an identity that does not end in `:video` has none.
pub proof fn law_audio_identity_of_video(prefix: Seq<char>, identity: Seq<char>)
    ensures
        audio_identity_for(prefix + seq![':', 'v', 'i', 'd', 'e', 'o']) == Some(prefix + seq![':', 'a', 'u', 'd', 'i', 'o']),
        (identity.len() < 6 || identity.subrange(identity.len() - 6, identity.len() as int) != seq![
            ':',
            'v',
            'i',
            'd',
            'e',
            'o',
        ]) ==> audio_identity_for(identity) is None,
{
    reveal_strlit(":video");
    reveal_strlit(":audio");
    assert(":video"@ =~= seq![':', 'v', 'i', 'd', 'e', 'o']);
    assert(":audio"@ =~= seq![':', 'a', 'u', 'd', 'i', 'o']);
    let v = prefix + seq![':', 'v', 'i', 'd', 'e', 'o'];
    assert(v.subrange(v.len() - 6, v.len() as int) =~= seq![':', 'v', 'i', 'd', 'e', 'o']);
    assert(v.subrange(0, v.len() - 6) =~= prefix);
}

/// Entry `e` is an audio participant of `user`.
pub open spec fn is_audio_of(e: ParticipantEntry, user: Seq<char>) -> bool {
    parse_identity(e.record.identity@) == Some((user, "audio"@))
}

/// Whether the last audio participant of `user` in `entries` is muted;
/// false when the user has no audio participant.
pub open spec fn user_audio_muted(entries: Seq<ParticipantEntry>, user: Seq<char>) -> bool {
    exists|k: int|
        0 <= k < entries.len() && is_audio_of(#[trigger] entries[k], user) && entries[k].record.muted
            && forall|m: int| k < m < entries.len() ==> !is_audio_of(#[trigger] entries[m], user)
}

/// Entry `k` is the first participant of `user` in `entries`.
pub open spec fn first_of_user(entries: Seq<ParticipantEntry>, user: Seq<char>, k: int) -> bool {
    &&& 0 <= k < entries.len()
    &&& user_of(entries[k]) == Some(user)
    &&& forall|m: int| 0 <= m < k ==> user_of(#[trigger] entries[m]) != Some(user)
}

proof fn lemma_audio_muted_step(entries: Seq<ParticipantEntry>, v: Seq<char>)
    requires
        entries.len() > 0,
    ensures
        user_audio_muted(entries, v) == if is_audio_of(entries.last(), v) {
            entries.last().record.muted
        } else {
            user_audio_muted(entries.drop_last(), v)
        },
{
    let prev = entries.drop_last();
    let n = entries.len() - 1;
    assert(entries[n] == entries.last());
    if is_audio_of(entries.last(), v) {
        if user_audio_muted(entries, v) {
            let k = choose|k: int|
                0 <= k < entries.len() && is_audio_of(#[trigger] entries[k], v) && entries[k].record.muted
                    && forall|m: int| k < m < entries.len() ==> !is_audio_of(#[trigger] entries[m], v);
            assert(k == n);
        }
    } else {
        if user_audio_muted(entries, v) {
            let k = choose|k: int|
                0 <= k < entries.len() && is_audio_of(#[trigger] entries[k], v) && entries[k].record.muted
                    && forall|m: int| k < m < entries.len() ==> !is_audio_of(#[trigger] entries[m], v);
            assert(k < n);
            assert(prev[k] == entries[k]);
            assert forall|m: int| k < m < prev.len() implies !is_audio_of(#[trigger] prev[m], v) by {
                assert(prev[m] == entries[m]);
            }
        }
        if user_audio_muted(prev, v) {
            let k = choose|k: int|
                0 <= k < prev.len() && is_audio_of(#[trigger] prev[k], v) && prev[k].record.muted
                    && forall|m: int| k < m < prev.len() ==> !is_audio_of(#[trigger] prev[m], v);
            assert(prev[k] == entries[k]);
            assert forall|m: int| k < m < entries.len() implies !is_audio_of(#[trigger] entries[m], v) by {
                if m < n {
                    assert(prev[m] == entries[m]);
                }
            }
        }
    }
}

/// The state `st` of `user` agrees with its participants in `entries`.
pub open spec fn state_fits(entries: Seq<ParticipantEntry>, user: Seq<char>, st: ParticipantState) -> bool {
    &&& st.connected
    &&& st.muted == user_audio_muted(entries, user)
    &&& exists|k: int|
        first_of_user(entries, user, k) && st.identity == entries[k].record.identity && st.name
            == entries[k].record.name
}

proof fn lemma_fits_other(entries: Seq<ParticipantEntry>, v: Seq<char>, st: ParticipantState)
    requires
        entries.len() > 0,
        state_fits(entries.drop_last(), v, st),
        user_of(entries.last()) != Some(v),
    ensures
        state_fits(entries, v, st),
{
    let prev = entries.drop_last();
    lemma_audio_muted_step(entries, v);
    let k = choose|k: int|
        first_of_user(prev, v, k) && st.identity == prev[k].record.identity && st.name
            == prev[k].record.name;
    assert(entries[k] == prev[k]);
    assert forall|m: int| 0 <= m < k implies user_of(#[trigger] entries[m]) != Some(v) by {
        assert(entries[m] == prev[m]);
    }
    assert(first_of_user(entries, v, k));
}

proof fn lemma_fits_merge(entries: Seq<ParticipantEntry>, v: Seq<char>, st: ParticipantState, track: Seq<char>)
    requires
        entries.len() > 0,
        state_fits(entries.drop_last(), v, st),
        parse_identity(entries.last().record.identity@) == Some((v, track)),
    ensures
        state_fits(entries, v, merge_record(st, entries.last().record, track)),
{
    let prev = entries.drop_last();
    lemma_audio_muted_step(entries, v);
    let k = choose|k: int|
        first_of_user(prev, v, k) && st.identity == prev[k].record.identity && st.name
            == prev[k].record.name;
    assert(entries[k] == prev[k]);
    assert forall|m: int| 0 <= m < k implies user_of(#[trigger] entries[m]) != Some(v) by {
        assert(entries[m] == prev[m]);
    }
    assert(first_of_user(entries, v, k));
}

proof fn lemma_fits_fresh(entries: Seq<ParticipantEntry>, v: Seq<char>, track: Seq<char>)
    requires
        entries.len() > 0,
        forall|m: int| 0 <= m < entries.len() - 1 ==> user_of(#[trigger] entries.drop_last()[m]) != Some(v),
        parse_identity(entries.last().record.identity@) == Some((v, track)),
    ensures
        state_fits(
            entries,
            v,
            merge_record(fresh_state(entries.last().record), entries.last().record, track),
        ),
{
    let prev = entries.drop_last();
    let n = entries.len() - 1;
    lemma_audio_muted_step(entries, v);
    assert(!user_audio_muted(prev, v)) by {
        if user_audio_muted(prev, v) {
            let k = choose|k: int|
                0 <= k < prev.len() && is_audio_of(#[trigger] prev[k], v) && prev[k].record.muted
                    && forall|m: int| k < m < prev.len() ==> !is_audio_of(#[trigger] prev[m], v);
            assert(user_of(prev[k]) == Some(v));
        }
    }
    assert(entries[n] == entries.last());
    assert forall|m: int| 0 <= m < n implies user_of(#[trigger] entries[m]) != Some(v) by {
        assert(entries[m] == prev[m]);
    }
    assert(first_of_user(entries, v, n));
}

proof fn lemma_fold_fields(entries: Seq<ParticipantEntry>)
    ensures
        forall|i: int|
            0 <= i < snapshot_fold(entries).0.len() ==> state_fits(
                entries,
                snapshot_fold(entries).0[i],
                #[trigger] snapshot_fold(entries).1[i],
            ),
    decreases entries.len(),
{
    lemma_fold_distinct(entries);
    if entries.len() > 0 {
        let prev = entries.drop_last();
        lemma_fold_fields(prev);
        lemma_fold_distinct(prev);
        let (users, states) = snapshot_fold(prev);
        let (users2, states2) = snapshot_fold(entries);
        let e = entries.last();
        match parse_identity(e.record.identity@) {
            None => {
                assert forall|i: int| 0 <= i < users2.len() implies state_fits(
                    entries,
                    users2[i],
                    #[trigger] states2[i],
                ) by {
                    lemma_fits_other(entries, users2[i], states2[i]);
                }
            },
            Some((u, track)) => {
                lemma_user_index(users, u);
                let j = user_index(users, u);
                if j < 0 {
                    lemma_fold_cover(prev);
                    assert forall|m: int| 0 <= m < prev.len() implies user_of(#[trigger] prev[m]) != Some(u) by {
                        if user_of(prev[m]) == Some(u) {
                            assert(user_of(prev[m]) is Some);
                        }
                    }
                    lemma_fits_fresh(entries, u, track);
                }
                assert forall|i: int| 0 <= i < users2.len() implies state_fits(
                    entries,
                    users2[i],
                    #[trigger] states2[i],
                ) by {
                    if i < users.len() {
                        assert(users2[i] == users[i]);
                        if i == j {
                            lemma_fits_merge(entries, u, states[i], track);
                        } else {
                            assert(users[i] != u);
                            assert(states2[i] == states[i]);
                            lemma_fits_other(entries, users2[i], states2[i]);
                        }
                    }
                }
            },
        }
    }
}

/// Every user in the snapshot is connected; it is muted exactly when its
/// last audio participant is (not muted without one), whatever the order of
/// its other participants; and it carries the identity and name of its first
/// participant.
pub proof fn law_snapshot_mute_comes_from_audio(entries: Seq<ParticipantEntry>)
    ensures
        forall|i: int|
            0 <= i < snapshot_of(entries).len() ==> {
                &&& (#[trigger] snapshot_of(entries)[i]).connected
                &&& snapshot_of(entries)[i].muted == user_audio_muted(entries, snapshot_fold(entries).0[i])
                &&& exists|k: int|
                    first_of_user(entries, snapshot_fold(entries).0[i], k)
                        && snapshot_of(entries)[i].identity == entries[k].record.identity
                        && snapshot_of(entries)[i].name == entries[k].record.name
            },
{
    lemma_fold_fields(entries);
    lemma_fold_distinct(entries);
    assert forall|i: int| 0 <= i < snapshot_of(entries).len() implies {
        &&& (#[trigger] snapshot_of(entries)[i]).connected
        &&& snapshot_of(entries)[i].muted == user_audio_muted(entries, snapshot_fold(entries).0[i])
        &&& exists|k: int|
            first_of_user(entries, snapshot_fold(entries).0[i], k)
                && snapshot_of(entries)[i].identity == entries[k].record.identity
                && snapshot_of(entries)[i].name == entries[k].record.name
    } by {
        assert(state_fits(entries, snapshot_fold(entries).0[i], snapshot_fold(entries).1[i]));
    }
}

/// Whether any participant has its camera on.
pub fn any_camera_active(entries: &[ParticipantEntry]) -> (r: bool)
    ensures
        r == exists|k: int| 0 <= k < entries@.len() && entries@[k].record.camera_active,
{
    let mut i: usize = 0;
    while i < entries.len()
        invariant
            i <= entries@.len(),
            forall|k: int| 0 <= k < i ==> !entries@[k].record.camera_active,
        decreases entries@.len() - i,
    {
        if entries[i].record.camera_active {
            return true;
        }
        i += 1;
    }
    false
}

/// Participants whose identity mentions `video` are the screen share
/// publishers and are not kept in the participant table.
pub fn should_track_participant(identity: &str) -> (r: bool)
    ensures
        r == !contains_seq(identity@, "video"@),
{
    let id = chars_of(identity);
    let video = chars_of("video");
    !contains_chars(id.as_slice(), video.as_slice())
}

/// The SID of a participant with the given identity, if there is one.
pub fn find_sid_by_identity(entries: &[ParticipantEntry], identity: &str) -> (r: Option<String>)
    ensures
        r is None <==> forall|k: int|
            0 <= k < entries@.len() ==> entries@[k].record.identity@ != identity@,
        r matches Some(sid) ==> exists|k: int|
            0 <= k < entries@.len() && entries@[k].record.identity@ == identity@ && entries@[k].sid
                == sid,
{
    let wanted = chars_of(identity);
    let mut i: usize = 0;
    while i < entries.len()
        invariant
            i <= entries@.len(),
            wanted@ == identity@,
            forall|k: int| 0 <= k < i ==> entries@[k].record.identity@ != identity@,
        decreases entries@.len() - i,
    {
        let id = chars_of(entries[i].record.identity.as_str());
        if chars_eq(id.as_slice(), wanted.as_slice()) {
            return Some(entries[i].sid.clone());
        }
        i += 1;
    }
    None
}

/// The identity of the audio participant that belongs to a screen share
/// (video) participant: `...:video` becomes `...:audio`.
pub open spec fn audio_identity_for(video_identity: Seq<char>) -> Option<Seq<char>> {
    match strip_suffix_seq(video_identity, ":video"@) {
        Some(prefix) => Some(prefix + ":audio"@),
        None => None,
    }
}

/// The SID the screen share window is opened for: the SID of the sharer's
/// audio participant where it is in the table, else the screen share
/// participant's own SID.
pub fn sharer_sid_for(entries: &[ParticipantEntry], video_identity: &str, participant_sid: &str) -> (r: String)
    ensures
        match audio_identity_for(video_identity@) {
            Some(audio_id) => if exists|k: int|
                0 <= k < entries@.len() && entries@[k].record.identity@ == audio_id {
                exists|k: int|
                    0 <= k < entries@.len() && entries@[k].record.identity@ == audio_id
                        && entries@[k].sid@ == r@
            } else {
                r@ == participant_sid@
            },
            None => r@ == participant_sid@,
        },
{
    let id = chars_of(video_identity);
    let suffix = chars_of(":video");
    proof {
        reveal_strlit(":video");
        reveal_strlit(":audio");
    }
    match strip_suffix_chars(id.as_slice(), suffix.as_slice()) {
        Some(prefix) => {
            let mut audio = prefix;
            let tail = chars_of(":audio");
            let mut k: usize = 0;
            let ghost p = audio@;
            while k < tail.len()
                invariant
                    k <= tail@.len(),
                    tail@ == ":audio"@,
                    audio@ == p + tail@.take(k as int),
                decreases tail@.len() - k,
            {
                audio.push(tail[k]);
                k += 1;
                assert(audio@ =~= p + tail@.take(k as int));
            }
            assert(tail@.take(tail@.len() as int) =~= tail@);
            let audio_id = string_from_chars(audio.as_slice());
            match find_sid_by_identity(entries, audio_id.as_str()) {
                Some(sid) => sid,
                None => String::from_str(participant_sid),
            }
        },
        None => String::from_str(participant_sid),
    }
}

/// Whether the local audio is muted; without a local participant it counts
/// as muted.
pub fn is_audio_muted(entries: &[ParticipantEntry]) -> (r: bool)
    ensures
        forall|k: int|
            0 <= k < entries@.len() && entries@[k].sid@ == local_key() && (forall|m: int|
                0 <= m < k ==> entries@[m].sid@ != local_key()) ==> r == entries@[k].record.muted,
        (forall|k: int| 0 <= k < entries@.len() ==> entries@[k].sid@ != local_key()) ==> r,
{
    let local = chars_of("local");
    proof {
        reveal_strlit("local");
    }
    let mut i: usize = 0;
    while i < entries.len()
        invariant
            i <= entries@.len(),
            local@ == local_key(),
            forall|k: int| 0 <= k < i ==> entries@[k].sid@ != local_key(),
        decreases entries@.len() - i,
    {
        let sid = chars_of(entries[i].sid.as_str());
        if chars_eq(sid.as_slice(), local.as_slice()) {
            return entries[i].record.muted;
        }
        i += 1;
    }
    true
}

/// Whether `sid` is among `speakers`.
pub open spec fn is_speaker(speakers: Seq<String>, sid: Seq<char>) -> bool {
    exists|k: int| 0 <= k < speakers.len() && speakers[k]@ == sid
}

/// The active speakers changed: a participant speaks exactly when its SID is
/// among `speakers`; nothing else changes.
pub fn update_speaking(entries: &mut Vec<ParticipantEntry>, speakers: &[String])
    ensures
        final(entries)@.len() == old(entries)@.len(),
        forall|i: int|
            0 <= i < final(entries)@.len() ==> {
                &&& (#[trigger] final(entries)@[i]).sid == old(entries)@[i].sid
                &&& final(entries)@[i].record.identity == old(entries)@[i].record.identity
                &&& final(entries)@[i].record.name == old(entries)@[i].record.name
                &&& final(entries)@[i].record.muted == old(entries)@[i].record.muted
                &&& final(entries)@[i].record.is_screensharing
                    == old(entries)@[i].record.is_screensharing
                &&& final(entries)@[i].record.camera_active
                    == old(entries)@[i].record.camera_active
                &&& final(entries)@[i].record.is_speaking == is_speaker(
                    speakers@,
                    old(entries)@[i].sid@,
                )
            },
{
    let ghost before = entries@;
    let mut i: usize = 0;
    while i < entries.len()
        invariant
            i <= entries@.len(),
            entries@.len() == before.len(),
            forall|j: int|
                i <= j < entries@.len() ==> #[trigger] entries@[j] == before[j],
            forall|j: int|
                0 <= j < i ==> {
                    &&& (#[trigger] entries@[j]).sid == before[j].sid
                    &&& entries@[j].record.identity == before[j].record.identity
                    &&& entries@[j].record.name == before[j].record.name
                    &&& entries@[j].record.muted == before[j].record.muted
                    &&& entries@[j].record.is_screensharing == before[j].record.is_screensharing
                    &&& entries@[j].record.camera_active == before[j].record.camera_active
                    &&& entries@[j].record.is_speaking == is_speaker(speakers@, before[j].sid@)
                },
        decreases entries@.len() - i,
    {
        let mut speaking = false;
        let mut k: usize = 0;
        while k < speakers.len()
            invariant
                k <= speakers@.len(),
                i < entries@.len(),
                speaking == exists|m: int| 0 <= m < k && speakers@[m]@ == entries@[i as int].sid@,
            decreases speakers@.len() - k,
        {
            if speakers[k] == entries[i].sid {
                speaking = true;
            }
            k += 1;
        }
        let e = ParticipantEntry {
            sid: entries[i].sid.clone(),
            record: ParticipantRecord {
                identity: entries[i].record.identity.clone(),
                name: entries[i].record.name.clone(),
                muted: entries[i].record.muted,
                is_speaking: speaking,
                is_screensharing: entries[i].record.is_screensharing,
                camera_active: entries[i].record.camera_active,
            },
        };
        entries.set(i, e);
        i += 1;
    }
}


/// No two rows of the table share a SID: the table is a map keyed by SID.
pub open spec fn sids_unique(entries: Seq<ParticipantEntry>) -> bool {
    forall|i: int, j: int|
        0 <= i < entries.len() && 0 <= j < entries.len() && i != j ==> (#[trigger] entries[i]).sid@
            != (#[trigger] entries[j]).sid@
}

/// Whether some row of the table has the given SID.
pub open spec fn has_sid(entries: Seq<ParticipantEntry>, sid: Seq<char>) -> bool {
    exists|k: int| 0 <= k < entries.len() && (#[trigger] entries[k]).sid@ == sid
}

/// The row of the given SID (meaningful when `has_sid`).
pub open spec fn sid_index(entries: Seq<ParticipantEntry>, sid: Seq<char>) -> int {
    choose|k: int| 0 <= k < entries.len() && (#[trigger] entries[k]).sid@ == sid
}

/// The table without the row of `sid`; unchanged when there is none.
pub open spec fn without_sid(entries: Seq<ParticipantEntry>, sid: Seq<char>) -> Seq<ParticipantEntry> {
    if has_sid(entries, sid) {
        entries.remove(sid_index(entries, sid))
    } else {
        entries
    }
}

/// Whether a participant joins the table: screen share publishers never do,
/// and a SID already present is kept as it is.
pub open spec fn joins_table(entries: Seq<ParticipantEntry>, entry: ParticipantEntry) -> bool {
    !contains_seq(entry.record.identity@, "video"@) && !has_sid(entries, entry.sid@)
}

fn position_of_sid(entries: &[ParticipantEntry], sid: &str) -> (r: Option<usize>)
    ensures
        r is None <==> !has_sid(entries@, sid@),
        r matches Some(k) ==> k < entries@.len() && entries@[k as int].sid@ == sid@,
{
    let wanted = chars_of(sid);
    let mut i: usize = 0;
    while i < entries.len()
        invariant
            i <= entries@.len(),
            wanted@ == sid@,
            forall|k: int| 0 <= k < i ==> (#[trigger] entries@[k]).sid@ != sid@,
        decreases entries@.len() - i,
    {
        let here = chars_of(entries[i].sid.as_str());
        if chars_eq(here.as_slice(), wanted.as_slice()) {
            return Some(i);
        }
        i += 1;
    }
    None
}

proof fn lemma_unique_index(entries: Seq<ParticipantEntry>, sid: Seq<char>, k: int)
    requires
        sids_unique(entries),
        0 <= k < entries.len(),
        entries[k].sid@ == sid,
    ensures
        has_sid(entries, sid),
        sid_index(entries, sid) == k,
{
    assert(has_sid(entries, sid));
    let c = sid_index(entries, sid);
    if c != k {
        assert(entries[c].sid@ != entries[k].sid@);
    }
}

proof fn lemma_remove_keeps_unique(entries: Seq<ParticipantEntry>, k: int)
    requires
        sids_unique(entries),
        0 <= k < entries.len(),
    ensures
        sids_unique(entries.remove(k)),
        !has_sid(entries.remove(k), entries[k].sid@),
        forall|m: int|
            0 <= m < entries.remove(k).len() ==> #[trigger] entries.remove(k)[m] == entries[if m < k {
                m
            } else {
                m + 1
            }],
{
    let r = entries.remove(k);
    assert forall|m: int| 0 <= m < r.len() implies #[trigger] r[m] == entries[if m < k {
        m
    } else {
        m + 1
    }] by {}
    assert forall|i: int, j: int|
        0 <= i < r.len() && 0 <= j < r.len() && i != j implies (#[trigger] r[i]).sid@
        != (#[trigger] r[j]).sid@ by {
        let a = if i < k {
            i
        } else {
            i + 1
        };
        let b = if j < k {
            j
        } else {
            j + 1
        };
        assert(r[i] == entries[a]);
        assert(r[j] == entries[b]);
        assert(entries[a].sid@ != entries[b].sid@);
    }
    if has_sid(r, entries[k].sid@) {
        let m = choose|m: int| 0 <= m < r.len() && (#[trigger] r[m]).sid@ == entries[k].sid@;
        let a = if m < k {
            m
        } else {
            m + 1
        };
        assert(r[m] == entries[a]);
        assert(entries[a].sid@ != entries[k].sid@);
    }
}

/// Enters a remote participant in the table unless it publishes the screen
/// share (its identity mentions `video`) or its SID is already there.
/// Returns whether it was entered; the table stays keyed by SID.
pub fn insert_participant_if_absent(entries: &mut Vec<ParticipantEntry>, entry: ParticipantEntry) -> (r: bool)
    requires
        sids_unique(old(entries)@),
    ensures
        sids_unique(final(entries)@),
        r == joins_table(old(entries)@, entry),
        r ==> final(entries)@ == old(entries)@.push(entry),
        !r ==> final(entries)@ == old(entries)@,
{
    if !should_track_participant(entry.record.identity.as_str()) {
        return false;
    }
    match position_of_sid(entries.as_slice(), entry.sid.as_str()) {
        Some(_) => false,
        None => {
            let ghost before = entries@;
            let ghost added = entry;
            entries.push(entry);
            proof {
                assert forall|i: int, j: int|
                    0 <= i < entries@.len() && 0 <= j < entries@.len() && i != j implies (
                    #[trigger] entries@[i]).sid@ != (#[trigger] entries@[j]).sid@ by {
                    if i == before.len() {
                        assert(before[j] == entries@[j]);
                    } else if j == before.len() {
                        assert(before[i] == entries@[i]);
                    } else {
                        assert(before[i] == entries@[i]);
                        assert(before[j] == entries@[j]);
                    }
                }
            }
            true
        },
    }
}

/// Removes the row of `sid` and returns it; `None`, with the table
/// unchanged, when no row has it. The table stays keyed by SID.
pub fn remove_participant(entries: &mut Vec<ParticipantEntry>, sid: &str) -> (r: Option<ParticipantEntry>)
    requires
        sids_unique(old(entries)@),
    ensures
        sids_unique(final(entries)@),
        final(entries)@ == without_sid(old(entries)@, sid@),
        !has_sid(final(entries)@, sid@),
        r is None <==> !has_sid(old(entries)@, sid@),
        r matches Some(e) ==> e == old(entries)@[sid_index(old(entries)@, sid@)],
{
    match position_of_sid(entries.as_slice(), sid) {
        None => None,
        Some(k) => {
            proof {
                lemma_unique_index(entries@, sid@, k as int);
                lemma_remove_keeps_unique(entries@, k as int);
            }
            let e = entries.remove(k);
            Some(e)
        },
    }
}

/// The table with the row of `sid`, if any, marked muted or not; nothing
/// else changes.
pub open spec fn with_muted(entries: Seq<ParticipantEntry>, sid: Seq<char>, muted: bool) -> Seq<ParticipantEntry> {
    if has_sid(entries, sid) {
        let k = sid_index(entries, sid);
        entries.update(
            k,
            ParticipantEntry {
                sid: entries[k].sid,
                record: ParticipantRecord {
                    identity: entries[k].record.identity,
                    name: entries[k].record.name,
                    muted,
                    is_speaking: entries[k].record.is_speaking,
                    is_screensharing: entries[k].record.is_screensharing,
                    camera_active: entries[k].record.camera_active,
                },
            },
        )
    } else {
        entries
    }
}

/// Marks the row of `sid`, if any, muted or unmuted.
pub fn set_participant_muted(entries: &mut Vec<ParticipantEntry>, sid: &str, muted: bool)
    requires
        sids_unique(old(entries)@),
    ensures
        sids_unique(final(entries)@),
        final(entries)@ == with_muted(old(entries)@, sid@, muted),
{
    match position_of_sid(entries.as_slice(), sid) {
        None => {},
        Some(k) => {
            let ghost before = entries@;
            proof {
                lemma_unique_index(entries@, sid@, k as int);
            }
            let mut e = entries.remove(k);
            e.record.muted = muted;
            entries.insert(k, e);
            proof {
                assert(entries@ =~= with_muted(before, sid@, muted));
                assert forall|i: int, j: int|
                    0 <= i < entries@.len() && 0 <= j < entries@.len() && i != j implies (
                    #[trigger] entries@[i]).sid@ != (#[trigger] entries@[j]).sid@ by {
                    assert(entries@[i].sid == before[i].sid);
                    assert(entries@[j].sid == before[j].sid);
                }
            }
        },
    }
}

/// The room events the participant table follows.
#[derive(Debug)]
pub enum RoomEventKind {
    /// A remote participant joined.
    ParticipantConnected(ParticipantEntry),
    /// The participant with this SID left.
    ParticipantDisconnected(String),
    /// These SIDs are the ones speaking now.
    SpeakersChanged(Vec<String>),
    /// The audio track of the participant with this SID was muted or unmuted.
    AudioMuted { sid: String, muted: bool },
}

/// What the desktop app is told after a room event, in order.
#[derive(Debug, Clone, Copy, PartialEq, Eq, Structural)]
pub enum EventAction {
    /// Announce the participant that joined.
    AnnounceConnected,
    /// Stop the audio and camera streams of the participant that left.
    StopStreams,
    /// Close the camera window: no camera is on any more.
    CloseCameraWindow,
    /// Announce the participant that left.
    AnnounceDisconnected,
    /// Send a snapshot of the table.
    SendSnapshot,
}

/// Whether any row of the table has its camera on.
pub open spec fn camera_on(entries: Seq<ParticipantEntry>) -> bool {
    exists|k: int| 0 <= k < entries.len() && (#[trigger] entries[k]).record.camera_active
}

/// How the table follows one room event, and what the desktop app is told.
/// A joining participant is entered and announced, with a snapshot, unless
/// it does not join the table (then nothing happens). A leaving participant
/// is removed, with its streams stopped; the camera window closes exactly
/// when no remaining camera is on; then the departure is announced and a
/// snapshot sent. A change of speakers only sets who speaks. A muted or
/// unmuted audio track marks its participant and sends a snapshot.
pub fn room_event_step(entries: &mut Vec<ParticipantEntry>, ev: RoomEventKind) -> (r: Vec<EventAction>)
    requires
        sids_unique(old(entries)@),
    ensures
        sids_unique(final(entries)@),
        match ev {
            RoomEventKind::ParticipantConnected(entry) => if joins_table(old(entries)@, entry) {
                &&& final(entries)@ == old(entries)@.push(entry)
                &&& r@ == seq![EventAction::AnnounceConnected, EventAction::SendSnapshot]
            } else {
                &&& final(entries)@ == old(entries)@
                &&& r@ == Seq::<EventAction>::empty()
            },
            RoomEventKind::ParticipantDisconnected(sid) => {
                &&& final(entries)@ == without_sid(old(entries)@, sid@)
                &&& r@ == (if has_sid(old(entries)@, sid@) {
                    seq![EventAction::StopStreams]
                } else {
                    Seq::empty()
                }) + (if camera_on(final(entries)@) {
                    Seq::empty()
                } else {
                    seq![EventAction::CloseCameraWindow]
                }) + seq![EventAction::AnnounceDisconnected, EventAction::SendSnapshot]
            },
            RoomEventKind::SpeakersChanged(speakers) => {
                &&& final(entries)@.len() == old(entries)@.len()
                &&& forall|i: int|
                    0 <= i < final(entries)@.len() ==> {
                        &&& (#[trigger] final(entries)@[i]).sid == old(entries)@[i].sid
                        &&& final(entries)@[i].record.identity == old(entries)@[i].record.identity
                        &&& final(entries)@[i].record.name == old(entries)@[i].record.name
                        &&& final(entries)@[i].record.muted == old(entries)@[i].record.muted
                        &&& final(entries)@[i].record.is_screensharing
                            == old(entries)@[i].record.is_screensharing
                        &&& final(entries)@[i].record.camera_active
                            == old(entries)@[i].record.camera_active
                        &&& final(entries)@[i].record.is_speaking == is_speaker(
                            speakers@,
                            old(entries)@[i].sid@,
                        )
                    }
                &&& r@ == Seq::<EventAction>::empty()
            },
            RoomEventKind::AudioMuted { sid, muted } => {
                &&& final(entries)@ == with_muted(old(entries)@, sid@, muted)
                &&& r@ == seq![EventAction::SendSnapshot]
            },
        },
{
    let mut actions: Vec<EventAction> = Vec::new();
    match ev {
        RoomEventKind::ParticipantConnected(entry) => {
            if insert_participant_if_absent(entries, entry) {
                actions.push(EventAction::AnnounceConnected);
                actions.push(EventAction::SendSnapshot);
            }
        },
        RoomEventKind::ParticipantDisconnected(sid) => {
            let removed = remove_participant(entries, sid.as_str());
            if removed.is_some() {
                actions.push(EventAction::StopStreams);
            }
            if !any_camera_active(entries.as_slice()) {
                actions.push(EventAction::CloseCameraWindow);
            }
            actions.push(EventAction::AnnounceDisconnected);
            actions.push(EventAction::SendSnapshot);
            proof {
                assert(actions@ =~= (if has_sid(old(entries)@, sid@) {
                    seq![EventAction::StopStreams]
                } else {
                    Seq::empty()
                }) + (if camera_on(entries@) {
                    Seq::empty()
                } else {
                    seq![EventAction::CloseCameraWindow]
                }) + seq![EventAction::AnnounceDisconnected, EventAction::SendSnapshot]);
            }
        },
        RoomEventKind::SpeakersChanged(speakers) => {
            update_speaking(entries, speakers.as_slice());
            proof {
                assert forall|i: int, j: int|
                    0 <= i < entries@.len() && 0 <= j < entries@.len() && i != j implies (
                    #[trigger] entries@[i]).sid@ != (#[trigger] entries@[j]).sid@ by {
                    assert(entries@[i].sid == old(entries)@[i].sid);
                    assert(entries@[j].sid == old(entries)@[j].sid);
                }
            }
        },
        RoomEventKind::AudioMuted { sid, muted } => {
            set_participant_muted(entries, sid.as_str(), muted);
            actions.push(EventAction::SendSnapshot);
        },
    }
    actions
}

/// A participant that joins and then leaves leaves the table as it found it.
pub proof fn law_join_then_leave(entries: Seq<ParticipantEntry>, entry: ParticipantEntry)
    requires
        sids_unique(entries),
        joins_table(entries, entry),
    ensures
        without_sid(entries.push(entry), entry.sid@) == entries,
{
    let grown = entries.push(entry);
    assert forall|i: int, j: int|
        0 <= i < grown.len() && 0 <= j < grown.len() && i != j implies (#[trigger] grown[i]).sid@
        != (#[trigger] grown[j]).sid@ by {
        if i == entries.len() {
            assert(grown[j] == entries[j]);
        } else if j == entries.len() {
            assert(grown[i] == entries[i]);
        } else {
            assert(grown[i] == entries[i]);
            assert(grown[j] == entries[j]);
        }
    }
    lemma_unique_index(grown, entry.sid@, entries.len() as int);
    assert(grown.remove(entries.len() as int) =~= entries);
}

} // verus!
