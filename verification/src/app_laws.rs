//! Properties that every state of the application keeps, and how its operations relate.
use vstd::prelude::*;
use crate::track::TrackInfo;
use crate::worker::{
    TrackOutcome, download_session, downloaded_part, fetch_begun, fetch_reported, fetch_session,
    fetched_part, run_finished, saved_count,
    track_begun, track_failed, track_messages, track_saved,
};
use crate::app::{
    AppState, KeyCode, KeyEvent, MsgView, OutcomeView, after_key, after_msg,
    char_inserted, cleared, download_started, enqueued, fetch_started, input_submitted,
    is_ctrl_char, key_fits, log_capacity, logged, msg_fits, types_char, with_status, first_with_id,
    LogLine, insert_at, remove_at, backspaced,
};

verus! {

/// Every track has an id below the id counter, and no two tracks share an id.
pub open spec fn ids_fresh(s: AppState) -> bool {
    &&& forall|i: int| 0 <= i < s.tracks.len() ==> #[trigger] s.tracks[i].id < s.next_id
    &&& forall|i: int, j: int|
        0 <= i < s.tracks.len() && 0 <= j < s.tracks.len() && i != j ==> #[trigger] s.tracks[i].id
            != #[trigger] s.tracks[j].id
}

/// The cursor is within the input, the table offset within the table, the log within its capacity.
pub open spec fn in_bounds(s: AppState) -> bool {
    &&& s.cursor <= s.input.len()
    &&& (s.track_offset == 0 || s.track_offset < s.tracks.len())
    &&& s.log.len() <= log_capacity()
}

/// The invariant of the application state.
pub open spec fn well_formed(s: AppState) -> bool {
    ids_fresh(s) && in_bounds(s)
}

proof fn lemma_logged(s: AppState, l: LogLine)
    requires
        well_formed(s),
    ensures
        well_formed(logged(s, l)),
        logged(s, l).tracks == s.tracks,
        logged(s, l).input == s.input,
        logged(s, l).cursor == s.cursor,
{
}

proof fn lemma_with_status(ts: Seq<crate::app::TrackState>, id: usize, st: crate::app::StatusView)
    ensures
        with_status(ts, id, st).len() == ts.len(),
        forall|i: int| 0 <= i < ts.len() ==> #[trigger] with_status(ts, id, st)[i].id == ts[i].id,
{
}

proof fn lemma_submitted(s: AppState)
    requires
        well_formed(s),
    ensures
        well_formed(input_submitted(s)),
        input_submitted(s).tracks == s.tracks,
        input_submitted(s).fetching == s.fetching,
{
    let url = crate::text::trimmed(s.input);
    lemma_logged(s, crate::app::queued_line(url));
}

/// Handling a worker message keeps the state well formed: in particular a new track gets an id
/// that no track has.
pub proof fn lemma_msg_keeps_invariant(s: AppState, m: MsgView)
    requires
        well_formed(s),
        msg_fits(s, m),
    ensures
        well_formed(after_msg(s, m)),
{
    match m {
        MsgView::SetStatus(id, st) => {
            lemma_with_status(s.tracks, id, st);
        },
        MsgView::Log(l) => {
            lemma_logged(s, l);
        },
        _ => {},
    }
}

/// Handling a key press keeps the state well formed.
pub proof fn lemma_key_keeps_invariant(s: AppState, k: KeyEvent)
    requires
        well_formed(s),
        key_fits(s, k),
    ensures
        well_formed(after_key(s, k).0),
{
    lemma_logged(s, crate::app::no_pending_line());
    lemma_logged(s, crate::app::busy_downloading_line());
    lemma_submitted(s);
    let t = input_submitted(s);
    lemma_logged(t, crate::app::no_urls_line());
    lemma_logged(t, crate::app::busy_fetching_line());
    lemma_logged(
        AppState {
            tracks: Seq::empty(),
            urls: Seq::empty(),
            log: Seq::empty(),
            progress: (0, 0),
            fetching: false,
            downloading: false,
            track_offset: 0,
            ..s
        },
        LogLine::Dim("Cleared."@),
    );
}

/// Typing a character and then pressing Backspace gives back the input and cursor.
pub proof fn lemma_type_then_backspace(s: AppState, k: KeyEvent, b: KeyEvent)
    requires
        in_bounds(s),
        types_char(s, k),
        s.cursor < usize::MAX,
        b.code == KeyCode::Backspace,
    ensures
        after_key(after_key(s, k).0, b).0 == s,
{
    let c = k.code->Char_0;
    let t = char_inserted(s, c);
    assert(after_key(s, k).0 == t);
    assert(remove_at(insert_at(s.input, s.cursor as int, c), s.cursor as int) =~= s.input);
}

/// Pressing Left and then Delete does what Backspace does, when the cursor is not at the start.
pub proof fn lemma_left_delete_is_backspace(s: AppState, l: KeyEvent, d: KeyEvent, b: KeyEvent)
    requires
        in_bounds(s),
        s.cursor > 0,
        l.code == KeyCode::Left,
        d.code == KeyCode::Delete,
        b.code == KeyCode::Backspace,
    ensures
        after_key(after_key(s, l).0, d) == after_key(s, b),
{
}

/// Control-D does what F6 does.
pub proof fn lemma_ctrl_d_is_f6(s: AppState, k: KeyEvent, f: KeyEvent)
    requires
        is_ctrl_char(k, 'd'),
        f.code == KeyCode::F(6),
    ensures
        after_key(s, k) == after_key(s, f),
{
}

/// Clearing twice leaves what clearing once leaves.
pub proof fn lemma_clear_idempotent(s: AppState)
    ensures
        cleared(cleared(s)) == cleared(s),
{
    assert(cleared(cleared(s)) =~= cleared(s));
}

/// A fetch that started cannot be started again until it reports that it is done.
pub proof fn lemma_fetch_not_restarted(s: AppState)
    requires
        fetch_started(s).1 is Some,
    ensures
        fetch_started(fetch_started(s).0).1 is None,
        fetch_started(after_msg(fetch_started(s).0, MsgView::FetchDone)).1 is Some,
{
}

/// A download that started cannot be started again until it reports that it is done.
pub proof fn lemma_download_not_restarted(s: AppState)
    requires
        download_started(s).1 is Some,
    ensures
        download_started(download_started(s).0).1 is None,
        download_started(after_msg(download_started(s).0, MsgView::DownloadDone)).1 is Some,
{
}

/// A key that quits changes nothing.
pub proof fn lemma_quit_changes_nothing(s: AppState, k: KeyEvent)
    requires
        after_key(s, k).1 == OutcomeView::Quit,
    ensures
        after_key(s, k).0 == s,
{
}

/// Queuing a URL appends it to the queue and keeps the earlier ones in order.
pub proof fn lemma_enqueue_appends(s: AppState, url: Seq<char>)
    ensures
        enqueued(s, url).urls == s.urls.push(url),
        enqueued(s, url).tracks == s.tracks,
{
}


/// A status message changes the status of the track with that id, in a well-formed state the
/// only one, and nothing else; a message for an id no track has changes nothing.
pub proof fn lemma_status_message_targets_its_track(s: AppState, id: usize, st: crate::app::StatusView)
    requires
        well_formed(s),
    ensures
        after_msg(s, MsgView::SetStatus(id, st)).tracks.len() == s.tracks.len(),
        forall|i: int| 0 <= i < s.tracks.len() ==> {
            let t = #[trigger] after_msg(s, MsgView::SetStatus(id, st)).tracks[i];
            &&& t.id == s.tracks[i].id
            &&& t.data == s.tracks[i].data
            &&& t.status == (if s.tracks[i].id == id { st } else { s.tracks[i].status })
        },
{
    if exists|i: int| first_with_id(s.tracks, id, i) {
        let k = choose|i: int| first_with_id(s.tracks, id, i);
        assert forall|i: int| 0 <= i < s.tracks.len() && s.tracks[i].id == id implies i == k by {
            if i != k {
                assert(s.tracks[i].id != s.tracks[k].id);
            }
        }
    } else {
        assert forall|i: int| 0 <= i < s.tracks.len() implies s.tracks[i].id != id by {
            if s.tracks[i].id == id {
                assert forall|j: int| 0 <= j < i implies s.tracks[j].id != id by {
                    assert(s.tracks[j].id != s.tracks[i].id);
                }
                assert(first_with_id(s.tracks, id, i));
            }
        }
    }
}

/// A new track goes to the end of the table as pending, under an id no other track has, and a
/// later status message with that id reaches it.
pub proof fn lemma_added_track_is_addressable(s: AppState, d: crate::track::TrackInfo, st: crate::app::StatusView)
    requires
        well_formed(s),
        s.next_id < usize::MAX,
    ensures
        ({
            let t = after_msg(s, MsgView::TrackAdded(d));
            let id = s.next_id;
            &&& t.tracks.len() == s.tracks.len() + 1
            &&& t.tracks.last() == crate::app::TrackState { id, data: d, status: crate::app::StatusView::Pending }
            &&& forall|i: int| 0 <= i < s.tracks.len() ==> #[trigger] s.tracks[i].id != id
            &&& after_msg(t, MsgView::SetStatus(id, st)).tracks.last().status == st
        }),
{
    let t = after_msg(s, MsgView::TrackAdded(d));
    lemma_msg_keeps_invariant(s, MsgView::TrackAdded(d));
    lemma_status_message_targets_its_track(t, s.next_id, st);
    assert(t.tracks[t.tracks.len() - 1].id == s.next_id);
}


/// The state after the messages, handled in order.
pub open spec fn after_msgs(s: AppState, ms: Seq<MsgView>) -> AppState
    decreases ms.len(),
{
    if ms.len() == 0 {
        s
    } else {
        after_msgs(after_msg(s, ms[0]), ms.drop_first())
    }
}

proof fn lemma_after_msgs_split(s: AppState, a: Seq<MsgView>, b: Seq<MsgView>)
    ensures
        after_msgs(s, a + b) == after_msgs(after_msgs(s, a), b),
    decreases a.len(),
{
    if a.len() > 0 {
        assert((a + b).drop_first() =~= a.drop_first() + b);
        lemma_after_msgs_split(after_msg(s, a[0]), a.drop_first(), b);
    } else {
        assert(a + b =~= b);
    }
}

/// The tracks that fetched metadata becomes: pending, under consecutive ids from `first`.
pub open spec fn added_tracks(first: usize, ts: Seq<TrackInfo>) -> Seq<crate::app::TrackState> {
    Seq::new(ts.len(), |i: int| crate::app::TrackState { id: (first + i) as usize, data: ts[i], status: crate::app::StatusView::Pending })
}

proof fn lemma_tracks_added(s: AppState, ts: Seq<TrackInfo>)
    requires
        s.next_id + ts.len() < usize::MAX,
    ensures
        ({
            let t = after_msgs(s, ts.map_values(|d: TrackInfo| MsgView::TrackAdded(d)));
            &&& t.tracks == s.tracks + added_tracks(s.next_id, ts)
            &&& t.next_id == s.next_id + ts.len()
            &&& t == AppState { tracks: t.tracks, next_id: t.next_id, ..s }
        }),
    decreases ts.len(),
{
    let ms = ts.map_values(|d: TrackInfo| MsgView::TrackAdded(d));
    if ts.len() == 0 {
        assert(s.tracks + added_tracks(s.next_id, ts) =~= s.tracks);
    } else {
        let s1 = after_msg(s, ms[0]);
        let rest = ts.drop_first();
        assert(ms.drop_first() =~= rest.map_values(|d: TrackInfo| MsgView::TrackAdded(d)));
        lemma_tracks_added(s1, rest);
        assert(s1.tracks + added_tracks(s1.next_id, rest) =~= s.tracks + added_tracks(s.next_id, ts));
    }
}

/// The messages that report a successful fetch add every track found, in order, as pending
/// tracks under consecutive fresh ids, and then log how many there were.
pub proof fn lemma_fetch_report_adds_tracks(s: AppState, ts: Seq<TrackInfo>)
    requires
        s.next_id + ts.len() < usize::MAX,
    ensures
        ({
            let t = after_msgs(s, fetch_reported(Ok(ts)));
            &&& t.tracks == s.tracks + added_tracks(s.next_id, ts)
            &&& t.next_id == s.next_id + ts.len()
            &&& t.log.last() == LogLine::Success("  ✓ "@ + crate::text::decimal(ts.len()) + " track(s) found"@)
            &&& t.urls == s.urls
            &&& t.input == s.input
            &&& t.fetching == s.fetching
        }),
{
    let adds = ts.map_values(|d: TrackInfo| MsgView::TrackAdded(d));
    let line = MsgView::Log(LogLine::Success("  ✓ "@ + crate::text::decimal(ts.len()) + " track(s) found"@));
    assert(fetch_reported(Ok(ts)) == adds + seq![line]);
    lemma_after_msgs_split(s, adds, seq![line]);
    lemma_tracks_added(s, ts);
    let mid = after_msgs(s, adds);
    assert(seq![line].drop_first() =~= Seq::<MsgView>::empty());
    assert(seq![line][0] == line);
    assert(after_msgs(after_msg(mid, line), Seq::<MsgView>::empty()) == after_msg(mid, line));
    assert(after_msgs(mid, seq![line]) == after_msg(mid, line));
}


/// A message other than a new track keeps the state well formed and the tracks' ids and data;
/// a status message for the id of track `k` gives it that status and leaves the others.
proof fn lemma_step(s: AppState, m: MsgView, k: int)
    requires
        well_formed(s),
        !(m is TrackAdded),
        0 <= k < s.tracks.len(),
        m is SetStatus ==> m->SetStatus_0 == s.tracks[k].id,
    ensures
        well_formed(after_msg(s, m)),
        after_msg(s, m).tracks.len() == s.tracks.len(),
        after_msg(s, m).tracks[k].id == s.tracks[k].id,
        after_msg(s, m).tracks[k].data == s.tracks[k].data,
        forall|j: int| 0 <= j < s.tracks.len() && j != k ==> (#[trigger] after_msg(s, m).tracks[j]) == s.tracks[j],
        m is SetStatus ==> after_msg(s, m).tracks[k].status == m->SetStatus_1,
        !(m is SetStatus) ==> after_msg(s, m).tracks == s.tracks,
        m is Progress ==> after_msg(s, m).progress == (m->Progress_0, m->Progress_1),
{
    lemma_msg_keeps_invariant(s, m);
    if let MsgView::SetStatus(id, st) = m {
        lemma_status_message_targets_its_track(s, id, st);
        assert forall|j: int| 0 <= j < s.tracks.len() && j != k implies (#[trigger] after_msg(s, m).tracks[j]) == s.tracks[j] by {
            assert(s.tracks[j].id != s.tracks[k].id);
        }
    }
}

/// Whether the messages add no track and set no status but that of track `id`.
pub open spec fn touches_only(ms: Seq<MsgView>, id: usize) -> bool {
    forall|i: int| 0 <= i < ms.len() ==> !(#[trigger] ms[i] is TrackAdded) && (ms[i] is SetStatus ==> ms[i]->SetStatus_0 == id)
}

proof fn lemma_steps(s: AppState, ms: Seq<MsgView>, k: int)
    requires
        well_formed(s),
        0 <= k < s.tracks.len(),
        touches_only(ms, s.tracks[k].id),
    ensures
        well_formed(after_msgs(s, ms)),
        after_msgs(s, ms).tracks.len() == s.tracks.len(),
        after_msgs(s, ms).tracks[k].id == s.tracks[k].id,
        after_msgs(s, ms).tracks[k].data == s.tracks[k].data,
        forall|j: int| 0 <= j < s.tracks.len() && j != k ==> #[trigger] after_msgs(s, ms).tracks[j] == s.tracks[j],
    decreases ms.len(),
{
    if ms.len() > 0 {
        assert(!(ms[0] is TrackAdded));
        lemma_step(s, ms[0], k);
        let s1 = after_msg(s, ms[0]);
        assert forall|i: int| 0 <= i < ms.drop_first().len() implies !(#[trigger] ms.drop_first()[i] is TrackAdded)
            && (ms.drop_first()[i] is SetStatus ==> ms.drop_first()[i]->SetStatus_0 == s1.tracks[k].id) by {
            assert(ms.drop_first()[i] == ms[i + 1]);
        }
        lemma_steps(s1, ms.drop_first(), k);
        assert forall|j: int| 0 <= j < s.tracks.len() && j != k implies #[trigger] after_msgs(s, ms).tracks[j] == s.tracks[j] by {
            assert(after_msgs(s1, ms.drop_first()).tracks[j] == s1.tracks[j]);
        }
    }
}

proof fn lemma_after_one(s: AppState, m: MsgView)
    ensures
        after_msgs(s, seq![m]) == after_msg(s, m),
{
    assert(seq![m].drop_first() =~= Seq::<MsgView>::empty());
    assert(seq![m][0] == m);
    assert(after_msgs(after_msg(s, m), Seq::<MsgView>::empty()) == after_msg(s, m));
}

/// The messages of a track's download that was saved leave that track done, whether or not its
/// tag was written, every other track as it was, and the progress at the run's count.
pub proof fn lemma_saved_download_ends_done(
    s: AppState,
    k: int,
    d: TrackInfo,
    err: Option<Seq<char>>,
    done: usize,
    total: usize,
)
    requires
        well_formed(s),
        0 <= k < s.tracks.len(),
    ensures
        ({
            let id = s.tracks[k].id;
            let t = after_msgs(s, track_messages(id, d, TrackOutcome::Saved(err), done, total));
            &&& t.tracks.len() == s.tracks.len()
            &&& t.tracks[k].status == crate::app::StatusView::Done
            &&& t.tracks[k].data == s.tracks[k].data
            &&& forall|j: int| 0 <= j < s.tracks.len() && j != k ==> #[trigger] t.tracks[j] == s.tracks[j]
            &&& t.progress == (done, total)
        }),
{
    let id = s.tracks[k].id;
    let warn: Seq<MsgView> = match err {
        Some(e) => seq![MsgView::Log(LogLine::Error("   ⚠ metadata: "@ + e))],
        None => seq![],
    };
    let a = track_begun(id, d) + seq![MsgView::SetStatus(id, crate::app::StatusView::Embedding)] + warn;
    let m1 = MsgView::SetStatus(id, crate::app::StatusView::Done);
    let m2 = MsgView::Log(LogLine::Success("   ✓ saved"@));
    let m3 = MsgView::Progress(done, total);
    let ms = track_messages(id, d, TrackOutcome::Saved(err), done, total);
    assert(ms =~= a + seq![m1, m2, m3]);
    lemma_after_msgs_split(s, a, seq![m1, m2, m3]);
    assert(touches_only(a, id));
    lemma_steps(s, a, k);
    let s0 = after_msgs(s, a);
    lemma_step(s0, m1, k);
    let s1 = after_msg(s0, m1);
    lemma_step(s1, m2, k);
    let s2 = after_msg(s1, m2);
    lemma_step(s2, m3, k);
    let s3 = after_msg(s2, m3);
    let b = seq![m1, m2, m3];
    assert(b[0] == m1 && b.drop_first() =~= seq![m2, m3]);
    assert(seq![m2, m3][0] == m2 && seq![m2, m3].drop_first() =~= seq![m3]);
    assert(seq![m3][0] == m3 && seq![m3].drop_first() =~= Seq::<MsgView>::empty());
    lemma_after_one(s2, m3);
    assert(after_msgs(s1, seq![m2, m3]) == s3);
    assert(after_msgs(s0, b) == s3);
    assert forall|j: int| 0 <= j < s.tracks.len() && j != k implies #[trigger] s3.tracks[j] == s.tracks[j] by {
        assert(s0.tracks[j] == s.tracks[j]);
    }
}


/// The messages of a track's download that failed leave that track failed with the reason,
/// every other track as it was, and the progress at the run's count.
pub proof fn lemma_failed_download_ends_failed(
    s: AppState,
    k: int,
    d: TrackInfo,
    why: Seq<char>,
    done: usize,
    total: usize,
)
    requires
        well_formed(s),
        0 <= k < s.tracks.len(),
    ensures
        ({
            let id = s.tracks[k].id;
            let t = after_msgs(s, track_messages(id, d, TrackOutcome::Failed(why), done, total));
            &&& t.tracks.len() == s.tracks.len()
            &&& t.tracks[k].status == crate::app::StatusView::Failed(why)
            &&& forall|j: int| 0 <= j < s.tracks.len() && j != k ==> #[trigger] t.tracks[j] == s.tracks[j]
            &&& t.progress == (done, total)
        }),
{
    let id = s.tracks[k].id;
    let a = track_begun(id, d);
    let m1 = MsgView::SetStatus(id, crate::app::StatusView::Failed(why));
    let m2 = MsgView::Log(LogLine::Error("   ✗ "@ + why));
    let m3 = MsgView::Progress(done, total);
    let b = seq![m1, m2, m3];
    assert(track_failed(id, why, done, total) =~= b);
    assert(track_messages(id, d, TrackOutcome::Failed(why), done, total) =~= a + b);
    lemma_after_msgs_split(s, a, b);
    assert(touches_only(a, id));
    lemma_steps(s, a, k);
    let s0 = after_msgs(s, a);
    lemma_step(s0, m1, k);
    let s1 = after_msg(s0, m1);
    lemma_step(s1, m2, k);
    let s2 = after_msg(s1, m2);
    lemma_step(s2, m3, k);
    let s3 = after_msg(s2, m3);
    assert(b[0] == m1 && b.drop_first() =~= seq![m2, m3]);
    assert(seq![m2, m3][0] == m2 && seq![m2, m3].drop_first() =~= seq![m3]);
    lemma_after_one(s2, m3);
    assert(after_msgs(s1, seq![m2, m3]) == s3);
    assert(after_msgs(s0, b) == s3);
    assert forall|j: int| 0 <= j < s.tracks.len() && j != k implies #[trigger] s3.tracks[j] == s.tracks[j] by {
        assert(s0.tracks[j] == s.tracks[j]);
    }
}

} // verus!

verus! {

/// Whatever key is pressed, a cursor within the input stays within it. Left at the start and
/// Right at the end leave the cursor where it is, Left and Right otherwise move it by one; Home
/// and Ctrl+A put it at the start, End and Ctrl+E at the end of the input. (A `String` holds
/// fewer than `usize::MAX` characters, so the casts below change no value.)
pub proof fn lemma_cursor_stays_in_input(s: AppState, k: KeyEvent)
    requires
        s.cursor <= s.input.len(),
    ensures
        after_key(s, k).0.cursor <= after_key(s, k).0.input.len(),
        k.code == KeyCode::Left && s.cursor == 0 ==> after_key(s, k).0.cursor == 0,
        k.code == KeyCode::Left && s.cursor > 0 ==> after_key(s, k).0.cursor == s.cursor - 1,
        k.code == KeyCode::Right && s.cursor == s.input.len() ==> after_key(s, k).0.cursor == s.cursor,
        k.code == KeyCode::Right && s.cursor < s.input.len() ==> after_key(s, k).0.cursor == (s.cursor + 1) as usize,
        k.code == KeyCode::Home || is_ctrl_char(k, 'a') ==> after_key(s, k).0.cursor == 0,
        k.code == KeyCode::End || is_ctrl_char(k, 'e') ==> after_key(s, k).0.cursor == s.input.len() as usize,
{
    let t = after_key(s, k).0;
    lemma_submitted_cursor(s);
    if types_char(s, k) {
        let c = k.code->Char_0;
        assert(t == char_inserted(s, c));
        assert(t.input.len() == s.input.len() + 1);
    }
}

proof fn lemma_submitted_cursor(s: AppState)
    requires
        s.cursor <= s.input.len(),
    ensures
        input_submitted(s).cursor <= input_submitted(s).input.len(),
        fetch_started(s).0.cursor <= fetch_started(s).0.input.len(),
        download_started(s).0.cursor <= download_started(s).0.input.len(),
        cleared(s).cursor <= cleared(s).input.len(),
{
}

/// Whatever key is pressed, a table offset within the table stays within it (or at 0 when the
/// table is empty). Down moves it one row on where a row follows, and otherwise leaves it; Up
/// moves it one row back, stopping at the first.
pub proof fn lemma_offset_stays_in_table(s: AppState, k: KeyEvent)
    requires
        s.track_offset == 0 || s.track_offset < s.tracks.len(),
        s.tracks.len() <= usize::MAX,
    ensures
        after_key(s, k).0.track_offset == 0 || after_key(s, k).0.track_offset < after_key(s, k).0.tracks.len(),
        k.code == KeyCode::Down ==> after_key(s, k).0.track_offset == (if s.track_offset + 1 < s.tracks.len() {
            s.track_offset + 1
        } else {
            s.track_offset as int
        }),
        k.code == KeyCode::Up ==> after_key(s, k).0.track_offset == (if s.track_offset > 0 {
            s.track_offset - 1
        } else {
            0
        }),
{
    lemma_submitted_cursor_tracks(s);
}

proof fn lemma_submitted_cursor_tracks(s: AppState)
    ensures
        input_submitted(s).tracks == s.tracks,
        input_submitted(s).track_offset == s.track_offset,
        fetch_started(s).0.tracks == s.tracks,
        fetch_started(s).0.track_offset == s.track_offset,
        download_started(s).0.tracks == s.tracks,
        download_started(s).0.track_offset == s.track_offset,
{
}

/// Backspace undoes the typing of a character: the input and cursor are as they were.
pub proof fn lemma_backspace_undoes_insert(s: AppState, c: char)
    requires
        s.cursor <= s.input.len(),
        s.cursor < usize::MAX,
    ensures
        backspaced(char_inserted(s, c)) == s,
{
    assert(remove_at(insert_at(s.input, s.cursor as int, c), s.cursor as int) =~= s.input);
}

} // verus!

verus! {

/// Whether every status message among `ms` names one of the tracks of `p`.
pub open spec fn statuses_within(ms: Seq<MsgView>, p: Seq<(usize, TrackInfo)>) -> bool {
    forall|i: int|
        0 <= i < ms.len() && (#[trigger] ms[i]) is SetStatus ==> exists|j: int|
            0 <= j < p.len() && (#[trigger] p[j]).0 == ms[i]->SetStatus_0
}

proof fn lemma_track_messages_name_their_track(
    id: usize,
    d: TrackInfo,
    out: TrackOutcome,
    done: usize,
    total: usize,
)
    ensures
        forall|i: int|
            0 <= i < track_messages(id, d, out, done, total).len() && (#[trigger] track_messages(
                id,
                d,
                out,
                done,
                total,
            )[i]) is SetStatus ==> track_messages(id, d, out, done, total)[i]->SetStatus_0 == id,
{
    let ms = track_messages(id, d, out, done, total);
    let begun = track_begun(id, d);
    match out {
        TrackOutcome::Saved(e) => {
            let rest = seq![MsgView::SetStatus(id, crate::app::StatusView::Embedding)] + track_saved(id, e, done, total);
            match e {
                Some(w) => {
                    assert(ms =~= begun + seq![
                        MsgView::SetStatus(id, crate::app::StatusView::Embedding),
                        MsgView::Log(LogLine::Error("   ⚠ metadata: "@ + w)),
                        MsgView::SetStatus(id, crate::app::StatusView::Done),
                        MsgView::Log(LogLine::Success("   ✓ saved"@)),
                        MsgView::Progress(done, total),
                    ]);
                },
                None => {
                    assert(ms =~= begun + seq![
                        MsgView::SetStatus(id, crate::app::StatusView::Embedding),
                        MsgView::SetStatus(id, crate::app::StatusView::Done),
                        MsgView::Log(LogLine::Success("   ✓ saved"@)),
                        MsgView::Progress(done, total),
                    ]);
                },
            }
        },
        TrackOutcome::Failed(w) => {
            assert(ms =~= begun + track_failed(id, w, done, total));
        },
    }
}

proof fn lemma_statuses_within_concat(a: Seq<MsgView>, b: Seq<MsgView>, p: Seq<(usize, TrackInfo)>)
    requires
        statuses_within(a, p),
        statuses_within(b, p),
    ensures
        statuses_within(a + b, p),
{
    assert forall|i: int| 0 <= i < (a + b).len() && (#[trigger] (a + b)[i]) is SetStatus implies exists|j: int|
        0 <= j < p.len() && (#[trigger] p[j]).0 == (a + b)[i]->SetStatus_0 by {
        if i < a.len() {
            assert((a + b)[i] == a[i]);
        } else {
            assert((a + b)[i] == b[i - a.len()]);
        }
    }
}

proof fn lemma_downloaded_part_within(p: Seq<(usize, TrackInfo)>, outs: Seq<TrackOutcome>)
    requires
        outs.len() <= p.len(),
    ensures
        statuses_within(downloaded_part(p, outs), p),
    decreases outs.len(),
{
    if outs.len() > 0 {
        let k = outs.len() - 1;
        lemma_downloaded_part_within(p, outs.drop_last());
        let tm = track_messages(p[k].0, p[k].1, outs[k], saved_count(outs) as usize, p.len() as usize);
        lemma_track_messages_name_their_track(p[k].0, p[k].1, outs[k], saved_count(outs) as usize, p.len() as usize);
        assert forall|i: int| 0 <= i < tm.len() && (#[trigger] tm[i]) is SetStatus implies exists|j: int|
            0 <= j < p.len() && (#[trigger] p[j]).0 == tm[i]->SetStatus_0 by {
            assert(p[k].0 == tm[i]->SetStatus_0);
        }
        lemma_statuses_within_concat(downloaded_part(p, outs.drop_last()), tm, p);
    }
}

/// A download sets the status of none but its own tracks: every status message of a download
/// of the tracks `p` names a track of `p`, however the tracks came out.
pub proof fn lemma_download_sets_only_its_tracks(p: Seq<(usize, TrackInfo)>, outs: Seq<TrackOutcome>)
    requires
        outs.len() <= p.len(),
    ensures
        statuses_within(download_session(p, outs), p),
{
    lemma_downloaded_part_within(p, outs);
    let fin = run_finished(saved_count(outs) as usize, p.len() as usize);
    assert(statuses_within(fin, p));
    lemma_statuses_within_concat(downloaded_part(p, outs), fin, p);
}

} // verus!

verus! {

/// The tracks that the fetched links found, link after link.
pub open spec fn found_tracks(results: Seq<Result<Seq<TrackInfo>, Seq<char>>>) -> Seq<TrackInfo>
    decreases results.len(),
{
    if results.len() == 0 {
        Seq::empty()
    } else {
        found_tracks(results.drop_last()) + match results.last() {
            Ok(ts) => ts,
            Err(_) => Seq::empty(),
        }
    }
}

proof fn lemma_added_tracks_concat(first: usize, a: Seq<TrackInfo>, b: Seq<TrackInfo>)
    requires
        first + a.len() + b.len() < usize::MAX,
    ensures
        added_tracks(first, a) + added_tracks((first + a.len()) as usize, b) == added_tracks(first, a + b),
{
    assert(added_tracks(first, a) + added_tracks((first + a.len()) as usize, b) =~= added_tracks(first, a + b));
}

proof fn lemma_log_message(s: AppState, l: LogLine)
    ensures
        after_msgs(s, seq![MsgView::Log(l)]) == logged(s, l),
{
    lemma_after_one(s, MsgView::Log(l));
}

proof fn lemma_fetched_part_adds(s: AppState, urls: Seq<Seq<char>>, results: Seq<Result<Seq<TrackInfo>, Seq<char>>>)
    requires
        s.next_id + found_tracks(results).len() < usize::MAX,
    ensures
        ({
            let t = after_msgs(s, fetched_part(urls, results));
            &&& t.tracks == s.tracks + added_tracks(s.next_id, found_tracks(results))
            &&& t.next_id == s.next_id + found_tracks(results).len()
            &&& t.fetching == s.fetching
        }),
    decreases results.len(),
{
    if results.len() == 0 {
        assert(s.tracks + added_tracks(s.next_id, Seq::empty()) =~= s.tracks);
    } else {
        let k = results.len() - 1;
        let prev = results.drop_last();
        let here = match results[k] {
            Ok(ts) => ts,
            Err(_) => Seq::<TrackInfo>::empty(),
        };
        assert(found_tracks(results) == found_tracks(prev) + here);
        lemma_fetched_part_adds(s, urls, prev);
        let t1 = after_msgs(s, fetched_part(urls, prev));
        let begun = seq![fetch_begun(urls[k])];
        let rep = fetch_reported(results[k]);
        assert(fetched_part(urls, results) == fetched_part(urls, prev) + begun + rep) by {
            assert(fetched_part(urls, prev).push(fetch_begun(urls[k])) =~= fetched_part(urls, prev) + begun);
        }
        lemma_after_msgs_split(s, fetched_part(urls, prev) + begun, rep);
        lemma_after_msgs_split(s, fetched_part(urls, prev), begun);
        lemma_log_message(t1, LogLine::Info("Fetching "@ + urls[k] + "…"@));
        let t2 = after_msgs(t1, begun);
        assert(t2.tracks == t1.tracks && t2.next_id == t1.next_id && t2.fetching == t1.fetching);
        match results[k] {
            Ok(ts) => {
                lemma_fetch_report_adds_tracks(t2, ts);
                lemma_added_tracks_concat(s.next_id, found_tracks(prev), ts);
            },
            Err(e) => {
                lemma_log_message(t2, LogLine::Error("  ✗ "@ + e));
                assert(here =~= Seq::<TrackInfo>::empty());
                assert(found_tracks(results) =~= found_tracks(prev));
                assert(added_tracks(s.next_id, found_tracks(prev) + here) =~= added_tracks(s.next_id, found_tracks(prev)));
            },
        }
    }
}

/// A whole fetch, handled by the application in the order sent, adds every track that its links
/// found, link after link, as pending tracks under fresh consecutive ids, and leaves no fetch
/// running.
pub proof fn lemma_fetch_session_adds_found_tracks(
    s: AppState,
    urls: Seq<Seq<char>>,
    results: Seq<Result<Seq<TrackInfo>, Seq<char>>>,
)
    requires
        s.next_id + found_tracks(results).len() < usize::MAX,
    ensures
        ({
            let t = after_msgs(s, fetch_session(urls, results));
            &&& t.tracks == s.tracks + added_tracks(s.next_id, found_tracks(results))
            &&& t.next_id == s.next_id + found_tracks(results).len()
            &&& !t.fetching
        }),
{
    lemma_fetched_part_adds(s, urls, results);
    let part = fetched_part(urls, results);
    assert(fetch_session(urls, results) =~= part + seq![MsgView::FetchDone]);
    lemma_after_msgs_split(s, part, seq![MsgView::FetchDone]);
    lemma_after_one(after_msgs(s, part), MsgView::FetchDone);
}

} // verus!
