//! The fetch and download runs: what the worker threads do next and every message they send.
use vstd::prelude::*;
use crate::app::{AppMsg, LogEntry, LogLine, MsgView, StatusView, TrackStatus, pending_views};
use crate::text::{concat, decimal, decimal_string};
use crate::track::{TrackData, TrackInfo, infos};

verus! {

/// The messages, as values.
pub open spec fn msg_views(v: Seq<AppMsg>) -> Seq<MsgView> {
    v.map_values(|m: AppMsg| m@)
}

/// The message that a fetch of one link begins.
pub open spec fn fetch_begun(url: Seq<char>) -> MsgView {
    MsgView::Log(LogLine::Info("Fetching "@ + url + "…"@))
}

/// The messages after a fetch of one link: each track found, then how many; or the error.
pub open spec fn fetch_reported(result: Result<Seq<TrackInfo>, Seq<char>>) -> Seq<MsgView> {
    match result {
        Ok(ts) => ts.map_values(|t: TrackInfo| MsgView::TrackAdded(t)) + seq![
            MsgView::Log(LogLine::Success("  ✓ "@ + decimal(ts.len()) + " track(s) found"@)),
        ],
        Err(e) => seq![MsgView::Log(LogLine::Error("  ✗ "@ + e))],
    }
}

/// What came of fetching one link, as values: its tracks, or the error's text.
pub open spec fn fetch_result_view(r: Result<Vec<TrackData>, String>) -> Result<Seq<TrackInfo>, Seq<char>> {
    match r {
        Ok(ts) => Ok(infos(ts@)),
        Err(e) => Err(e@),
    }
}

/// The message that a fetch of one link begins.
pub fn fetch_announce(url: &str) -> (r: AppMsg)
    ensures
        r@ == fetch_begun(url@),
{
    let mut s = concat("Fetching ", url);
    s.append("…");
    AppMsg::Log(LogEntry::Info(s))
}

/// The messages after a fetch of one link: each track found, then how many; or the error's text.
pub fn fetch_report(result: Result<Vec<TrackData>, String>) -> (r: Vec<AppMsg>)
    ensures
        msg_views(r@) == fetch_reported(fetch_result_view(result)),
{
    match result {
        Ok(tracks) => {
            let ghost ts = infos(tracks@);
            let n = tracks.len();
            let mut out: Vec<AppMsg> = Vec::new();
            let mut i: usize = 0;
            while i < n
                invariant
                    i <= n,
                    n == tracks@.len(),
                    ts == infos(tracks@),
                    msg_views(out@) == ts.take(i as int).map_values(|t: TrackInfo| MsgView::TrackAdded(t)),
                decreases n - i,
            {
                let t = tracks[i].duplicate();
                let ghost before = msg_views(out@);
                assert(ts[i as int] == tracks@[i as int]@);
                out.push(AppMsg::TrackAdded(t));
                assert(msg_views(out@) =~= before.push(MsgView::TrackAdded(ts[i as int])));
                assert(ts.take(i + 1) =~= ts.take(i as int).push(ts[i as int]));
                i = i + 1;
                assert(msg_views(out@) =~= ts.take(i as int).map_values(|t: TrackInfo| MsgView::TrackAdded(t)));
            }
            assert(ts.take(i as int) =~= ts);
            let mut s = concat("  ✓ ", decimal_string(n).as_str());
            s.append(" track(s) found");
            let ghost before = msg_views(out@);
            out.push(AppMsg::Log(LogEntry::Success(s)));
            assert(msg_views(out@) =~= before.push(MsgView::Log(LogLine::Success(s@))));
            out
        },
        Err(e) => {
            let mut out: Vec<AppMsg> = Vec::new();
            out.push(AppMsg::Log(LogEntry::Error(concat("  ✗ ", e.as_str()))));
            assert(msg_views(out@) =~= fetch_reported(Err(e@)));
            out
        },
    }
}

/// The text the download log shows for a track: the title, after the artist and ` — ` where
/// there is an artist.
pub open spec fn shown_query(d: TrackInfo) -> Seq<char> {
    if d.artist.len() == 0 { d.title } else { d.artist + " — "@ + d.title }
}

/// The messages that the download of a track begins.
pub open spec fn track_begun(id: usize, d: TrackInfo) -> Seq<MsgView> {
    seq![
        MsgView::Log(LogLine::Info("⟳  "@ + shown_query(d))),
        MsgView::SetStatus(id, StatusView::Downloading),
    ]
}

/// The messages after a track's tag was written (`error` says why, where it was not).
pub open spec fn track_saved(id: usize, error: Option<Seq<char>>, done: usize, total: usize) -> Seq<MsgView> {
    let warn: Seq<MsgView> = match error {
        Some(e) => seq![MsgView::Log(LogLine::Error("   ⚠ metadata: "@ + e))],
        None => seq![],
    };
    warn + seq![
        MsgView::SetStatus(id, StatusView::Done),
        MsgView::Log(LogLine::Success("   ✓ saved"@)),
        MsgView::Progress(done, total),
    ]
}

/// The messages after a track's download failed.
pub open spec fn track_failed(id: usize, why: Seq<char>, done: usize, total: usize) -> Seq<MsgView> {
    seq![
        MsgView::SetStatus(id, StatusView::Failed(why)),
        MsgView::Log(LogLine::Error("   ✗ "@ + why)),
        MsgView::Progress(done, total),
    ]
}

/// The messages that end a download run.
pub open spec fn run_finished(done: usize, total: usize) -> Seq<MsgView> {
    seq![
        MsgView::Log(LogLine::Success(decimal(done as nat) + "/"@ + decimal(total as nat) + " tracks downloaded."@)),
        MsgView::DownloadDone,
    ]
}


/// The messages of the first `results.len()` links of `urls`, each link's entry of `results`
/// saying what its fetch came to: per link its start, then its tracks and their count or its error.
pub open spec fn fetched_part(
    urls: Seq<Seq<char>>,
    results: Seq<Result<Seq<TrackInfo>, Seq<char>>>,
) -> Seq<MsgView>
    decreases results.len(),
{
    if results.len() == 0 {
        Seq::empty()
    } else {
        let k = results.len() - 1;
        fetched_part(urls, results.drop_last()).push(fetch_begun(urls[k])) + fetch_reported(results[k])
    }
}

/// Every message of a fetch of `urls` whose links came to `results`, in the order sent: the
/// messages of each link in turn, then the one that ends the fetch.
pub open spec fn fetch_session(urls: Seq<Seq<char>>, results: Seq<Result<Seq<TrackInfo>, Seq<char>>>) -> Seq<MsgView> {
    fetched_part(urls, results).push(MsgView::FetchDone)
}

/// The mathematical value of a [`FetchRun`]: the links, what the fetched ones came to, whether
/// a link is being fetched, whether the run has ended, and every message sent so far.
pub ghost struct FetchView {
    pub urls: Seq<Seq<char>>,
    pub results: Seq<Result<Seq<TrackInfo>, Seq<char>>>,
    pub awaiting: bool,
    pub finished: bool,
    pub sent: Seq<MsgView>,
}

/// The states a fetch run can be in. The messages sent are those of the links fetched, then the
/// start of the link being fetched, if any, and at the end the end of the fetch.
pub open spec fn fetch_consistent(v: FetchView) -> bool {
    &&& v.results.len() <= v.urls.len()
    &&& v.awaiting ==> v.results.len() < v.urls.len()
    &&& v.finished ==> !v.awaiting && v.results.len() == v.urls.len()
    &&& !v.awaiting && !v.finished ==> v.results.len() == 0
    &&& v.sent == fetched_part(v.urls, v.results) + (if v.awaiting {
        seq![fetch_begun(v.urls[v.results.len() as int])]
    } else {
        Seq::empty()
    }) + (if v.finished {
        seq![MsgView::FetchDone]
    } else {
        Seq::empty()
    })
}

/// A fetch run once it has what the link being fetched came to (`None` when it starts): that is
/// recorded and reported, and the next link starts, or the fetch ends after the last.
pub open spec fn fetch_next(v: FetchView, fetched: Option<Result<Seq<TrackInfo>, Seq<char>>>) -> FetchView {
    let results = match fetched {
        Some(r) => v.results.push(r),
        None => v.results,
    };
    let reported = match fetched {
        Some(r) => fetch_reported(r),
        None => Seq::empty(),
    };
    if results.len() < v.urls.len() {
        FetchView {
            results,
            awaiting: true,
            finished: false,
            sent: v.sent + reported.push(fetch_begun(v.urls[results.len() as int])),
            ..v
        }
    } else {
        FetchView { results, awaiting: false, finished: true, sent: v.sent + reported.push(MsgView::FetchDone), ..v }
    }
}

/// What a fetch of one link came to, as values, where there is one.
pub open spec fn fetched_view(f: Option<Result<Vec<TrackData>, String>>) -> Option<Result<Seq<TrackInfo>, Seq<char>>> {
    match f {
        Some(r) => Some(fetch_result_view(r)),
        None => None,
    }
}

/// A fetch of the track lists of a list of links, one link after another: it says which link to
/// fetch next and which messages to send, and records every message sent.
pub struct FetchRun {
    urls: Vec<String>,
    next: usize,
    awaiting: bool,
    finished: bool,
    results: Ghost<Seq<Result<Seq<TrackInfo>, Seq<char>>>>,
    sent: Ghost<Seq<MsgView>>,
}

impl View for FetchRun {
    type V = FetchView;

    closed spec fn view(&self) -> FetchView {
        FetchView {
            urls: self.urls.deep_view(),
            results: self.results@,
            awaiting: self.awaiting,
            finished: self.finished,
            sent: self.sent@,
        }
    }
}

impl FetchRun {
    #[verifier::type_invariant]
    spec fn inv(self) -> bool {
        &&& fetch_consistent(self@)
        &&& self.next == self.results@.len()
    }

    /// A run over `urls` that has sent nothing yet.
    pub fn new(urls: Vec<String>) -> (r: FetchRun)
        ensures
            r@ == (FetchView {
                urls: urls.deep_view(),
                results: Seq::empty(),
                awaiting: false,
                finished: false,
                sent: Seq::empty(),
            }),
    {
        FetchRun { urls, next: 0, awaiting: false, finished: false, results: Ghost(Seq::empty()), sent: Ghost(Seq::empty()) }
    }

    /// Whether a link is being fetched, its result not yet taken.
    pub fn is_awaiting(&self) -> (r: bool)
        ensures
            r == self@.awaiting,
    {
        self.awaiting
    }

    /// Whether the run has ended.
    pub fn is_finished(&self) -> (r: bool)
        ensures
            r == self@.finished,
    {
        self.finished
    }

    /// Whether the run can take `fetched` as its next step: a result while a link is being
    /// fetched, nothing before the first link, and neither after the end.
    pub fn expects(&self, fetched: &Option<Result<Vec<TrackData>, String>>) -> (r: bool)
        ensures
            r == (!self@.finished && self@.awaiting == fetched.is_some()),
    {
        !self.finished && self.awaiting == fetched.is_some()
    }

    /// Takes what the link being fetched came to (`None` to start the run) and gives the next
    /// state, the messages to send, and the next link to fetch (`None` once the fetch has ended).
    pub fn step(self, fetched: Option<Result<Vec<TrackData>, String>>) -> (r: (FetchRun, Vec<AppMsg>, Option<String>))
        requires
            !self@.finished,
            self@.awaiting == fetched.is_some(),
        ensures
            r.0@ == fetch_next(self@, fetched_view(fetched)),
            r.0@.sent == self@.sent + msg_views(r.1@),
            fetch_consistent(r.0@),
            r.0@.finished ==> r.0@.results.len() == r.0@.urls.len() && r.0@.sent == fetch_session(
                r.0@.urls,
                r.0@.results,
            ),
            match r.2 {
                Some(u) => r.0@.awaiting && u@ == r.0@.urls[r.0@.results.len() as int],
                None => r.0@.finished,
            },
    {
        proof {
            use_type_invariant(&self);
        }
        let ghost v = self@;
        let ghost g = fetched_view(fetched);
        let FetchRun { urls, next, awaiting, finished, results, sent } = self;
        let n = urls.len();
        assert(n == v.urls.len());
        let mut msgs: Vec<AppMsg> = Vec::new();
        let mut k: usize = next;
        match fetched {
            Some(res) => {
                msgs = fetch_report(res);
                k = next + 1;
            },
            None => {},
        }
        let ghost new_results = match g {
            Some(x) => v.results.push(x),
            None => v.results,
        };
        let ghost reported = msg_views(msgs@);
        proof {
            match g {
                Some(x) => {
                    assert(new_results.drop_last() =~= v.results);
                    assert(fetched_part(v.urls, new_results) == fetched_part(v.urls, v.results).push(
                        fetch_begun(v.urls[v.results.len() as int]),
                    ) + fetch_reported(x));
                    assert(v.sent + reported =~= fetched_part(v.urls, new_results));
                },
                None => {
                    assert(v.results.len() == 0);
                    assert(reported =~= Seq::empty());
                    assert(v.sent + reported =~= fetched_part(v.urls, new_results));
                },
            }
        }
        if k < n {
            let u = urls[k].clone();
            msgs.push(fetch_announce(u.as_str()));
            proof {
                assert(msg_views(msgs@) =~= reported.push(fetch_begun(v.urls[k as int])));
            }
            let ghost all = v.sent + msg_views(msgs@);
            proof {
                assert(all =~= fetched_part(v.urls, new_results) + seq![fetch_begun(v.urls[k as int])] + Seq::empty());
                assert(fetch_consistent(
                    FetchView { urls: v.urls, results: new_results, awaiting: true, finished: false, sent: all },
                ));
            }
            let run = FetchRun {
                urls,
                next: k,
                awaiting: true,
                finished: false,
                results: Ghost(new_results),
                sent: Ghost(all),
            };
            (run, msgs, Some(u))
        } else {
            msgs.push(AppMsg::FetchDone);
            proof {
                assert(msg_views(msgs@) =~= reported.push(MsgView::FetchDone));
            }
            let ghost all = v.sent + msg_views(msgs@);
            proof {
                assert(all =~= fetched_part(v.urls, new_results) + Seq::empty() + seq![MsgView::FetchDone]);
                assert(all =~= fetch_session(v.urls, new_results));
            }
            let run = FetchRun {
                urls,
                next: k,
                awaiting: false,
                finished: true,
                results: Ghost(new_results),
                sent: Ghost(all),
            };
            (run, msgs, None)
        }
    }
}

/// How the download of one track came out, as values.
pub ghost enum TrackOutcome {
    /// The audio was saved; its tag was written, or was not for the reason given.
    Saved(Option<Seq<char>>),
    /// The audio could not be had, for the reason given.
    Failed(Seq<char>),
}

/// How many of the tracks were saved.
pub open spec fn saved_count(outs: Seq<TrackOutcome>) -> nat
    decreases outs.len(),
{
    if outs.len() == 0 {
        0
    } else {
        saved_count(outs.drop_last()) + if outs.last() is Saved {
            1nat
        } else {
            0nat
        }
    }
}

/// The messages of one track's download that came out as `out`, `done` tracks of `total` being
/// saved by then: its start; then, for saved audio, the tag being written, the warning where it
/// was not, the track done and counted; else the track failed.
pub open spec fn track_messages(id: usize, d: TrackInfo, out: TrackOutcome, done: usize, total: usize) -> Seq<MsgView> {
    track_begun(id, d) + match out {
        TrackOutcome::Saved(e) => seq![MsgView::SetStatus(id, StatusView::Embedding)] + track_saved(id, e, done, total),
        TrackOutcome::Failed(why) => track_failed(id, why, done, total),
    }
}

/// The messages of the first `outs.len()` tracks of `p`, each entry of `outs` saying how that
/// track came out.
pub open spec fn downloaded_part(p: Seq<(usize, TrackInfo)>, outs: Seq<TrackOutcome>) -> Seq<MsgView>
    decreases outs.len(),
{
    if outs.len() == 0 {
        Seq::empty()
    } else {
        let k = outs.len() - 1;
        downloaded_part(p, outs.drop_last()) + track_messages(
            p[k].0,
            p[k].1,
            outs[k],
            saved_count(outs) as usize,
            p.len() as usize,
        )
    }
}

/// Every message of a download of the tracks `p` that came out as `outs`, in the order sent: the
/// messages of each track in turn, then how many were saved and the end of the download.
pub open spec fn download_session(p: Seq<(usize, TrackInfo)>, outs: Seq<TrackOutcome>) -> Seq<MsgView> {
    downloaded_part(p, outs) + run_finished(saved_count(outs) as usize, p.len() as usize)
}

/// Where a download run stands.
#[derive(Debug, Clone, Copy, PartialEq, Eq, Structural)]
pub enum DownloadPhase {
    /// Not started.
    Ready,
    /// The audio of a track is being downloaded.
    Downloading,
    /// The tag of a downloaded track is being written.
    Tagging,
    /// Every track has come out and the end was reported.
    Finished,
}

/// The mathematical value of a [`DownloadRun`]: the tracks, how the first of them came out, where
/// the run stands, and every message sent so far.
pub ghost struct DownloadView {
    pub pending: Seq<(usize, TrackInfo)>,
    pub outcomes: Seq<TrackOutcome>,
    pub phase: DownloadPhase,
    pub sent: Seq<MsgView>,
}

/// The states a download run can be in. The messages sent are those of the tracks that came
/// out, then those of the track under way, and at the end those that end the download.
pub open spec fn download_consistent(v: DownloadView) -> bool {
    let p = v.pending;
    let k = v.outcomes.len() as int;
    &&& p.len() <= usize::MAX
    &&& k <= p.len()
    &&& match v.phase {
        DownloadPhase::Ready => k == 0 && v.sent == Seq::<MsgView>::empty(),
        DownloadPhase::Downloading => k < p.len() && v.sent == downloaded_part(p, v.outcomes) + track_begun(p[k].0, p[k].1),
        DownloadPhase::Tagging => k < p.len() && v.sent == downloaded_part(p, v.outcomes) + track_begun(p[k].0, p[k].1).push(
            MsgView::SetStatus(p[k].0, StatusView::Embedding),
        ),
        DownloadPhase::Finished => k == p.len() && v.sent == download_session(p, v.outcomes),
    }
}

/// What a worker hands a download run: nothing yet, the saved audio's path or why there is
/// none, or why the tag was not written (`None` where it was).
pub enum DownloadEvent {
    Start,
    Downloaded(Result<String, String>),
    Tagged(Option<String>),
}

/// The reason given, where there is one, as text.
pub open spec fn reason_view(e: Option<String>) -> Option<Seq<char>> {
    match e {
        Some(why) => Some(why@),
        None => None,
    }
}

/// The mathematical value of a [`DownloadEvent`].
pub ghost enum EventView {
    Start,
    Downloaded(Result<Seq<char>, Seq<char>>),
    Tagged(Option<Seq<char>>),
}

impl View for DownloadEvent {
    type V = EventView;

    open spec fn view(&self) -> EventView {
        match self {
            DownloadEvent::Start => EventView::Start,
            DownloadEvent::Downloaded(r) => EventView::Downloaded(
                match r {
                    Ok(path) => Ok(path@),
                    Err(why) => Err(why@),
                },
            ),
            DownloadEvent::Tagged(e) => EventView::Tagged(reason_view(*e)),
        }
    }
}

/// What a download run asks of the worker next.
#[derive(Debug)]
pub enum DownloadAction {
    /// Download the audio of this track.
    Download(TrackData),
    /// Write this track's tag into the audio saved at this path.
    Tag(String, TrackData),
    /// Nothing: the download has ended.
    Finished,
}

/// Whether a run in `phase` takes `e` as its next step.
pub open spec fn event_fits(phase: DownloadPhase, e: EventView) -> bool {
    match phase {
        DownloadPhase::Ready => e is Start,
        DownloadPhase::Downloading => e is Downloaded,
        DownloadPhase::Tagging => e is Tagged,
        DownloadPhase::Finished => false,
    }
}

/// After `outs.len()` tracks of `p` came out: the next one starts, or the download ends.
pub open spec fn begin_next(p: Seq<(usize, TrackInfo)>, outs: Seq<TrackOutcome>) -> (DownloadPhase, Seq<MsgView>) {
    let k = outs.len() as int;
    if k < p.len() {
        (DownloadPhase::Downloading, track_begun(p[k].0, p[k].1))
    } else {
        (DownloadPhase::Finished, run_finished(saved_count(outs) as usize, p.len() as usize))
    }
}

/// A download run after the event `e`: saved audio has its tag written next; a failed download,
/// or a tag written or not, ends the track (saved audio counts as saved either way), and the next
/// track starts or the download ends.
pub open spec fn download_next(v: DownloadView, e: EventView) -> DownloadView {
    let p = v.pending;
    let k = v.outcomes.len() as int;
    let id = p[k].0;
    let total = p.len() as usize;
    match e {
        EventView::Start => {
            let b = begin_next(p, v.outcomes);
            DownloadView { phase: b.0, sent: v.sent + b.1, ..v }
        },
        EventView::Downloaded(Ok(_)) => DownloadView {
            phase: DownloadPhase::Tagging,
            sent: v.sent.push(MsgView::SetStatus(id, StatusView::Embedding)),
            ..v
        },
        EventView::Downloaded(Err(why)) => {
            let outs = v.outcomes.push(TrackOutcome::Failed(why));
            let b = begin_next(p, outs);
            DownloadView {
                outcomes: outs,
                phase: b.0,
                sent: v.sent + track_failed(id, why, saved_count(outs) as usize, total) + b.1,
                ..v
            }
        },
        EventView::Tagged(err) => {
            let outs = v.outcomes.push(TrackOutcome::Saved(err));
            let b = begin_next(p, outs);
            DownloadView {
                outcomes: outs,
                phase: b.0,
                sent: v.sent + track_saved(id, err, saved_count(outs) as usize, total) + b.1,
                ..v
            }
        },
    }
}

/// A download of a list of tracks, one after another: it says what the worker should do next and
/// which messages to send, and records every message sent.
pub struct DownloadRun {
    pending: Vec<(usize, TrackData)>,
    index: usize,
    done: usize,
    phase: DownloadPhase,
    outcomes: Ghost<Seq<TrackOutcome>>,
    sent: Ghost<Seq<MsgView>>,
}

impl View for DownloadRun {
    type V = DownloadView;

    closed spec fn view(&self) -> DownloadView {
        DownloadView {
            pending: pending_views(self.pending@),
            outcomes: self.outcomes@,
            phase: self.phase,
            sent: self.sent@,
        }
    }
}

proof fn lemma_saved_count_push(outs: Seq<TrackOutcome>, o: TrackOutcome)
    ensures
        saved_count(outs.push(o)) == saved_count(outs) + if o is Saved {
            1nat
        } else {
            0nat
        },
{
    assert(outs.push(o).drop_last() =~= outs);
}

proof fn lemma_downloaded_part_push(p: Seq<(usize, TrackInfo)>, outs: Seq<TrackOutcome>, o: TrackOutcome)
    requires
        outs.len() < p.len(),
    ensures
        downloaded_part(p, outs.push(o)) == downloaded_part(p, outs) + track_messages(
            p[outs.len() as int].0,
            p[outs.len() as int].1,
            o,
            saved_count(outs.push(o)) as usize,
            p.len() as usize,
        ),
{
    assert(outs.push(o).drop_last() =~= outs);
}

/// The messages that the download of a track begins.
fn begin_messages(id: usize, data: &TrackData) -> (r: Vec<AppMsg>)
    ensures
        msg_views(r@) == track_begun(id, data@),
{
    let query = if data.artist.as_str().unicode_len() == 0 {
        data.title.clone()
    } else {
        let mut q = concat(data.artist.as_str(), " — ");
        q.append(data.title.as_str());
        q
    };
    let mut out: Vec<AppMsg> = Vec::new();
    out.push(AppMsg::Log(LogEntry::Info(concat("⟳  ", query.as_str()))));
    out.push(AppMsg::SetStatus(id, TrackStatus::Downloading));
    assert(msg_views(out@) =~= track_begun(id, data@));
    out
}

/// The messages after a track's tag was written (`error` says why, where it was not).
fn saved_messages(id: usize, error: Option<String>, done: usize, total: usize) -> (r: Vec<AppMsg>)
    ensures
        msg_views(r@) == track_saved(id, reason_view(error), done, total),
{
    let mut out: Vec<AppMsg> = Vec::new();
    let ghost e = reason_view(error);
    match error {
        Some(why) => out.push(AppMsg::Log(LogEntry::Error(concat("   ⚠ metadata: ", why.as_str())))),
        None => {},
    }
    out.push(AppMsg::SetStatus(id, TrackStatus::Done));
    out.push(AppMsg::Log(LogEntry::Success("   ✓ saved".to_owned())));
    out.push(AppMsg::Progress(done, total));
    assert(msg_views(out@) =~= track_saved(id, e, done, total));
    out
}

/// The messages after a track's download failed, with the reason.
fn failed_messages(id: usize, why: String, done: usize, total: usize) -> (r: Vec<AppMsg>)
    ensures
        msg_views(r@) == track_failed(id, why@, done, total),
{
    let line = concat("   ✗ ", why.as_str());
    let mut out: Vec<AppMsg> = Vec::new();
    out.push(AppMsg::SetStatus(id, TrackStatus::Failed(why)));
    out.push(AppMsg::Log(LogEntry::Error(line)));
    out.push(AppMsg::Progress(done, total));
    assert(msg_views(out@) =~= track_failed(id, why@, done, total));
    out
}

/// The messages that end a download: how many tracks were saved, of how many.
fn finish_messages(done: usize, total: usize) -> (r: Vec<AppMsg>)
    ensures
        msg_views(r@) == run_finished(done, total),
{
    let mut s = decimal_string(done);
    s.append("/");
    s.append(decimal_string(total).as_str());
    s.append(" tracks downloaded.");
    let mut out: Vec<AppMsg> = Vec::new();
    out.push(AppMsg::Log(LogEntry::Success(s)));
    out.push(AppMsg::DownloadDone);
    assert(msg_views(out@) =~= run_finished(done, total));
    out
}

/// After `k` tracks of `pending` came out, `done` of them saved: the next one starts, or the
/// download ends.
fn begin_from(pending: &Vec<(usize, TrackData)>, k: usize, done: usize) -> (r: (DownloadPhase, Vec<AppMsg>, DownloadAction))
    requires
        k <= pending@.len(),
    ensures
        k < pending@.len() ==> r.0 == DownloadPhase::Downloading && msg_views(r.1@) == track_begun(
            pending@[k as int].0,
            pending@[k as int].1@,
        ) && r.2 is Download && r.2->Download_0@ == pending@[k as int].1@,
        k == pending@.len() ==> r.0 == DownloadPhase::Finished && msg_views(r.1@) == run_finished(
            done,
            pending@.len() as usize,
        ) && r.2 is Finished,
{
    if k < pending.len() {
        let id = pending[k].0;
        let msgs = begin_messages(id, &pending[k].1);
        (DownloadPhase::Downloading, msgs, DownloadAction::Download(pending[k].1.duplicate()))
    } else {
        (DownloadPhase::Finished, finish_messages(done, pending.len()), DownloadAction::Finished)
    }
}

impl DownloadRun {
    #[verifier::type_invariant]
    spec fn inv(self) -> bool {
        &&& download_consistent(self@)
        &&& self.index == self.outcomes@.len()
        &&& self.done == saved_count(self.outcomes@)
        &&& self.done <= self.index
    }

    /// A run over the pending tracks of a download, nothing sent yet.
    pub fn new(pending: Vec<(usize, TrackData)>) -> (r: DownloadRun)
        ensures
            r@ == (DownloadView {
                pending: pending_views(pending@),
                outcomes: Seq::empty(),
                phase: DownloadPhase::Ready,
                sent: Seq::empty(),
            }),
    {
        let n = pending.len();
        proof {
            assert(pending_views(pending@).len() == n);
        }
        DownloadRun {
            pending,
            index: 0,
            done: 0,
            phase: DownloadPhase::Ready,
            outcomes: Ghost(Seq::empty()),
            sent: Ghost(Seq::empty()),
        }
    }

    /// Whether the run takes `event` as its next step: the start first, then for each track
    /// what its download came to, then, for saved audio, what its tagging came to.
    pub fn expects(&self, event: &DownloadEvent) -> (r: bool)
        ensures
            r == event_fits(self@.phase, event@),
    {
        match (self.phase, event) {
            (DownloadPhase::Ready, DownloadEvent::Start) => true,
            (DownloadPhase::Downloading, DownloadEvent::Downloaded(_)) => true,
            (DownloadPhase::Tagging, DownloadEvent::Tagged(_)) => true,
            _ => false,
        }
    }

    /// Takes what the worker learned (`Start` to begin) and gives the next state, the messages
    /// to send, and what the worker should do next.
    pub fn step(self, event: DownloadEvent) -> (r: (DownloadRun, Vec<AppMsg>, DownloadAction))
        requires
            event_fits(self@.phase, event@),
        ensures
            r.0@ == download_next(self@, event@),
            r.0@.sent == self@.sent + msg_views(r.1@),
            download_consistent(r.0@),
            r.0@.phase == DownloadPhase::Finished ==> r.0@.outcomes.len() == r.0@.pending.len()
                && r.0@.sent == download_session(r.0@.pending, r.0@.outcomes),
            match r.2 {
                DownloadAction::Download(d) => r.0@.phase == DownloadPhase::Downloading && d@ == r.0@.pending[r.0@.outcomes.len() as int].1,
                DownloadAction::Tag(path, d) => r.0@.phase == DownloadPhase::Tagging && event@ == EventView::Downloaded(Ok(path@))
                    && d@ == r.0@.pending[r.0@.outcomes.len() as int].1,
                DownloadAction::Finished => r.0@.phase == DownloadPhase::Finished,
            },
    {
        proof {
            use_type_invariant(&self);
        }
        let ghost v = self@;
        let ghost ev = event@;
        let ghost next = download_next(v, ev);
        let DownloadRun { pending, index, done, phase, outcomes, sent } = self;
        let n = pending.len();
        let ghost p = v.pending;
        assert(p.len() == n);
        match event {
            DownloadEvent::Start => {
                let (ph, msgs, act) = begin_from(&pending, index, done);
                proof {
                    assert(v.sent + msg_views(msgs@) =~= next.sent);
                    if ph == DownloadPhase::Finished {
                        assert(downloaded_part(p, v.outcomes) =~= Seq::<MsgView>::empty());
                        assert(next.sent =~= download_session(p, v.outcomes));
                    } else {
                        assert(downloaded_part(p, v.outcomes) =~= Seq::<MsgView>::empty());
                        assert(next.sent =~= downloaded_part(p, v.outcomes) + track_begun(p[0].0, p[0].1));
                    }
                }
                let run = DownloadRun { pending, index, done, phase: ph, outcomes, sent: Ghost(next.sent) };
                (run, msgs, act)
            },
            DownloadEvent::Downloaded(Ok(path)) => {
                let id = pending[index].0;
                let d = pending[index].1.duplicate();
                let mut msgs: Vec<AppMsg> = Vec::new();
                msgs.push(AppMsg::SetStatus(id, TrackStatus::Embedding));
                proof {
                    assert(msg_views(msgs@) =~= seq![MsgView::SetStatus(id, StatusView::Embedding)]);
                    assert(v.sent + msg_views(msgs@) =~= next.sent);
                }
                let run = DownloadRun {
                    pending,
                    index,
                    done,
                    phase: DownloadPhase::Tagging,
                    outcomes,
                    sent: Ghost(next.sent),
                };
                (run, msgs, DownloadAction::Tag(path, d))
            },
            DownloadEvent::Downloaded(Err(why)) => {
                let id = pending[index].0;
                let ghost w = why@;
                let ghost outs = v.outcomes.push(TrackOutcome::Failed(w));
                proof {
                    lemma_saved_count_push(v.outcomes, TrackOutcome::Failed(w));
                    lemma_downloaded_part_push(p, v.outcomes, TrackOutcome::Failed(w));
                }
                let mut msgs = failed_messages(id, why, done, n);
                let (ph, mut more, act) = begin_from(&pending, index + 1, done);
                let ghost first = msg_views(msgs@);
                let ghost second = msg_views(more@);
                msgs.append(&mut more);
                proof {
                    assert(msg_views(msgs@) =~= first + second);
                    assert(v.sent + msg_views(msgs@) =~= next.sent);
                    if ph == DownloadPhase::Finished {
                        assert(next.sent =~= download_session(p, outs));
                    } else {
                        assert(next.sent =~= downloaded_part(p, outs) + track_begun(
                            p[outs.len() as int].0,
                            p[outs.len() as int].1,
                        ));
                    }
                }
                let run = DownloadRun {
                    pending,
                    index: index + 1,
                    done,
                    phase: ph,
                    outcomes: Ghost(outs),
                    sent: Ghost(next.sent),
                };
                (run, msgs, act)
            },
            DownloadEvent::Tagged(error) => {
                let id = pending[index].0;
                let ghost e = reason_view(error);
                let ghost outs = v.outcomes.push(TrackOutcome::Saved(e));
                proof {
                    lemma_saved_count_push(v.outcomes, TrackOutcome::Saved(e));
                    lemma_downloaded_part_push(p, v.outcomes, TrackOutcome::Saved(e));
                }
                let now = done + 1;
                let mut msgs = saved_messages(id, error, now, n);
                let (ph, mut more, act) = begin_from(&pending, index + 1, now);
                let ghost first = msg_views(msgs@);
                let ghost second = msg_views(more@);
                msgs.append(&mut more);
                proof {
                    assert(msg_views(msgs@) =~= first + second);
                    assert(v.sent + msg_views(msgs@) =~= next.sent);
                    if ph == DownloadPhase::Finished {
                        assert(next.sent =~= download_session(p, outs));
                    } else {
                        assert(next.sent =~= downloaded_part(p, outs) + track_begun(
                            p[outs.len() as int].0,
                            p[outs.len() as int].1,
                        ));
                    }
                }
                let run = DownloadRun {
                    pending,
                    index: index + 1,
                    done: now,
                    phase: ph,
                    outcomes: Ghost(outs),
                    sent: Ghost(next.sent),
                };
                (run, msgs, act)
            },
        }
    }
}

} // verus!
