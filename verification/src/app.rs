//! The application state and every rule by which keys and worker messages change it.
use vstd::prelude::*;
use crate::text::{concat, trimmed, trim};
use crate::track::{TrackData, TrackInfo};

verus! {

/// Where a track is in its download.
#[derive(Debug, Clone, PartialEq)]
pub enum TrackStatus {
    Pending,
    Downloading,
    Embedding,
    Done,
    Failed(String),
}

/// The mathematical value of a [`TrackStatus`].
pub ghost enum StatusView {
    Pending,
    Downloading,
    Embedding,
    Done,
    Failed(Seq<char>),
}

impl View for TrackStatus {
    type V = StatusView;

    open spec fn view(&self) -> StatusView {
        match self {
            TrackStatus::Pending => StatusView::Pending,
            TrackStatus::Downloading => StatusView::Downloading,
            TrackStatus::Embedding => StatusView::Embedding,
            TrackStatus::Done => StatusView::Done,
            TrackStatus::Failed(m) => StatusView::Failed(m@),
        }
    }
}

/// One line of the log, with the tone it is shown in.
#[derive(Debug, Clone)]
pub enum LogEntry {
    Info(String),
    Success(String),
    Error(String),
    Dim(String),
}

/// The mathematical value of a [`LogEntry`].
pub ghost enum LogLine {
    Info(Seq<char>),
    Success(Seq<char>),
    Error(Seq<char>),
    Dim(Seq<char>),
}

impl View for LogEntry {
    type V = LogLine;

    open spec fn view(&self) -> LogLine {
        match self {
            LogEntry::Info(s) => LogLine::Info(s@),
            LogEntry::Success(s) => LogLine::Success(s@),
            LogEntry::Error(s) => LogLine::Error(s@),
            LogEntry::Dim(s) => LogLine::Dim(s@),
        }
    }
}

/// A track in the table, with the id that worker messages name it by.
#[derive(Debug, Clone)]
pub struct Track {
    pub id: usize,
    pub data: TrackData,
    pub status: TrackStatus,
}

/// The mathematical value of a [`Track`].
pub ghost struct TrackState {
    pub id: usize,
    pub data: TrackInfo,
    pub status: StatusView,
}

impl View for Track {
    type V = TrackState;

    open spec fn view(&self) -> TrackState {
        TrackState { id: self.id, data: self.data@, status: self.status@ }
    }
}

/// What the fetch and download workers report to the application.
#[derive(Debug)]
pub enum AppMsg {
    TrackAdded(TrackData),
    SetStatus(usize, TrackStatus),
    Log(LogEntry),
    Progress(usize, usize),
    FetchDone,
    DownloadDone,
}

/// The mathematical value of an [`AppMsg`].
pub ghost enum MsgView {
    TrackAdded(TrackInfo),
    SetStatus(usize, StatusView),
    Log(LogLine),
    Progress(usize, usize),
    FetchDone,
    DownloadDone,
}

impl View for AppMsg {
    type V = MsgView;

    open spec fn view(&self) -> MsgView {
        match self {
            AppMsg::TrackAdded(d) => MsgView::TrackAdded(d@),
            AppMsg::SetStatus(id, s) => MsgView::SetStatus(*id, s@),
            AppMsg::Log(e) => MsgView::Log(e@),
            AppMsg::Progress(d, t) => MsgView::Progress(*d, *t),
            AppMsg::FetchDone => MsgView::FetchDone,
            AppMsg::DownloadDone => MsgView::DownloadDone,
        }
    }
}

/// The whole state of the application.
#[derive(Debug)]
pub struct App {
    pub urls: Vec<String>,
    pub tracks: Vec<Track>,
    pub track_offset: usize,
    pub input: String,
    pub cursor: usize,
    pub log: Vec<LogEntry>,
    pub log_scroll: u16,
    pub fetching: bool,
    pub downloading: bool,
    pub progress: (usize, usize),
    pub tick: u8,
    pub output_dir: String,
    pub quality: String,
    pub next_id: usize,
}

/// The mathematical value of an [`App`].
pub ghost struct AppState {
    pub urls: Seq<Seq<char>>,
    pub tracks: Seq<TrackState>,
    pub track_offset: usize,
    pub input: Seq<char>,
    pub cursor: usize,
    pub log: Seq<LogLine>,
    pub log_scroll: u16,
    pub fetching: bool,
    pub downloading: bool,
    pub progress: (usize, usize),
    pub tick: u8,
    pub output_dir: Seq<char>,
    pub quality: Seq<char>,
    pub next_id: usize,
}

/// The tracks, as values.
pub open spec fn track_views(ts: Seq<Track>) -> Seq<TrackState> {
    ts.map_values(|t: Track| t@)
}

/// The log lines, as values.
pub open spec fn log_views(ls: Seq<LogEntry>) -> Seq<LogLine> {
    ls.map_values(|e: LogEntry| e@)
}

impl View for App {
    type V = AppState;

    open spec fn view(&self) -> AppState {
        AppState {
            urls: self.urls.deep_view(),
            tracks: track_views(self.tracks@),
            track_offset: self.track_offset,
            input: self.input@,
            cursor: self.cursor,
            log: log_views(self.log@),
            log_scroll: self.log_scroll,
            fetching: self.fetching,
            downloading: self.downloading,
            progress: self.progress,
            tick: self.tick,
            output_dir: self.output_dir@,
            quality: self.quality@,
            next_id: self.next_id,
        }
    }
}

/// The most log lines the application keeps.
pub open spec fn log_capacity() -> nat {
    1000
}

/// The log after one more line: when it grows past its capacity, its oldest 200 lines go.
pub open spec fn log_after(log: Seq<LogLine>, line: LogLine) -> Seq<LogLine> {
    let grown = log.push(line);
    if grown.len() > log_capacity() {
        grown.subrange(200, grown.len() as int)
    } else {
        grown
    }
}

/// The state after a line is logged: the log takes the line and scrolls back to its end.
pub open spec fn logged(s: AppState, line: LogLine) -> AppState {
    AppState { log: log_after(s.log, line), log_scroll: 0, ..s }
}

/// The line logged when a URL is queued.
pub open spec fn queued_line(url: Seq<char>) -> LogLine {
    LogLine::Dim("+ queued: "@ + url)
}

/// The state after a URL is queued.
pub open spec fn enqueued(s: AppState, url: Seq<char>) -> AppState {
    let t = logged(s, queued_line(url));
    AppState { urls: t.urls.push(url), ..t }
}

/// The state after everything is cleared: no URLs, tracks or progress, and a log of one line.
pub open spec fn cleared(s: AppState) -> AppState {
    logged(
        AppState {
            tracks: Seq::empty(),
            urls: Seq::empty(),
            log: Seq::empty(),
            progress: (0, 0),
            fetching: false,
            downloading: false,
            track_offset: 0,
            ..s
        },
        LogLine::Dim("Cleared."@),
    )
}

/// The greeting the log starts with.
pub open spec fn greeting() -> LogLine {
    LogLine::Dim("appldown — paste a URL and press Enter, then F5 to fetch, F6 to download."@)
}

/// The state of a fresh application that saves into `output_dir`.
pub open spec fn initial(output_dir: Seq<char>) -> AppState {
    logged(
        AppState {
            urls: Seq::empty(),
            tracks: Seq::empty(),
            track_offset: 0,
            input: Seq::empty(),
            cursor: 0,
            log: Seq::empty(),
            log_scroll: 0,
            fetching: false,
            downloading: false,
            progress: (0, 0),
            tick: 0,
            output_dir,
            quality: "320"@,
            next_id: 0,
        },
        greeting(),
    )
}

/// Whether `i` is the first position in `ts` of a track with id `id`.
pub open spec fn first_with_id(ts: Seq<TrackState>, id: usize, i: int) -> bool {
    &&& 0 <= i < ts.len()
    &&& ts[i].id == id
    &&& forall|j: int| 0 <= j < i ==> ts[j].id != id
}

/// The tracks after the first one with id `id`, if any, takes status `st`.
pub open spec fn with_status(ts: Seq<TrackState>, id: usize, st: StatusView) -> Seq<TrackState> {
    if exists|i: int| first_with_id(ts, id, i) {
        let i = choose|i: int| first_with_id(ts, id, i);
        ts.update(i, TrackState { status: st, ..ts[i] })
    } else {
        ts
    }
}

/// The state after a worker message is handled.
pub open spec fn after_msg(s: AppState, m: MsgView) -> AppState {
    match m {
        MsgView::TrackAdded(d) => AppState {
            tracks: s.tracks.push(TrackState { id: s.next_id, data: d, status: StatusView::Pending }),
            next_id: (s.next_id + 1) as usize,
            ..s
        },
        MsgView::SetStatus(id, st) => AppState { tracks: with_status(s.tracks, id, st), ..s },
        MsgView::Log(l) => logged(s, l),
        MsgView::Progress(d, t) => AppState { progress: (d, t), ..s },
        MsgView::FetchDone => AppState { fetching: false, ..s },
        MsgView::DownloadDone => AppState { downloading: false, ..s },
    }
}

/// Whether a message can be handled without an id counter overflow.
pub open spec fn msg_fits(s: AppState, m: MsgView) -> bool {
    m is TrackAdded ==> s.next_id < usize::MAX
}


/// `s` with `c` put in at position `k`.
pub open spec fn insert_at(s: Seq<char>, k: int, c: char) -> Seq<char> {
    s.take(k).push(c) + s.skip(k)
}

/// `s` without the character at position `k`.
pub open spec fn remove_at(s: Seq<char>, k: int) -> Seq<char> {
    s.take(k) + s.skip(k + 1)
}

/// The cursor clamped to the end of the input: where an edit at the cursor takes effect.
pub open spec fn edit_point(s: AppState) -> int {
    if s.cursor <= s.input.len() { s.cursor as int } else { s.input.len() as int }
}

/// The state after a character is typed: it goes in at the cursor, which moves past it.
pub open spec fn char_inserted(s: AppState, c: char) -> AppState {
    AppState { input: insert_at(s.input, edit_point(s), c), cursor: (s.cursor + 1) as usize, ..s }
}

/// The state after Backspace: the character before the cursor goes, and the cursor moves back.
pub open spec fn backspaced(s: AppState) -> AppState {
    if s.cursor > 0 {
        AppState {
            input: if s.cursor - 1 < s.input.len() { remove_at(s.input, s.cursor - 1) } else { s.input },
            cursor: (s.cursor - 1) as usize,
            ..s
        }
    } else {
        s
    }
}

/// The state after Delete: the character under the cursor goes.
pub open spec fn deleted_forward(s: AppState) -> AppState {
    if s.cursor < s.input.len() {
        AppState { input: remove_at(s.input, s.cursor as int), ..s }
    } else {
        s
    }
}

/// The state after the trimmed input, when it holds anything, is queued and the input emptied.
pub open spec fn input_submitted(s: AppState) -> AppState {
    let url = trimmed(s.input);
    if url.len() > 0 {
        AppState { input: Seq::empty(), cursor: 0, ..enqueued(s, url) }
    } else {
        s
    }
}

/// The line logged when a fetch is asked for with nothing queued.
pub open spec fn no_urls_line() -> LogLine {
    LogLine::Info("No URLs queued."@)
}

/// The line logged when a fetch is asked for while one runs.
pub open spec fn busy_fetching_line() -> LogLine {
    LogLine::Info("Already fetching."@)
}

/// The line logged when a download is asked for with no pending track.
pub open spec fn no_pending_line() -> LogLine {
    LogLine::Info("No pending tracks."@)
}

/// The line logged when a download is asked for while one runs.
pub open spec fn busy_downloading_line() -> LogLine {
    LogLine::Info("Already downloading."@)
}

/// A request to fetch: the state after it, and the URLs to fetch when a fetch starts.
pub open spec fn fetch_started(s: AppState) -> (AppState, Option<Seq<Seq<char>>>) {
    let t = input_submitted(s);
    if t.urls.len() == 0 {
        (logged(t, no_urls_line()), None)
    } else if t.fetching {
        (logged(t, busy_fetching_line()), None)
    } else {
        (AppState { fetching: true, ..t }, Some(t.urls))
    }
}

/// The id and metadata of every pending track, in table order.
pub open spec fn pending_of(ts: Seq<TrackState>) -> Seq<(usize, TrackInfo)>
    decreases ts.len(),
{
    if ts.len() == 0 {
        Seq::empty()
    } else {
        let rest = pending_of(ts.drop_last());
        if ts.last().status is Pending {
            rest.push((ts.last().id, ts.last().data))
        } else {
            rest
        }
    }
}

/// The mathematical value of a [`DownloadJob`].
pub ghost struct JobView {
    pub pending: Seq<(usize, TrackInfo)>,
    pub output_dir: Seq<char>,
    pub quality: Seq<char>,
}

/// A request to download: the state after it, and the job when a download starts.
pub open spec fn download_started(s: AppState) -> (AppState, Option<JobView>) {
    let p = pending_of(s.tracks);
    if p.len() == 0 {
        (logged(s, no_pending_line()), None)
    } else if s.downloading {
        (logged(s, busy_downloading_line()), None)
    } else {
        (
            AppState { downloading: true, progress: (0, p.len() as usize), ..s },
            Some(JobView { pending: p, output_dir: s.output_dir, quality: s.quality }),
        )
    }
}

/// The key that was pressed.
#[derive(Debug, Clone, Copy, PartialEq, Eq)]
pub enum KeyCode {
    Char(char),
    F(u8),
    Enter,
    Backspace,
    Delete,
    Left,
    Right,
    Home,
    End,
    Up,
    Down,
    PageUp,
    PageDown,
    Other,
}

/// The modifier keys held, as a set of bits.
#[derive(Debug, Clone, Copy, PartialEq, Eq)]
pub struct KeyModifiers {
    pub bits: u8,
}

/// The bit of the Control key.
pub const CONTROL: u8 = 2;

/// A key press.
#[derive(Debug, Clone, Copy, PartialEq, Eq)]
pub struct KeyEvent {
    pub code: KeyCode,
    pub modifiers: KeyModifiers,
}

/// Whether Control is among the modifiers.
pub open spec fn has_control(m: KeyModifiers) -> bool {
    m.bits & CONTROL != 0
}

/// Whether no modifier is held.
pub open spec fn no_modifiers(m: KeyModifiers) -> bool {
    m.bits == 0
}

/// Whether the key is the character `c` with Control held.
pub open spec fn is_ctrl_char(k: KeyEvent, c: char) -> bool {
    k.code == KeyCode::Char(c) && has_control(k.modifiers)
}

/// What a key press asks of the program around the application.
#[derive(Debug)]
pub enum KeyOutcome {
    /// Nothing: keep going.
    Continue,
    /// Leave the program.
    Quit,
    /// Start fetching the track lists of these URLs.
    Fetch(Vec<String>),
    /// Start downloading these tracks.
    Download(DownloadJob),
}

/// The tracks to download and where and how to save them.
#[derive(Debug)]
pub struct DownloadJob {
    pub pending: Vec<(usize, TrackData)>,
    pub output_dir: String,
    pub quality: String,
}

/// The pending tracks of a job, as values.
pub open spec fn pending_views(p: Seq<(usize, TrackData)>) -> Seq<(usize, TrackInfo)> {
    p.map_values(|e: (usize, TrackData)| (e.0, e.1@))
}

impl View for DownloadJob {
    type V = JobView;

    open spec fn view(&self) -> JobView {
        JobView { pending: pending_views(self.pending@), output_dir: self.output_dir@, quality: self.quality@ }
    }
}

/// The mathematical value of a [`KeyOutcome`].
pub ghost enum OutcomeView {
    Continue,
    Quit,
    Fetch(Seq<Seq<char>>),
    Download(JobView),
}

impl View for KeyOutcome {
    type V = OutcomeView;

    open spec fn view(&self) -> OutcomeView {
        match self {
            KeyOutcome::Continue => OutcomeView::Continue,
            KeyOutcome::Quit => OutcomeView::Quit,
            KeyOutcome::Fetch(u) => OutcomeView::Fetch(u.deep_view()),
            KeyOutcome::Download(j) => OutcomeView::Download(j@),
        }
    }
}

/// A fetch request as a key's outcome: the URLs to fetch where a fetch starts.
pub open spec fn fetch_outcome(r: (AppState, Option<Seq<Seq<char>>>)) -> (AppState, OutcomeView) {
    match r.1 {
        Some(u) => (r.0, OutcomeView::Fetch(u)),
        None => (r.0, OutcomeView::Continue),
    }
}

/// A download request as a key's outcome: the job where a download starts.
pub open spec fn download_outcome(r: (AppState, Option<JobView>)) -> (AppState, OutcomeView) {
    match r.1 {
        Some(j) => (r.0, OutcomeView::Download(j)),
        None => (r.0, OutcomeView::Continue),
    }
}

/// Whether the key types a character into the input.
pub open spec fn types_char(s: AppState, k: KeyEvent) -> bool {
    &&& k.code is Char
    &&& !is_ctrl_char(k, 'c')
    &&& !(k.code == KeyCode::Char('q') && no_modifiers(k.modifiers) && s.input.len() == 0)
    &&& !is_ctrl_char(k, 'l')
    &&& !is_ctrl_char(k, 'd')
    &&& !is_ctrl_char(k, 'a')
    &&& !is_ctrl_char(k, 'e')
    &&& !is_ctrl_char(k, 'u')
}

/// Whether handling the key stays within the counters' ranges.
pub open spec fn key_fits(s: AppState, k: KeyEvent) -> bool {
    &&& types_char(s, k) ==> s.cursor < usize::MAX
    &&& k.code is Down ==> s.track_offset < usize::MAX
    &&& k.code is PageUp ==> s.log_scroll + 5 <= u16::MAX
}

/// A key press: the state after it and what it asks of the program.
pub open spec fn after_key(s: AppState, k: KeyEvent) -> (AppState, OutcomeView) {
    if is_ctrl_char(k, 'c') {
        (s, OutcomeView::Quit)
    } else if k.code == KeyCode::Char('q') && no_modifiers(k.modifiers) && s.input.len() == 0 {
        (s, OutcomeView::Quit)
    } else if is_ctrl_char(k, 'l') {
        (cleared(s), OutcomeView::Continue)
    } else if is_ctrl_char(k, 'd') {
        download_outcome(download_started(s))
    } else if is_ctrl_char(k, 'a') {
        (AppState { cursor: 0, ..s }, OutcomeView::Continue)
    } else if is_ctrl_char(k, 'e') {
        (AppState { cursor: s.input.len() as usize, ..s }, OutcomeView::Continue)
    } else if is_ctrl_char(k, 'u') {
        (AppState { input: s.input.skip(edit_point(s)), cursor: 0, ..s }, OutcomeView::Continue)
    } else {
        match k.code {
            KeyCode::F(n) => if n == 5 {
                fetch_outcome(fetch_started(s))
            } else if n == 6 {
                download_outcome(download_started(s))
            } else {
                (s, OutcomeView::Continue)
            },
            KeyCode::Enter => (input_submitted(s), OutcomeView::Continue),
            KeyCode::Backspace => (backspaced(s), OutcomeView::Continue),
            KeyCode::Delete => (deleted_forward(s), OutcomeView::Continue),
            KeyCode::Left => (
                if s.cursor > 0 { AppState { cursor: (s.cursor - 1) as usize, ..s } } else { s },
                OutcomeView::Continue,
            ),
            KeyCode::Right => (
                if s.cursor < s.input.len() { AppState { cursor: (s.cursor + 1) as usize, ..s } } else { s },
                OutcomeView::Continue,
            ),
            KeyCode::Home => (AppState { cursor: 0, ..s }, OutcomeView::Continue),
            KeyCode::End => (AppState { cursor: s.input.len() as usize, ..s }, OutcomeView::Continue),
            KeyCode::Char(c) => (char_inserted(s, c), OutcomeView::Continue),
            KeyCode::Up => (
                AppState { track_offset: if s.track_offset > 0 { (s.track_offset - 1) as usize } else { 0 }, ..s },
                OutcomeView::Continue,
            ),
            KeyCode::Down => (
                if s.track_offset + 1 < s.tracks.len() {
                    AppState { track_offset: (s.track_offset + 1) as usize, ..s }
                } else {
                    s
                },
                OutcomeView::Continue,
            ),
            KeyCode::PageUp => (AppState { log_scroll: (s.log_scroll + 5) as u16, ..s }, OutcomeView::Continue),
            KeyCode::PageDown => (
                AppState { log_scroll: if s.log_scroll >= 5 { (s.log_scroll - 5) as u16 } else { 0 }, ..s },
                OutcomeView::Continue,
            ),
            KeyCode::Other => (s, OutcomeView::Continue),
        }
    }
}


/// A copy of a list of strings.
pub fn copy_strings(v: &Vec<String>) -> (r: Vec<String>)
    ensures
        r.deep_view() == v.deep_view(),
{
    let mut out: Vec<String> = Vec::new();
    let mut i: usize = 0;
    while i < v.len()
        invariant
            i <= v@.len(),
            out.deep_view() =~= v.deep_view().take(i as int),
        decreases v@.len() - i,
    {
        let ghost before = out@;
        let c = v[i].clone();
        out.push(c);
        i = i + 1;
        assert(out.deep_view() =~= before.map_values(|x: String| x.deep_view()).push(v@[i - 1]@));
        assert(v.deep_view().take(i as int) =~= v.deep_view().take(i - 1).push(v@[i - 1]@));
    }
    assert(v.deep_view().take(i as int) =~= v.deep_view());
    out
}

/// `s` with `c` put in at character position `k`.
fn inserted(s: &str, k: usize, c: char) -> (r: String)
    requires
        k <= s@.len(),
    ensures
        r@ == insert_at(s@, k as int, c),
{
    let n = s.unicode_len();
    let mut r = s.substring_char(0, k).to_owned();
    r.push(c);
    r.append(s.substring_char(k, n));
    proof {
        assert(s@.subrange(0, k as int) =~= s@.take(k as int));
        assert(s@.subrange(k as int, n as int) =~= s@.skip(k as int));
    }
    r
}

/// `s` without the character at position `k`.
fn removed(s: &str, k: usize) -> (r: String)
    requires
        k < s@.len(),
    ensures
        r@ == remove_at(s@, k as int),
{
    let n = s.unicode_len();
    let r = concat(s.substring_char(0, k), s.substring_char(k + 1, n));
    proof {
        assert(s@.subrange(0, k as int) =~= s@.take(k as int));
        assert(s@.subrange(k + 1, n as int) =~= s@.skip(k + 1));
    }
    r
}

fn copy_status(st: &TrackStatus) -> (r: TrackStatus)
    ensures
        r@ == st@,
{
    match st {
        TrackStatus::Pending => TrackStatus::Pending,
        TrackStatus::Downloading => TrackStatus::Downloading,
        TrackStatus::Embedding => TrackStatus::Embedding,
        TrackStatus::Done => TrackStatus::Done,
        TrackStatus::Failed(m) => TrackStatus::Failed(m.clone()),
    }
}

impl App {
    /// A fresh application that saves downloads into `output_dir`, with the greeting logged.
    pub fn new(output_dir: String) -> (r: App)
        ensures
            r@ == initial(output_dir@),
    {
        let mut app = App {
            urls: Vec::new(),
            tracks: Vec::new(),
            track_offset: 0,
            input: String::new(),
            cursor: 0,
            log: Vec::new(),
            log_scroll: 0,
            fetching: false,
            downloading: false,
            progress: (0, 0),
            tick: 0,
            output_dir,
            quality: "320".to_owned(),
            next_id: 0,
        };
        proof {
            assert(app.urls.deep_view() =~= Seq::<Seq<char>>::empty());
            assert(track_views(app.tracks@) =~= Seq::<TrackState>::empty());
            assert(log_views(app.log@) =~= Seq::<LogLine>::empty());
        }
        app.log(LogEntry::Dim(
            "appldown — paste a URL and press Enter, then F5 to fetch, F6 to download.".to_owned(),
        ));
        app
    }

    /// Adds a line to the log and scrolls the log back to its end.
    pub fn log(&mut self, entry: LogEntry)
        ensures
            final(self)@ == logged(old(self)@, entry@),
    {
        let ghost line = entry@;
        self.log.push(entry);
        assert(log_views(self.log@) =~= log_views(old(self).log@).push(line));
        if self.log.len() > 1000 {
            let rest = self.log.split_off(200);
            self.log = rest;
        }
        self.log_scroll = 0;
        assert(log_views(self.log@) =~= log_after(log_views(old(self).log@), line));
        assert(self@ =~= logged(old(self)@, line));
    }

    /// Queues a URL for the next fetch and logs that it was queued.
    pub fn enqueue_url(&mut self, url: String)
        ensures
            final(self)@ == enqueued(old(self)@, url@),
    {
        let line = concat("+ queued: ", url.as_str());
        self.log(LogEntry::Dim(line));
        let ghost mid = self@;
        let ghost u = url@;
        self.urls.push(url);
        assert(self.urls.deep_view() =~= mid.urls.push(u));
        assert(self@ =~= AppState { urls: mid.urls.push(u), ..mid });
    }

    /// Forgets every URL, track, log line and progress, stops both jobs and logs that it did.
    pub fn clear(&mut self)
        ensures
            final(self)@ == cleared(old(self)@),
    {
        self.tracks.clear();
        self.urls.clear();
        self.log.clear();
        self.progress = (0, 0);
        self.fetching = false;
        self.downloading = false;
        self.track_offset = 0;
        proof {
            assert(self.urls.deep_view() =~= Seq::<Seq<char>>::empty());
            assert(track_views(self.tracks@) =~= Seq::<TrackState>::empty());
            assert(log_views(self.log@) =~= Seq::<LogLine>::empty());
        }
        self.log(LogEntry::Dim("Cleared.".to_owned()));
    }

    /// The next unused track id.
    fn alloc_id(&mut self) -> (id: usize)
        requires
            old(self).next_id < usize::MAX,
        ensures
            id == old(self).next_id,
            final(self).next_id == old(self).next_id + 1,
            final(self).urls == old(self).urls,
            final(self).tracks == old(self).tracks,
            final(self).track_offset == old(self).track_offset,
            final(self).input == old(self).input,
            final(self).cursor == old(self).cursor,
            final(self).log == old(self).log,
            final(self).log_scroll == old(self).log_scroll,
            final(self).fetching == old(self).fetching,
            final(self).downloading == old(self).downloading,
            final(self).progress == old(self).progress,
            final(self).tick == old(self).tick,
            final(self).output_dir == old(self).output_dir,
            final(self).quality == old(self).quality,
    {
        let id = self.next_id;
        self.next_id = self.next_id + 1;
        id
    }

    /// Types `c` at the cursor and moves the cursor past it.
    pub fn insert_char(&mut self, c: char)
        requires
            old(self).cursor < usize::MAX,
        ensures
            final(self)@ == char_inserted(old(self)@, c),
    {
        let n = self.input.as_str().unicode_len();
        let k = if self.cursor <= n { self.cursor } else { n };
        self.input = inserted(self.input.as_str(), k, c);
        self.cursor = self.cursor + 1;
        assert(self@ =~= char_inserted(old(self)@, c));
    }

    /// Removes the character before the cursor and moves the cursor back onto its place.
    pub fn backspace(&mut self)
        ensures
            final(self)@ == backspaced(old(self)@),
    {
        if self.cursor > 0 {
            let n = self.input.as_str().unicode_len();
            if self.cursor - 1 < n {
                self.input = removed(self.input.as_str(), self.cursor - 1);
            }
            self.cursor = self.cursor - 1;
            assert(self@ =~= backspaced(old(self)@));
        }
    }

    fn delete_forward(&mut self)
        ensures
            final(self)@ == deleted_forward(old(self)@),
    {
        let n = self.input.as_str().unicode_len();
        if self.cursor < n {
            self.input = removed(self.input.as_str(), self.cursor);
            assert(self@ =~= deleted_forward(old(self)@));
        }
    }

    /// Queues the trimmed input, when it holds anything, and empties the input.
    fn submit_input(&mut self)
        ensures
            final(self)@ == input_submitted(old(self)@),
    {
        let url = trim(self.input.as_str());
        if !url.as_str().is_empty() {
            self.enqueue_url(url);
            self.input = String::new();
            self.cursor = 0;
            assert(self@ =~= input_submitted(old(self)@));
        }
    }

    /// Starts a fetch of every queued URL (queueing the input first), unless none is queued or
    /// a fetch runs; the URLs to fetch come back when it starts.
    pub fn start_fetch(&mut self) -> (r: Option<Vec<String>>)
        ensures
            (final(self)@, r.deep_view()) == fetch_started(old(self)@),
    {
        self.submit_input();
        if self.urls.len() == 0 {
            self.log(LogEntry::Info("No URLs queued.".to_owned()));
            return None;
        }
        if self.fetching {
            self.log(LogEntry::Info("Already fetching.".to_owned()));
            return None;
        }
        let ghost mid = self@;
        self.fetching = true;
        let urls = copy_strings(&self.urls);
        assert(self@ =~= AppState { fetching: true, ..mid });
        Some(urls)
    }

    /// The id and a copy of the metadata of every pending track.
    fn pending_tracks(&self) -> (r: Vec<(usize, TrackData)>)
        ensures
            pending_views(r@) == pending_of(track_views(self.tracks@)),
    {
        let mut out: Vec<(usize, TrackData)> = Vec::new();
        let mut i: usize = 0;
        while i < self.tracks.len()
            invariant
                i <= self.tracks@.len(),
                pending_views(out@) == pending_of(track_views(self.tracks@.take(i as int))),
            decreases self.tracks@.len() - i,
        {
            let t = &self.tracks[i];
            match t.status {
                TrackStatus::Pending => {
                    out.push((t.id, t.data.duplicate()));
                },
                _ => {},
            }
            i = i + 1;
            proof {
                let ts = track_views(self.tracks@.take(i as int));
                assert(ts.drop_last() =~= track_views(self.tracks@.take(i - 1)));
                assert(ts.last() == self.tracks@[i - 1]@);
                assert(pending_views(out@) =~= pending_of(ts));
            }
        }
        assert(self.tracks@.take(i as int) =~= self.tracks@);
        out
    }

    /// Starts a download of every pending track, unless none is pending or a download runs;
    /// the job comes back when it starts.
    pub fn start_download(&mut self) -> (r: Option<DownloadJob>)
        ensures
            (final(self)@, match r { Some(j) => Some(j@), None => None::<JobView> })
                == download_started(old(self)@),
    {
        let pending = self.pending_tracks();
        if pending.len() == 0 {
            self.log(LogEntry::Info("No pending tracks.".to_owned()));
            return None;
        }
        if self.downloading {
            self.log(LogEntry::Info("Already downloading.".to_owned()));
            return None;
        }
        self.downloading = true;
        self.progress = (0, pending.len());
        let job = DownloadJob { pending, output_dir: self.output_dir.clone(), quality: self.quality.clone() };
        assert(self@ =~= download_started(old(self)@).0);
        Some(job)
    }

    /// Handles a key press and says what it asks of the program around the application.
    pub fn handle_key(&mut self, key: KeyEvent) -> (r: KeyOutcome)
        requires
            key_fits(old(self)@, key),
        ensures
            (final(self)@, r@) == after_key(old(self)@, key),
    {
        let ctrl = key.modifiers.bits & CONTROL != 0;
        match key.code {
            KeyCode::Char('c') if ctrl => return KeyOutcome::Quit,
            KeyCode::Char('q') if key.modifiers.bits == 0 && self.input.as_str().is_empty() => {
                return KeyOutcome::Quit;
            },
            KeyCode::Char('l') if ctrl => self.clear(),
            KeyCode::Char('d') if ctrl => {
                return match self.start_download() {
                    Some(job) => KeyOutcome::Download(job),
                    None => KeyOutcome::Continue,
                };
            },
            KeyCode::F(5) => {
                return match self.start_fetch() {
                    Some(urls) => KeyOutcome::Fetch(urls),
                    None => KeyOutcome::Continue,
                };
            },
            KeyCode::F(6) => {
                return match self.start_download() {
                    Some(job) => KeyOutcome::Download(job),
                    None => KeyOutcome::Continue,
                };
            },
            KeyCode::Enter => self.submit_input(),
            KeyCode::Backspace => self.backspace(),
            KeyCode::Delete => self.delete_forward(),
            KeyCode::Left => {
                if self.cursor > 0 {
                    self.cursor = self.cursor - 1;
                }
            },
            KeyCode::Right => {
                if self.cursor < self.input.as_str().unicode_len() {
                    self.cursor = self.cursor + 1;
                }
            },
            KeyCode::Home => self.cursor = 0,
            KeyCode::End => self.cursor = self.input.as_str().unicode_len(),
            KeyCode::Char('a') if ctrl => self.cursor = 0,
            KeyCode::Char('e') if ctrl => self.cursor = self.input.as_str().unicode_len(),
            KeyCode::Char('u') if ctrl => {
                let n = self.input.as_str().unicode_len();
                let k = if self.cursor <= n { self.cursor } else { n };
                let tail = self.input.as_str().substring_char(k, n).to_owned();
                proof {
                    assert(self.input@.subrange(k as int, n as int) =~= self.input@.skip(k as int));
                }
                self.input = tail;
                self.cursor = 0;
            },
            KeyCode::Char(c) => self.insert_char(c),
            KeyCode::Up => {
                if self.track_offset > 0 {
                    self.track_offset = self.track_offset - 1;
                }
            },
            KeyCode::Down => {
                if self.track_offset + 1 < self.tracks.len() {
                    self.track_offset = self.track_offset + 1;
                }
            },
            KeyCode::PageUp => self.log_scroll = self.log_scroll + 5,
            KeyCode::PageDown => {
                if self.log_scroll >= 5 {
                    self.log_scroll = self.log_scroll - 5;
                } else {
                    self.log_scroll = 0;
                }
            },
            _ => {},
        }
        assert(self@ =~= after_key(old(self)@, key).0);
        KeyOutcome::Continue
    }

    /// Whether the message can be handled without the id counter overflowing.
    pub fn can_take_msg(&self, msg: &AppMsg) -> (r: bool)
        ensures
            r == msg_fits(self@, msg@),
    {
        match msg {
            AppMsg::TrackAdded(_) => self.next_id < usize::MAX,
            _ => true,
        }
    }

    /// Whether the key can be handled without a counter overflowing.
    pub fn can_take_key(&self, key: &KeyEvent) -> (r: bool)
        ensures
            r == key_fits(self@, *key),
    {
        let ctrl = key.modifiers.bits & CONTROL != 0;
        let typed = match key.code {
            KeyCode::Char(c) => !(ctrl && (c == 'c' || c == 'l' || c == 'd' || c == 'a' || c == 'e' || c == 'u'))
                && !(c == 'q' && key.modifiers.bits == 0 && self.input.as_str().is_empty()),
            _ => false,
        };
        let down = match key.code {
            KeyCode::Down => true,
            _ => false,
        };
        let page_up = match key.code {
            KeyCode::PageUp => true,
            _ => false,
        };
        (!typed || self.cursor < usize::MAX) && (!down || self.track_offset < usize::MAX) && (!page_up
            || self.log_scroll <= u16::MAX - 5)
    }

    /// Applies one message from a worker.
    pub fn handle_msg(&mut self, msg: AppMsg)
        requires
            msg_fits(old(self)@, msg@),
        ensures
            final(self)@ == after_msg(old(self)@, msg@),
    {
        let ghost m = msg@;
        match msg {
            AppMsg::TrackAdded(data) => {
                let id = self.alloc_id();
                let ghost before = self.tracks@;
                self.tracks.push(Track { id, data, status: TrackStatus::Pending });
                assert(track_views(self.tracks@) =~= track_views(before).push(
                    TrackState { id: old(self)@.next_id, data: m->TrackAdded_0, status: StatusView::Pending },
                ));
                assert(self@ =~= after_msg(old(self)@, m));
            },
            AppMsg::SetStatus(id, status) => {
                let n = self.tracks.len();
                let mut i: usize = 0;
                while i < n && self.tracks[i].id != id
                    invariant
                        n == self.tracks@.len(),
                        self.tracks == old(self).tracks,
                        i <= n,
                        forall|j: int| 0 <= j < i ==> self.tracks@[j].id != id,
                    decreases n - i,
                {
                    i = i + 1;
                }
                let ghost ts = track_views(old(self).tracks@);
                assert forall|j: int| 0 <= j < i implies ts[j].id != id by {
                    assert(ts[j] == old(self).tracks@[j]@);
                }
                if i < n {
                    assert(ts[i as int] == old(self).tracks@[i as int]@);
                    assert(first_with_id(ts, id, i as int));
                    assert forall|k: int| first_with_id(ts, id, k) implies k == i by {
                        if k < i {
                        } else if k > i {
                            assert(ts[i as int].id == id);
                        }
                    }
                    let old_track = self.tracks.remove(i);
                    let ghost st = status@;
                    self.tracks.insert(i, Track { id: old_track.id, data: old_track.data, status });
                    assert(track_views(self.tracks@) =~= ts.update(
                        i as int,
                        TrackState { status: st, ..ts[i as int] },
                    ));
                } else {
                    assert forall|k: int| !first_with_id(ts, id, k) by {
                        if 0 <= k < n {
                            assert(ts[k] == old(self).tracks@[k]@);
                        }
                    }
                }
                assert(self@ =~= after_msg(old(self)@, m));
            },
            AppMsg::Log(entry) => self.log(entry),
            AppMsg::Progress(done, total) => {
                self.progress = (done, total);
                assert(self@ =~= after_msg(old(self)@, m));
            },
            AppMsg::FetchDone => {
                self.fetching = false;
                assert(self@ =~= after_msg(old(self)@, m));
            },
            AppMsg::DownloadDone => {
                self.downloading = false;
                assert(self@ =~= after_msg(old(self)@, m));
            },
        }
    }
}

} // verus!
