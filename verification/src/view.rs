//! What the screen shows, apart from how it is drawn.
use vstd::prelude::*;
use crate::app::{StatusView, Track, TrackStatus, TrackState};
use crate::external::{display_width, text_width};
use crate::text::{chars_of, concat, decimal, decimal_string, string_of};

verus! {

/// The frames of the busy spinner.
pub open spec fn spinner_frames() -> Seq<Seq<char>> {
    seq!["⠋"@, "⠙"@, "⠹"@, "⠸"@, "⠼"@, "⠴"@, "⠦"@, "⠧"@, "⠇"@, "⠏"@]
}

/// The spinner frame for a tick: each frame shows for two ticks.
pub open spec fn spinner_at(tick: u8) -> Seq<char> {
    spinner_frames()[((tick / 2) % 10) as int]
}

/// The spinner frame for a tick: each frame shows for two ticks.
pub fn spinner_frame(tick: u8) -> (r: &'static str)
    ensures
        r@ == spinner_at(tick),
{
    let i = (tick / 2) % 10;
    if i == 0 { "⠋" } else if i == 1 { "⠙" } else if i == 2 { "⠹" } else if i == 3 { "⠸" }
    else if i == 4 { "⠼" } else if i == 5 { "⠴" } else if i == 6 { "⠦" } else if i == 7 { "⠧" }
    else if i == 8 { "⠇" } else { "⠏" }
}

/// A text cut to at most `max` characters: a longer one keeps its first `max - 1` and ends
/// with `…`.
pub open spec fn shortened(s: Seq<char>, max: nat) -> Seq<char> {
    if max == 0 {
        Seq::empty()
    } else if s.len() <= max {
        s
    } else {
        s.take(max - 1).push('…')
    }
}

/// A text cut to at most `max_chars` characters, a cut one ending with `…`.
pub fn shorten(s: &str, max_chars: usize) -> (r: String)
    ensures
        r@ == shortened(s@, max_chars as nat),
{
    if max_chars == 0 {
        return String::new();
    }
    let n = s.unicode_len();
    if n <= max_chars {
        s.to_owned()
    } else {
        let mut r = s.substring_char(0, max_chars - 1).to_owned();
        r.push('…');
        assert(s@.subrange(0, max_chars - 1) =~= s@.take(max_chars - 1));
        r
    }
}

/// The status column of a track.
pub open spec fn status_text(st: StatusView, tick: u8) -> Seq<char> {
    match st {
        StatusView::Pending => "○ pending"@,
        StatusView::Downloading => spinner_at(tick) + " downloading"@,
        StatusView::Embedding => spinner_at(tick) + " embedding"@,
        StatusView::Done => "✓ done"@,
        StatusView::Failed(_) => "✗ failed"@,
    }
}

/// The status column of a track.
pub fn status_label(status: &TrackStatus, tick: u8) -> (r: String)
    ensures
        r@ == status_text(status@, tick),
{
    match status {
        TrackStatus::Pending => "○ pending".to_owned(),
        TrackStatus::Downloading => concat(spinner_frame(tick), " downloading"),
        TrackStatus::Embedding => concat(spinner_frame(tick), " embedding"),
        TrackStatus::Done => "✓ done".to_owned(),
        TrackStatus::Failed(_) => "✗ failed".to_owned(),
    }
}

/// The label of the progress gauge.
pub open spec fn progress_text(done: usize, total: usize) -> Seq<char> {
    if total == 0 {
        "idle"@
    } else {
        decimal(done as nat) + " / "@ + decimal(total as nat) + " tracks"@
    }
}

/// The label of the progress gauge.
pub fn progress_label(done: usize, total: usize) -> (r: String)
    ensures
        r@ == progress_text(done, total),
{
    if total == 0 {
        "idle".to_owned()
    } else {
        let mut s = decimal_string(done);
        s.append(" / ");
        s.append(decimal_string(total).as_str());
        s.append(" tracks");
        s
    }
}

/// The lines of the log on screen, as a range: the last `visible` lines before the last
/// `scroll` ones.
pub open spec fn log_range(len: usize, visible: usize, scroll: u16) -> (usize, usize) {
    let start = if len >= visible + scroll { (len - visible - scroll) as usize } else { 0 };
    let end = if len >= scroll { (len - scroll) as usize } else { 0 };
    (start, end)
}

/// The lines of the log on screen, as a range.
pub fn log_window(len: usize, visible: usize, scroll: u16) -> (r: (usize, usize))
    requires
        visible + scroll <= usize::MAX,
    ensures
        r == log_range(len, visible, scroll),
{
    let back = visible + scroll as usize;
    let start = if len >= back { len - back } else { 0 };
    let end = if len >= scroll as usize { len - scroll as usize } else { 0 };
    (start, end)
}

/// A text without every leading copy of `prefix`.
pub open spec fn strip_prefixes(s: Seq<char>, prefix: Seq<char>) -> Seq<char>
    decreases s.len(),
{
    if prefix.len() > 0 && prefix.len() <= s.len() && s.take(prefix.len() as int) == prefix {
        strip_prefixes(s.skip(prefix.len() as int), prefix)
    } else {
        s
    }
}

fn strip_https(s: &str) -> (r: String)
    ensures
        r@ == strip_prefixes(s@, "https://"@),
{
    let cs = chars_of(s);
    let p = chars_of("https://");
    let n = cs.len();
    let m = p.len();
    let mut i: usize = 0;
    assert(cs@.skip(0) =~= cs@);
    loop
        invariant
            cs@ == s@,
            p@ == "https://"@,
            n == cs@.len(),
            m == p@.len(),
            i <= n,
            strip_prefixes(s@, p@) == strip_prefixes(cs@.skip(i as int), p@),
        decreases n - i,
    {
        let mut matches = m > 0 && m <= n - i;
        let mut k: usize = 0;
        while matches && k < m
            invariant
                matches ==> (m > 0 && m <= n - i),
                k <= m,
                m == p@.len(),
                n == cs@.len(),
                i <= n,
                matches ==> forall|q: int| 0 <= q < k ==> cs@[i + q] == p@[q],
                !matches ==> !(m > 0 && m <= n - i && cs@.skip(i as int).take(m as int) == p@),
            decreases m - k,
        {
            if cs[i + k] != p[k] {
                matches = false;
                assert(cs@.skip(i as int).take(m as int)[k as int] != p@[k as int]);
            }
            k = k + 1;
        }
        let ghost rest = cs@.skip(i as int);
        if matches {
            assert(rest.take(m as int) =~= p@);
            assert(rest.skip(m as int) =~= cs@.skip(i + m));
            i = i + m;
        } else {
            let mut out: Vec<char> = Vec::new();
            let mut j: usize = i;
            while j < n
                invariant
                    i <= j <= n,
                    n == cs@.len(),
                    out@ == cs@.subrange(i as int, j as int),
                decreases n - j,
            {
                out.push(cs[j]);
                j = j + 1;
                assert(out@ =~= cs@.subrange(i as int, j as int));
            }
            assert(out@ =~= rest);
            return string_of(&out);
        }
    }
}

/// The line of the URL list for a link: without its leading `https://`, cut to the width.
pub open spec fn url_line(u: Seq<char>, width: usize) -> Seq<char> {
    shortened(strip_prefixes(u, "https://"@), (width - 2) as nat)
}

/// The lines of the URL list: the last `visible` links, each cut to the list's width less two.
pub open spec fn url_lines_of(urls: Seq<Seq<char>>, visible: usize, width: usize) -> Seq<Seq<char>> {
    let start = if urls.len() >= visible { urls.len() - visible } else { 0 };
    urls.skip(start).map_values(|u: Seq<char>| url_line(u, width))
}

/// The lines of the URL list: the last `visible` links, each cut to the list's width less two.
pub fn url_lines(urls: &Vec<String>, visible: usize, width: usize) -> (r: Vec<String>)
    requires
        width >= 2,
    ensures
        r.deep_view() == url_lines_of(urls.deep_view(), visible, width),
{
    let n = urls.len();
    let start = if n >= visible { n - visible } else { 0 };
    let mut out: Vec<String> = Vec::new();
    let mut i: usize = start;
    while i < n
        invariant
            start <= i <= n,
            n == urls@.len(),
            width >= 2,
            out.deep_view() =~= urls.deep_view().subrange(start as int, i as int).map_values(
                |u: Seq<char>| url_line(u, width),
            ),
        decreases n - i,
    {
        let line = shorten(strip_https(urls[i].as_str()).as_str(), width - 2);
        let ghost before = out.deep_view();
        out.push(line);
        i = i + 1;
        assert(out.deep_view() =~= before.push(url_line(urls.deep_view()[i - 1], width)));
        assert(urls.deep_view().subrange(start as int, i as int) =~= urls.deep_view().subrange(start as int, i - 1).push(urls.deep_view()[i - 1]));
    }
    assert(urls.deep_view().subrange(start as int, n as int) =~= urls.deep_view().skip(start as int));
    out
}

/// One row of the track table.
#[derive(Debug)]
pub struct TrackRow {
    pub number: String,
    pub artist: String,
    pub title: String,
    pub album: String,
    pub status: String,
}

/// The row of the track table for the track at position `i`.
pub open spec fn row_of(i: int, t: TrackState, tick: u8) -> (Seq<char>, Seq<char>, Seq<char>, Seq<char>, Seq<char>) {
    (
        decimal((i + 1) as nat),
        shortened(t.data.artist, 18),
        shortened(t.data.title, 26),
        shortened(t.data.album, 18),
        status_text(t.status, tick),
    )
}

/// A row of the track table, as values.
pub open spec fn row_view(r: TrackRow) -> (Seq<char>, Seq<char>, Seq<char>, Seq<char>, Seq<char>) {
    (r.number@, r.artist@, r.title@, r.album@, r.status@)
}

/// The rows of the track table: the position counted from one, the artist, title and album
/// cut to their columns, and the status.
pub fn track_rows(tracks: &Vec<Track>, tick: u8) -> (r: Vec<TrackRow>)
    ensures
        r@.len() == tracks@.len(),
        forall|i: int| 0 <= i < tracks@.len() ==> #[trigger] row_view(r@[i]) == row_of(i, tracks@[i]@, tick),
{
    let mut out: Vec<TrackRow> = Vec::new();
    let mut i: usize = 0;
    while i < tracks.len()
        invariant
            i <= tracks@.len(),
            out@.len() == i,
            forall|k: int| 0 <= k < i ==> #[trigger] row_view(out@[k]) == row_of(k, tracks@[k]@, tick),
        decreases tracks@.len() - i,
    {
        let t = &tracks[i];
        out.push(TrackRow {
            number: decimal_string(i + 1),
            artist: shorten(t.data.artist.as_str(), 18),
            title: shorten(t.data.title.as_str(), 26),
            album: shorten(t.data.album.as_str(), 18),
            status: status_label(&t.status, tick),
        });
        i = i + 1;
    }
    out
}

/// What the input line shows: the text and where the cursor stands, in columns.
#[derive(Debug)]
pub struct InputView {
    pub text: String,
    /// The cursor's column, where the input is not empty.
    pub cursor_column: Option<usize>,
}

/// The hint the empty input line shows.
pub open spec fn input_hint() -> Seq<char> {
    "Paste an Apple Music URL and press Enter…"@
}

/// The first character shown: enough of the start is hidden that the cursor fits.
pub open spec fn scroll_start(cursor: usize, width: usize) -> usize {
    if cursor >= width { (cursor - width + 1) as usize } else { 0 }
}

/// The text the input line shows.
pub open spec fn shown_input(input: Seq<char>, cursor: usize, width: usize) -> Seq<char> {
    if input.len() == 0 {
        input_hint()
    } else {
        let s = scroll_start(cursor, width) as int;
        let from = if s <= input.len() { s } else { input.len() as int };
        let to = if from + width <= input.len() { from + width } else { input.len() as int };
        input.subrange(from, to)
    }
}

/// The cursor's column on the input line: the width of the shown text before it.
pub open spec fn cursor_column_of(input: Seq<char>, cursor: usize, width: usize) -> Option<usize> {
    if input.len() == 0 {
        None
    } else {
        let s = scroll_start(cursor, width) as int;
        let from = if s <= input.len() { s } else { input.len() as int };
        let count = if cursor >= s { cursor - s } else { 0 };
        let to = if from + count <= input.len() { from + count } else { input.len() as int };
        Some(display_width(input.subrange(from, to)))
    }
}

/// What the input line of the given width shows.
pub fn input_view(input: &str, cursor: usize, width: usize) -> (r: InputView)
    requires
        !(width == 0 && cursor == usize::MAX),
    ensures
        r.text@ == shown_input(input@, cursor, width),
        r.cursor_column == cursor_column_of(input@, cursor, width),
{
    let n = input.unicode_len();
    if n == 0 {
        return InputView { text: "Paste an Apple Music URL and press Enter…".to_owned(), cursor_column: None };
    }
    let s = if cursor >= width { cursor - width + 1 } else { 0 };
    let from = if s <= n { s } else { n };
    let to = if width <= n - from { from + width } else { n };
    let text = input.substring_char(from, to).to_owned();
    let count = if cursor >= s { cursor - s } else { 0 };
    let upto = if count <= n - from { from + count } else { n };
    let column = text_width(input.substring_char(from, upto));
    InputView { text, cursor_column: Some(column) }
}

} // verus!
