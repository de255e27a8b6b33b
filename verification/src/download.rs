//! What a track download runs and what its tag gets.
use vstd::prelude::*;
use crate::external::{compile, regex_compiles, regex_replace_every, replace_every};
use crate::text::{all_digits, chars_of, concat, decimal, decimal_string, trim, trimmed};
use crate::track::{TrackData, TrackInfo};

verus! {

/// The characters a file name may not hold.
pub open spec fn unsafe_chars_pattern() -> Seq<char> {
    "[<>:\"/\\\\|?*\\x00-\\x1f]"@
}

/// A file-name part: the trimmed text with every character a file name may not hold replaced
/// by `_` (the trimmed text itself, should the pattern not compile).
pub open spec fn safe_name(s: Seq<char>) -> Seq<char> {
    if regex_compiles(unsafe_chars_pattern()) {
        regex_replace_every(unsafe_chars_pattern(), trimmed(s), "_"@)
    } else {
        trimmed(s)
    }
}

/// A file-name part made from a text.
pub fn safe(s: &str) -> (r: String)
    ensures
        r@ == safe_name(s@),
{
    let t = trim(s);
    match compile("[<>:\"/\\\\|?*\\x00-\\x1f]") {
        Some(p) => replace_every(&p, t.as_str(), "_"),
        None => t,
    }
}

/// The text searched for: the title, after the artist and ` - ` where there is an artist.
pub open spec fn search_query(d: TrackInfo) -> Seq<char> {
    if d.artist.len() == 0 { d.title } else { d.artist + " - "@ + d.title }
}

/// The name of the saved file without its extension.
pub open spec fn file_stem(d: TrackInfo) -> Seq<char> {
    if d.artist.len() == 0 {
        safe_name(d.title)
    } else {
        safe_name(d.artist) + " - "@ + safe_name(d.title)
    }
}

/// The arguments of the downloader for a track saved under `stem`: extract MP3 audio of the
/// given quality from the first search result shorter than twenty minutes, into the output
/// template.
pub open spec fn downloader_args_for(d: TrackInfo, stem: Seq<char>, output_dir: Seq<char>, quality: Seq<char>) -> Seq<Seq<char>> {
    seq![
        "-x"@,
        "--audio-format"@,
        "mp3"@,
        "--audio-quality"@,
        quality + "k"@,
        "--match-filter"@,
        "duration < 1200"@,
        "--no-playlist"@,
        "--quiet"@,
        "--no-warnings"@,
        "-o"@,
        output_dir + "/"@ + stem + ".%(ext)s"@,
        "ytsearch1:"@ + search_query(d),
    ]
}

/// The arguments of the downloader for a track.
pub open spec fn downloader_args(d: TrackInfo, output_dir: Seq<char>, quality: Seq<char>) -> Seq<Seq<char>> {
    downloader_args_for(d, file_stem(d), output_dir, quality)
}

/// How to download one track: the downloader's arguments and the name of the MP3 it leaves in
/// the output directory.
#[derive(Debug)]
pub struct DownloadPlan {
    pub args: Vec<String>,
    pub mp3_name: String,
}

/// The name of the saved file without its extension.
pub fn file_stem_of(data: &TrackData) -> (r: String)
    ensures
        r@ == file_stem(data@),
{
    if data.artist.as_str().unicode_len() == 0 {
        safe(data.title.as_str())
    } else {
        let mut f = safe(data.artist.as_str());
        f.append(" - ");
        f.append(safe(data.title.as_str()).as_str());
        f
    }
}

/// How to download a track into `output_dir` at `quality` kbit/s, saving it under `stem`.
pub fn plan_for_stem(data: &TrackData, stem: &str, output_dir: &str, quality: &str) -> (r: DownloadPlan)
    ensures
        r.args.deep_view() == downloader_args_for(data@, stem@, output_dir@, quality@),
        r.mp3_name@ == stem@ + ".mp3"@,
{
    let query = if data.artist.as_str().unicode_len() == 0 {
        data.title.clone()
    } else {
        let mut q = concat(data.artist.as_str(), " - ");
        q.append(data.title.as_str());
        q
    };
    let mut template = concat(output_dir, "/");
    template.append(stem);
    template.append(".%(ext)s");
    let mut args: Vec<String> = Vec::new();
    args.push("-x".to_owned());
    args.push("--audio-format".to_owned());
    args.push("mp3".to_owned());
    args.push("--audio-quality".to_owned());
    args.push(concat(quality, "k"));
    args.push("--match-filter".to_owned());
    args.push("duration < 1200".to_owned());
    args.push("--no-playlist".to_owned());
    args.push("--quiet".to_owned());
    args.push("--no-warnings".to_owned());
    args.push("-o".to_owned());
    args.push(template);
    args.push(concat("ytsearch1:", query.as_str()));
    let mp3_name = concat(stem, ".mp3");
    assert(args.deep_view() =~= downloader_args_for(data@, stem@, output_dir@, quality@));
    DownloadPlan { args, mp3_name }
}

/// How to download a track into `output_dir` at `quality` kbit/s.
pub fn download_plan(data: &TrackData, output_dir: &str, quality: &str) -> (r: DownloadPlan)
    ensures
        r.args.deep_view() == downloader_args(data@, output_dir@, quality@),
        r.mp3_name@ == file_stem(data@) + ".mp3"@,
{
    let stem = file_stem_of(data);
    plan_for_stem(data, stem.as_str(), output_dir, quality)
}

/// An integer written in decimal, with a leading `-` where it is negative.
pub open spec fn signed_decimal(n: int) -> Seq<char> {
    if n < 0 {
        "-"@ + decimal((-n) as nat)
    } else {
        decimal(n as nat)
    }
}

/// How a process's exit code is shown: `Some(` the code `)`, or `None` where it had none.
pub open spec fn exit_code_text(code: Option<i32>) -> Seq<char> {
    match code {
        Some(c) => "Some("@ + signed_decimal(c as int) + ")"@,
        None => "None"@,
    }
}

/// What a finished download came to: an error where the downloader failed (with its exit code),
/// else an error where the expected file at `path` is missing, else success.
pub open spec fn download_checked(success: bool, code: Option<i32>, exists: bool, path: Seq<char>) -> Result<(), Seq<char>> {
    if !success {
        Err("yt-dlp exited with code "@ + exit_code_text(code))
    } else if !exists {
        Err("Expected MP3 not found: "@ + path)
    } else {
        Ok(())
    }
}

fn signed_decimal_string(n: i32) -> (r: String)
    ensures
        r@ == signed_decimal(n as int),
{
    if n < 0 {
        let m: i64 = -(n as i64);
        concat("-", decimal_string(m as usize).as_str())
    } else {
        decimal_string(n as usize)
    }
}

/// What a finished download came to, from whether the downloader succeeded, its exit code,
/// and whether the file it should have written at `path` exists.
pub fn download_outcome(success: bool, code: Option<i32>, exists: bool, path: &str) -> (r: Result<(), String>)
    ensures
        match r {
            Ok(()) => download_checked(success, code, exists, path@) == Ok::<(), Seq<char>>(()),
            Err(e) => download_checked(success, code, exists, path@) == Err::<(), Seq<char>>(e@),
        },
{
    if !success {
        let shown = match code {
            Some(c) => {
                let mut t = concat("Some(", signed_decimal_string(c).as_str());
                t.append(")");
                t
            },
            None => "None".to_owned(),
        };
        Err(concat("yt-dlp exited with code ", shown.as_str()))
    } else if !exists {
        Err(concat("Expected MP3 not found: ", path))
    } else {
        Ok(())
    }
}

/// The folder downloads go to: `appldown/` in the Downloads folder of the home folder `home`,
/// or `downloads` where no home folder is known.
pub open spec fn output_folder(home: Option<Seq<char>>) -> Seq<char> {
    match home {
        Some(h) => if h.len() > 0 {
            h + "/Downloads/appldown"@
        } else {
            "downloads"@
        },
        None => "downloads"@,
    }
}

/// The folder downloads go to, given the home folder where one is known.
pub fn output_dir_for(home: Option<String>) -> (r: String)
    ensures
        r@ == output_folder(
            match home {
                Some(h) => Some(h@),
                None => None,
            },
        ),
{
    match home {
        Some(h) => {
            if h.as_str().unicode_len() > 0 {
                concat(h.as_str(), "/Downloads/appldown")
            } else {
                "downloads".to_owned()
            }
        },
        None => "downloads".to_owned(),
    }
}

/// The value of a string of decimal digits.
pub open spec fn digits_value(s: Seq<char>) -> int
    decreases s.len(),
{
    if s.len() == 0 {
        0
    } else {
        digits_value(s.drop_last()) * 10 + (s.last() as int - '0' as int)
    }
}

/// A text read as an `i32` the way `str::parse` reads it: an optional sign and at least one
/// digit, the value in range; `None` otherwise.
pub open spec fn parsed_i32(s: Seq<char>) -> Option<i32> {
    let neg = s.len() > 0 && s[0] == '-';
    let body = if s.len() > 0 && (s[0] == '-' || s[0] == '+') { s.drop_first() } else { s };
    if body.len() == 0 || !all_digits(body) {
        None
    } else {
        let v = if neg { -digits_value(body) } else { digits_value(body) };
        if i32::MIN <= v && v <= i32::MAX { Some(v as i32) } else { None }
    }
}

proof fn lemma_digits_grow(s: Seq<char>, k: int)
    requires
        0 <= k <= s.len(),
        all_digits(s),
    ensures
        digits_value(s) >= digits_value(s.take(k)) >= 0,
    decreases s.len(),
{
    if k < s.len() {
        assert(s.drop_last().take(k) =~= s.take(k));
        assert(all_digits(s.drop_last()));
        lemma_digits_grow(s.drop_last(), k);
    } else {
        assert(s.take(k) =~= s);
        if s.len() > 0 {
            assert(all_digits(s.drop_last()));
            lemma_digits_grow(s.drop_last(), s.len() - 1);
        }
    }
}

/// A text read as an `i32`: an optional sign and at least one digit, the value in range.
pub fn parse_i32(s: &str) -> (r: Option<i32>)
    ensures
        r == parsed_i32(s@),
{
    let cs = chars_of(s);
    let n = cs.len();
    let neg = n > 0 && cs[0] == '-';
    let start: usize = if n > 0 && (cs[0] == '-' || cs[0] == '+') { 1 } else { 0 };
    let ghost body = if s@.len() > 0 && (s@[0] == '-' || s@[0] == '+') { s@.drop_first() } else { s@ };
    assert(body =~= cs@.subrange(start as int, n as int));
    if start == n {
        return None;
    }
    let mut acc: i64 = 0;
    let mut i: usize = start;
    while i < n
        invariant
            start <= i <= n,
            n == cs@.len(),
            cs@ == s@,
            body == cs@.subrange(start as int, n as int),
            body == (if s@.len() > 0 && (s@[0] == '-' || s@[0] == '+') { s@.drop_first() } else { s@ }),
            body.len() > 0,
            all_digits(body.take(i - start)),
            acc == digits_value(body.take(i - start)),
            0 <= acc <= 2147483648,
        decreases n - i,
    {
        let c = cs[i];
        if !('0' <= c && c <= '9') {
            assert(body[i - start] == cs@[i as int]);
            assert(!crate::text::is_digit(body[i - start]));
            assert(!all_digits(body));
            return None;
        }
        let d: i64 = if c == '0' { 0 } else if c == '1' { 1 } else if c == '2' { 2 } else if c == '3' { 3 }
            else if c == '4' { 4 } else if c == '5' { 5 } else if c == '6' { 6 } else if c == '7' { 7 }
            else if c == '8' { 8 } else { 9 };
        assert(d == c as int - '0' as int);
        let ghost t = body.take(i + 1 - start);
        assert(t.drop_last() =~= body.take(i - start));
        assert(t.last() == c);
        acc = acc * 10 + d;
        i = i + 1;
        if acc > 2147483648 {
            proof {
                if all_digits(body) {
                    lemma_digits_grow(body, i - start);
                }
            }
            return None;
        }
    }
    assert(body.take(i - start) =~= body);
    if neg {
        Some((0 - acc) as i32)
    } else if acc <= 2147483647 {
        Some(acc as i32)
    } else {
        None
    }
}

/// What goes into a track's tag.
#[derive(Debug)]
pub struct TagPlan {
    pub title: String,
    pub artist: String,
    pub album: String,
    pub year: Option<i32>,
    pub genre: Option<String>,
    pub track: Option<u32>,
    pub total_tracks: Option<u32>,
    pub disc: Option<u32>,
    pub total_discs: Option<u32>,
    pub duration: Option<u32>,
    /// Text frames by their four-character id, in order.
    pub text_frames: Vec<(String, String)>,
    /// Where the cover picture is, if anywhere.
    pub artwork_url: Option<String>,
}

/// The text frames a track's tag gets: album artist, composer and copyright, those that are
/// not empty, in that order.
pub open spec fn text_frames_of(d: TrackInfo) -> Seq<(Seq<char>, Seq<char>)> {
    let a: Seq<(Seq<char>, Seq<char>)> = if d.album_artist.len() > 0 { seq![("TPE2"@, d.album_artist)] } else { seq![] };
    let b: Seq<(Seq<char>, Seq<char>)> = if d.composer.len() > 0 { seq![("TCOM"@, d.composer)] } else { seq![] };
    let c: Seq<(Seq<char>, Seq<char>)> = if d.copyright.len() > 0 { seq![("TCOP"@, d.copyright)] } else { seq![] };
    a + b + c
}

fn push_frame(frames: &mut Vec<(String, String)>, id: &str, value: &String)
    ensures
        final(frames).deep_view() == old(frames).deep_view() + (if value@.len() > 0 {
            seq![(id@, value@)]
        } else {
            Seq::<(Seq<char>, Seq<char>)>::empty()
        }),
{
    if value.as_str().unicode_len() > 0 {
        let ghost before = frames.deep_view();
        frames.push((id.to_owned(), value.clone()));
        assert(frames.deep_view() =~= before + seq![(id@, value@)]);
    } else {
        assert(frames.deep_view() =~= frames.deep_view() + Seq::<(Seq<char>, Seq<char>)>::empty());
    }
}

/// What the tag of a downloaded track gets: title, artist and album; the year where it reads as
/// a number; the genre where there is one; the numbers there are; the duration in milliseconds,
/// cut to 32 bits; the text frames; and the artwork to fetch.
pub fn tag_plan(data: &TrackData) -> (r: TagPlan)
    ensures
        r.title@ == data.title@,
        r.artist@ == data.artist@,
        r.album@ == data.album@,
        r.year == parsed_i32(data.year@),
        r.genre.deep_view() == (if data.genre@.len() > 0 { Some(data.genre@) } else { None }),
        r.track == data.track_number,
        r.total_tracks == data.track_count,
        r.disc == data.disk_number,
        r.total_discs == data.disk_count,
        r.duration == (match data.duration_ms { Some(ms) => Some(ms as u32), None => None }),
        r.text_frames.deep_view() == text_frames_of(data@),
        r.artwork_url.deep_view() == data.artwork_url.deep_view(),
{
    let mut frames: Vec<(String, String)> = Vec::new();
    push_frame(&mut frames, "TPE2", &data.album_artist);
    push_frame(&mut frames, "TCOM", &data.composer);
    push_frame(&mut frames, "TCOP", &data.copyright);
    assert(frames.deep_view() =~= text_frames_of(data@));
    TagPlan {
        title: data.title.clone(),
        artist: data.artist.clone(),
        album: data.album.clone(),
        year: parse_i32(data.year.as_str()),
        genre: if data.genre.as_str().unicode_len() > 0 { Some(data.genre.clone()) } else { None },
        track: data.track_number,
        total_tracks: data.track_count,
        disc: data.disk_number,
        total_discs: data.disk_count,
        duration: match data.duration_ms {
            Some(ms) => Some(ms as u32),
            None => None,
        },
        text_frames: frames,
        artwork_url: crate::track::copy_opt(&data.artwork_url),
    }
}

} // verus!
