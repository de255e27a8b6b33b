use appldown::app::{AppMsg, LogEntry, Track, TrackStatus};
use appldown::download::{download_outcome, download_plan, output_dir_for, parse_i32, safe, tag_plan};
use appldown::json::{
    extract_jsonld_tracks, extract_recursive_tracks, extract_serialized_tracks, page_scripts, scrape_tracks_from_html,
    scripts_from_matches,
    tracks_from_documents, Json,
};
use appldown::route::{path_segments, resolve_url, Resource, ResolveError};
use appldown::text::{decimal_string, is_all_digits, trim};
use appldown::track::{
    album_lookup, album_tracks, encode, item_to_track, lookup_tracks, release_year, search,
    search_result_or, sort_album_order, track_from_item, track_lookup, ItunesItem, TrackData,
};
use appldown::view::{
    input_view, log_window, progress_label, shorten, spinner_frame, status_label, track_rows, url_lines,
};
use appldown::worker::{
    fetch_announce, fetch_report, DownloadAction, DownloadEvent, DownloadRun, FetchRun,
};

fn item(kind: &str, artist: &str, title: &str) -> ItunesItem {
    ItunesItem {
        wrapper_type: kind.to_string(),
        artist_name: artist.to_string(),
        track_name: title.to_string(),
        collection_name: "Album".to_string(),
        collection_artist_name: None,
        track_number: None,
        track_count: None,
        disc_number: None,
        disc_count: None,
        release_date: None,
        primary_genre_name: None,
        composer_name: None,
        copyright: None,
        track_time_millis: None,
        artwork_url100: None,
    }
}

fn s(x: &str) -> String {
    x.to_string()
}

fn text(x: &str) -> Json {
    Json::Str(s(x))
}

fn obj(members: Vec<(&str, Json)>) -> Json {
    Json::Object(members.into_iter().map(|(k, v)| (s(k), v)).collect())
}

fn entry(a: &str, t: &str, al: &str) -> (String, String, String) {
    (s(a), s(t), s(al))
}

#[test]
fn encode_keeps_unreserved_and_escapes_the_rest() {
    assert_eq!(encode("AC/DC Back in Black"), "AC%2FDC+Back+in+Black");
    assert_eq!(encode("a-b_c.d~e"), "a-b_c.d~e");
    assert_eq!(encode("é&?"), "%C3%A9%26%3F");
    assert_eq!(encode(""), "");
}

#[test]
fn service_urls() {
    assert_eq!(track_lookup("123"), "https://itunes.apple.com/lookup?id=123");
    assert_eq!(album_lookup("9"), "https://itunes.apple.com/lookup?id=9&entity=song");
    assert_eq!(
        search("Daft Punk", "One More Time"),
        "https://itunes.apple.com/search?term=Daft+Punk+One+More+Time&media=music&limit=1"
    );
}

#[test]
fn trim_and_digits_and_decimal() {
    assert_eq!(trim("  x y \t\n"), "x y");
    assert_eq!(trim("\u{3000}\u{a0}z\u{2003}"), "z");
    assert_eq!(trim("   "), "");
    assert_eq!(trim(&trim(" a ")), trim(" a "));
    assert!(is_all_digits("0123"));
    assert!(is_all_digits(""));
    assert!(!is_all_digits("12a"));
    assert_eq!(decimal_string(0), "0");
    assert_eq!(decimal_string(40), "40");
    assert_eq!(decimal_string(1234567), "1234567");
}

#[test]
fn resolve_links() {
    match resolve_url("https://music.apple.com/us/album/some-album/1440857781?i=1440858155") {
        Ok(Resource::Track(id)) => assert_eq!(id, "1440858155"),
        other => panic!("unexpected {other:?}"),
    }
    match resolve_url("https://music.apple.com/us/album/some-album/1440857781") {
        Ok(Resource::Album(id)) => assert_eq!(id, "1440857781"),
        other => panic!("unexpected {other:?}"),
    }
    match resolve_url("https://music.apple.com/us/song/some-song/1440858155") {
        Ok(Resource::Track(id)) => assert_eq!(id, "1440858155"),
        other => panic!("unexpected {other:?}"),
    }
    match resolve_url("https://music.apple.com/us/music-video/clip/77") {
        Ok(Resource::Track(id)) => assert_eq!(id, "77"),
        other => panic!("unexpected {other:?}"),
    }
    let pl = "https://music.apple.com/us/playlist/mix/pl.u-abc";
    match resolve_url(pl) {
        Ok(Resource::Playlist(u)) => assert_eq!(u, pl),
        other => panic!("unexpected {other:?}"),
    }
}

#[test]
fn resolve_errors() {
    let e = resolve_url("not a url").unwrap_err();
    assert!(matches!(e, ResolveError::InvalidUrl(_)));
    assert_eq!(e.message(), "Invalid URL: relative URL without a base");
    let e = resolve_url("https://music.apple.com/us/song/name").unwrap_err();
    assert!(matches!(e, ResolveError::NoTrackId));
    assert_eq!(e.message(), "No track ID found in URL");
    let e = resolve_url("https://music.apple.com/us/album/name").unwrap_err();
    assert!(matches!(e, ResolveError::NoAlbumId));
    assert_eq!(e.message(), "No album ID found in URL");
    let e = resolve_url("https://music.apple.com/us/artist/x/5").unwrap_err();
    assert!(matches!(e, ResolveError::Unrecognized));
    assert_eq!(
        e.message(),
        "Unrecognized URL — expected an Apple Music album, track, or playlist link"
    );
}

#[test]
fn album_query_keeps_the_last_i() {
    match resolve_url("https://music.apple.com/album/x/1?i=2&i=3") {
        Ok(Resource::Track(id)) => assert_eq!(id, "3"),
        other => panic!("unexpected {other:?}"),
    }
}

#[test]
fn path_pieces() {
    assert_eq!(path_segments("//a//bc/"), vec![s("a"), s("bc")]);
    assert_eq!(path_segments(""), Vec::<String>::new());
    assert_eq!(path_segments("x"), vec![s("x")]);
}

#[test]
fn item_becomes_track_with_large_artwork() {
    let mut it = item("track", "Artist", "Song");
    it.artwork_url100 = Some(s("https://is1.mzstatic.com/image/100x100bb.jpg"));
    it.release_date = Some(s("2019-03-01T08:00:00Z"));
    it.primary_genre_name = Some(s("Pop"));
    it.disc_number = Some(1);
    it.track_time_millis = Some(1234);
    let t = item_to_track(&it);
    assert_eq!(t.artwork_url.as_deref(), Some("https://is1.mzstatic.com/image/3000x3000bb.jpg"));
    assert_eq!(t.year, "2019");
    assert_eq!(t.album_artist, "Artist");
    assert_eq!(t.genre, "Pop");
    assert_eq!(t.composer, "");
    assert_eq!(t.disk_number, Some(1));
    assert_eq!(t.duration_ms, Some(1234));
    it.collection_artist_name = Some(s("Various"));
    it.artwork_url100 = Some(s("https://x/cover.jpg"));
    let t = item_to_track(&it);
    assert_eq!(t.album_artist, "Various");
    assert_eq!(t.artwork_url.as_deref(), Some("https://x/cover.jpg"));
    let t = track_from_item(&it, Some(s("given")));
    assert_eq!(t.artwork_url.as_deref(), Some("given"));
}

#[test]
fn release_year_needs_four_bytes_on_a_boundary() {
    assert_eq!(release_year(&Some(s("2021-01-01"))), "2021");
    assert_eq!(release_year(&Some(s("99"))), "");
    assert_eq!(release_year(&Some(s("é12x"))), "é12");
    assert_eq!(release_year(&Some(s("1é23"))), "1é2");
    assert_eq!(release_year(&Some(s("1éé"))), "");
    assert_eq!(release_year(&None), "");
}

#[test]
fn album_keeps_tracks_in_disc_and_track_order() {
    let mut a = item("track", "A", "d2t1");
    a.disc_number = Some(2);
    a.track_number = Some(1);
    let mut b = item("track", "A", "d1t2");
    b.disc_number = Some(1);
    b.track_number = Some(2);
    let c = item("collection", "A", "album itself");
    let mut d = item("track", "A", "d1t1");
    d.disc_number = Some(1);
    d.track_number = Some(1);
    let e = item("track", "A", "none-first");
    let f = item("track", "A", "none-second");
    let got = album_tracks(&vec![a, b, c, d, e, f]);
    let titles: Vec<&str> = got.iter().map(|t| t.title.as_str()).collect();
    assert_eq!(titles, vec!["none-first", "none-second", "d1t1", "d1t2", "d2t1"]);
}

#[test]
fn sorting_is_stable() {
    let mk = |t: &str, disc: Option<u32>| {
        let mut x = TrackData::default();
        x.title = s(t);
        x.disk_number = disc;
        x
    };
    let v = vec![mk("b1", Some(2)), mk("a1", Some(1)), mk("b2", Some(2)), mk("a2", None)];
    let got: Vec<String> = sort_album_order(&v).into_iter().map(|t| t.title).collect();
    assert_eq!(got, vec![s("a2"), s("a1"), s("b1"), s("b2")]);
}

#[test]
fn lookup_and_search_results() {
    let got = lookup_tracks(&vec![item("track", "A", "x"), item("collection", "B", "y")]);
    assert_eq!(got.len(), 2);
    assert_eq!(got[1].artist, "B");
    let found = search_result_or(Some(vec![item("track", "Real", "Name")]), s("a"), s("t"), s("al"));
    assert_eq!(found.artist, "Real");
    let fallback = search_result_or(Some(vec![]), s("a"), s("t"), s("al"));
    assert_eq!((fallback.artist.as_str(), fallback.title.as_str(), fallback.album.as_str()), ("a", "t", "al"));
    assert_eq!(fallback.year, "");
    assert!(fallback.artwork_url.is_none());
    let failed = search_result_or(None, s("a"), s("t"), s("al"));
    assert_eq!(failed.title, "t");
}

#[test]
fn server_data_songs() {
    let song = obj(vec![
        ("contentDescriptor", obj(vec![("kind", text("song"))])),
        ("title", text("Track A")),
        ("artistName", text("Band")),
        ("tertiaryLinks", Json::Array(vec![obj(vec![("title", text("Record"))])])),
    ]);
    let not_song = obj(vec![
        ("contentDescriptor", obj(vec![("kind", text("album"))])),
        ("title", text("X")),
        ("artistName", text("Y")),
        ("inner", obj(vec![
            ("contentDescriptor", obj(vec![("kind", text("song"))])),
            ("title", text("Track B")),
            ("artistName", text("Solo")),
        ])),
    ]);
    let doc = Json::Array(vec![song, Json::Null, not_song]);
    assert_eq!(
        extract_serialized_tracks(&doc),
        vec![entry("Band", "Track A", "Record"), entry("Solo", "Track B", "")]
    );
    let untitled = obj(vec![
        ("contentDescriptor", obj(vec![("kind", text("song"))])),
        ("title", text("")),
        ("artistName", text("Y")),
    ]);
    assert!(extract_serialized_tracks(&untitled).is_empty());
}

#[test]
fn linked_data_track_lists() {
    let doc = obj(vec![
        ("@type", text("MusicPlaylist")),
        ("name", text("My Mix")),
        ("track", Json::Array(vec![
            obj(vec![("name", text("One")), ("byArtist", obj(vec![("name", text("A"))]))]),
            obj(vec![("name", text("Two")), ("byArtist", text("B"))]),
            obj(vec![("name", text("")), ("byArtist", text("C"))]),
            obj(vec![("name", text("Three"))]),
        ])),
    ]);
    assert_eq!(
        extract_jsonld_tracks(&doc),
        vec![entry("A", "One", "My Mix"), entry("B", "Two", "My Mix"), entry("", "Three", "My Mix")]
    );
    let other = obj(vec![("@type", text("WebPage")), ("track", Json::Array(vec![]))]);
    assert!(extract_jsonld_tracks(&other).is_empty());
    assert_eq!(extract_jsonld_tracks(&Json::Array(vec![other, doc])).len(), 3);
}

#[test]
fn media_cache_reads_embedded_documents() {
    let doc = obj(vec![
        (
            "blob",
            text(r#"[{"attributes":{"albumName":"LP","artistName":"Deep","name":"Nested"}}]"#),
        ),
        ("number", text("42")),
        ("plain", text("not json")),
        ("list", Json::Array(vec![obj(vec![(
            "attributes",
            obj(vec![("artistName", text("X")), ("name", text("Y"))]),
        )])])),
    ]);
    assert_eq!(
        extract_recursive_tracks(&doc),
        vec![entry("Deep", "Nested", "LP"), entry("X", "Y", "")]
    );
}

#[test]
fn page_documents_in_order_of_preference() {
    let ld = obj(vec![
        ("@type", text("MusicAlbum")),
        ("name", text("Alb")),
        ("track", Json::Array(vec![obj(vec![("name", text("T"))])])),
    ]);
    let empty_ld = obj(vec![("@type", text("MusicAlbum"))]);
    let cache = obj(vec![("attributes", obj(vec![("artistName", text("C")), ("name", text("D"))]))]);
    let got = tracks_from_documents(&None, &vec![None, Some(empty_ld), Some(ld)], &Some(cache));
    assert_eq!(got, vec![entry("", "T", "Alb")]);
    let cache = obj(vec![("attributes", obj(vec![("artistName", text("C")), ("name", text("D"))]))]);
    let got = tracks_from_documents(&Some(Json::Null), &vec![], &Some(cache));
    assert_eq!(got, vec![entry("C", "D", "")]);
    assert!(tracks_from_documents(&None, &vec![], &None).is_empty());
}

#[test]
fn page_scripts_are_found() {
    let html = r#"<html><script type="application/ld+json">{"a":1}</script>
<script id="serialized-server-data" type="x">[1]</script>
<script type='application/ld+json'>
{"b":2}</script><script id="shoebox-media-api-cache-amp-music">{}</script></html>"#;
    let p = page_scripts(html);
    assert_eq!(p.server.as_deref(), Some("[1]"));
    assert_eq!(p.linked, vec![s(r#"{"a":1}"#), s("\n{\"b\":2}")]);
    assert_eq!(p.cache.as_deref(), Some("{}"));
    let none = page_scripts("<p>nothing</p>");
    assert!(none.server.is_none() && none.linked.is_empty() && none.cache.is_none());
}

#[test]
fn file_names_are_made_safe() {
    assert_eq!(safe("  AC/DC: Live?  "), "AC_DC_ Live_");
    assert_eq!(safe("a<b>c\"d\\e|f*g\u{1}"), "a_b_c_d_e_f_g_");
    assert_eq!(safe("fine name"), "fine name");
}

#[test]
fn download_arguments() {
    let mut d = TrackData::default();
    d.artist = s("AC/DC");
    d.title = s("Thunderstruck");
    let p = download_plan(&d, "out", "320");
    assert_eq!(
        p.args,
        vec![
            s("-x"), s("--audio-format"), s("mp3"), s("--audio-quality"), s("320k"),
            s("--match-filter"), s("duration < 1200"), s("--no-playlist"), s("--quiet"),
            s("--no-warnings"), s("-o"), s("out/AC_DC - Thunderstruck.%(ext)s"),
            s("ytsearch1:AC/DC - Thunderstruck"),
        ]
    );
    assert_eq!(p.mp3_name, "AC_DC - Thunderstruck.mp3");
    let mut e = TrackData::default();
    e.title = s("Solo");
    let p = download_plan(&e, "o", "128");
    assert_eq!(p.args[11], "o/Solo.%(ext)s");
    assert_eq!(p.args[12], "ytsearch1:Solo");
    assert_eq!(p.mp3_name, "Solo.mp3");
}

#[test]
fn integers_parse_as_str_parse_does() {
    for t in ["2020", "-5", "+7", "0", "-0", "2147483647", "-2147483648", "", "-", "+", "12a", " 1", "2147483648", "-2147483649", "99999999999999999999"] {
        assert_eq!(parse_i32(t), t.parse::<i32>().ok(), "{t:?}");
    }
}

#[test]
fn tag_contents() {
    let mut d = TrackData::default();
    d.title = s("T");
    d.artist = s("A");
    d.album = s("L");
    d.year = s("2001");
    d.composer = s("C");
    d.copyright = s("(c)");
    d.track_number = Some(3);
    d.duration_ms = Some(4_294_967_296 + 5);
    d.artwork_url = Some(s("u"));
    let p = tag_plan(&d);
    assert_eq!(p.year, Some(2001));
    assert_eq!(p.genre, None);
    assert_eq!(p.track, Some(3));
    assert_eq!(p.duration, Some(5));
    assert_eq!(p.text_frames, vec![(s("TCOM"), s("C")), (s("TCOP"), s("(c)"))]);
    assert_eq!(p.artwork_url.as_deref(), Some("u"));
    d.year = s("n/a");
    d.genre = s("Rock");
    d.album_artist = s("AA");
    let p = tag_plan(&d);
    assert_eq!(p.year, None);
    assert_eq!(p.genre.as_deref(), Some("Rock"));
    assert_eq!(p.text_frames[0], (s("TPE2"), s("AA")));
}

fn log_text(m: &AppMsg) -> String {
    match m {
        AppMsg::Log(LogEntry::Info(s)) => format!("info:{s}"),
        AppMsg::Log(LogEntry::Success(s)) => format!("ok:{s}"),
        AppMsg::Log(LogEntry::Error(s)) => format!("err:{s}"),
        AppMsg::Log(LogEntry::Dim(s)) => format!("dim:{s}"),
        other => format!("{other:?}"),
    }
}

#[test]
fn fetch_messages() {
    assert_eq!(log_text(&fetch_announce("u")), "info:Fetching u…");
    let mut t = TrackData::default();
    t.title = s("x");
    let msgs = fetch_report(Ok(vec![t.clone(), t]));
    assert_eq!(msgs.len(), 3);
    assert!(matches!(&msgs[0], AppMsg::TrackAdded(d) if d.title == "x"));
    assert_eq!(log_text(&msgs[2]), "ok:  ✓ 2 track(s) found");
    let msgs = fetch_report(Err(s("boom")));
    assert_eq!(msgs.len(), 1);
    assert_eq!(log_text(&msgs[0]), "err:  ✗ boom");
}

fn texts(msgs: &[AppMsg]) -> Vec<String> {
    msgs.iter().map(log_text).collect()
}

#[test]
fn download_run_messages() {
    let mut d = TrackData::default();
    d.artist = s("A");
    d.title = s("B");
    let mut e = TrackData::default();
    e.title = s("Only");
    let run = DownloadRun::new(vec![(4, d), (5, e)]);
    assert!(run.expects(&DownloadEvent::Start));
    assert!(!run.expects(&DownloadEvent::Tagged(None)));

    let (run, m, act) = run.step(DownloadEvent::Start);
    assert_eq!(log_text(&m[0]), "info:⟳  A — B");
    assert!(matches!(m[1], AppMsg::SetStatus(4, TrackStatus::Downloading)));
    assert!(matches!(&act, DownloadAction::Download(t) if t.title == "B"));

    let (run, m, act) = run.step(DownloadEvent::Downloaded(Ok(s("/out/A - B.mp3"))));
    assert_eq!(m.len(), 1);
    assert!(matches!(m[0], AppMsg::SetStatus(4, TrackStatus::Embedding)));
    assert!(matches!(&act, DownloadAction::Tag(p, t) if p == "/out/A - B.mp3" && t.artist == "A"));

    // A tag that could not be written still leaves the track done and counted.
    let (run, m, act) = run.step(DownloadEvent::Tagged(Some(s("no tag"))));
    assert_eq!(log_text(&m[0]), "err:   ⚠ metadata: no tag");
    assert!(matches!(m[1], AppMsg::SetStatus(4, TrackStatus::Done)));
    assert_eq!(log_text(&m[2]), "ok:   ✓ saved");
    assert!(matches!(m[3], AppMsg::Progress(1, 2)));
    assert_eq!(log_text(&m[4]), "info:⟳  Only");
    assert!(matches!(m[5], AppMsg::SetStatus(5, TrackStatus::Downloading)));
    assert!(matches!(&act, DownloadAction::Download(t) if t.title == "Only"));

    let (run, m, act) = run.step(DownloadEvent::Downloaded(Err(s("exit 1"))));
    assert!(matches!(&m[0], AppMsg::SetStatus(5, TrackStatus::Failed(w)) if w == "exit 1"));
    assert_eq!(log_text(&m[1]), "err:   ✗ exit 1");
    assert!(matches!(m[2], AppMsg::Progress(1, 2)));
    assert_eq!(log_text(&m[3]), "ok:1/2 tracks downloaded.");
    assert!(matches!(m[4], AppMsg::DownloadDone));
    assert_eq!(m.len(), 5);
    assert!(matches!(act, DownloadAction::Finished));
    assert!(!run.expects(&DownloadEvent::Start));
}

#[test]
fn download_run_saved_without_warning() {
    let mut d = TrackData::default();
    d.title = s("T");
    let run = DownloadRun::new(vec![(9, d)]);
    let (run, _, _) = run.step(DownloadEvent::Start);
    let (run, _, _) = run.step(DownloadEvent::Downloaded(Ok(s("p"))));
    let (_, m, act) = run.step(DownloadEvent::Tagged(None));
    assert_eq!(
        texts(&m),
        vec![
            s("SetStatus(9, Done)"),
            s("ok:   ✓ saved"),
            s("Progress(1, 1)"),
            s("ok:1/1 tracks downloaded."),
            s("DownloadDone"),
        ]
    );
    assert!(matches!(act, DownloadAction::Finished));
}

#[test]
fn download_run_with_nothing_pending() {
    let run = DownloadRun::new(Vec::new());
    let (_, m, act) = run.step(DownloadEvent::Start);
    assert_eq!(texts(&m), vec![s("ok:0/0 tracks downloaded."), s("DownloadDone")]);
    assert!(matches!(act, DownloadAction::Finished));
}

#[test]
fn fetch_run_messages() {
    let mut t = TrackData::default();
    t.title = s("x");
    let run = FetchRun::new(vec![s("u1"), s("u2")]);
    assert!(run.expects(&None));
    assert!(!run.expects(&Some(Ok(Vec::new()))));
    let (run, m, next) = run.step(None);
    assert_eq!(texts(&m), vec![s("info:Fetching u1…")]);
    assert_eq!(next.as_deref(), Some("u1"));
    assert!(run.is_awaiting());

    let (run, m, next) = run.step(Some(Ok(vec![t])));
    assert_eq!(m.len(), 3);
    assert!(matches!(&m[0], AppMsg::TrackAdded(d) if d.title == "x"));
    assert_eq!(log_text(&m[1]), "ok:  ✓ 1 track(s) found");
    assert_eq!(log_text(&m[2]), "info:Fetching u2…");
    assert_eq!(next.as_deref(), Some("u2"));

    let (run, m, next) = run.step(Some(Err(s("boom"))));
    assert_eq!(texts(&m), vec![s("err:  ✗ boom"), s("FetchDone")]);
    assert_eq!(next, None);
    assert!(run.is_finished());
    assert!(!run.expects(&None));
}

#[test]
fn fetch_run_without_links() {
    let (run, m, next) = FetchRun::new(Vec::new()).step(None);
    assert_eq!(texts(&m), vec![s("FetchDone")]);
    assert_eq!(next, None);
    assert!(run.is_finished());
}

#[test]
fn screen_texts() {
    assert_eq!(spinner_frame(0), "⠋");
    assert_eq!(spinner_frame(3), "⠙");
    assert_eq!(spinner_frame(19), "⠏");
    assert_eq!(spinner_frame(20), "⠋");
    assert_eq!(shorten("hello", 0), "");
    assert_eq!(shorten("hello", 5), "hello");
    assert_eq!(shorten("hello world", 6), "hello…");
    assert_eq!(shorten("héllo", 2), "h…");
    assert_eq!(status_label(&TrackStatus::Pending, 0), "○ pending");
    assert_eq!(status_label(&TrackStatus::Downloading, 2), "⠙ downloading");
    assert_eq!(status_label(&TrackStatus::Embedding, 0), "⠋ embedding");
    assert_eq!(status_label(&TrackStatus::Done, 0), "✓ done");
    assert_eq!(status_label(&TrackStatus::Failed(s("x")), 0), "✗ failed");
    assert_eq!(progress_label(0, 0), "idle");
    assert_eq!(progress_label(3, 10), "3 / 10 tracks");
    assert_eq!(log_window(10, 4, 0), (6, 10));
    assert_eq!(log_window(10, 4, 3), (3, 7));
    assert_eq!(log_window(3, 4, 5), (0, 0));
}

#[test]
fn url_list_lines() {
    let urls = vec![s("https://https://a.example/x"), s("http://b"), s("https://c.example/long/path")];
    assert_eq!(url_lines(&urls, 2, 10), vec![s("http://b"), s("c.examp…")]);
    assert_eq!(url_lines(&urls, 5, 30)[0], "a.example/x");
}

#[test]
fn track_table_rows() {
    let mut d = TrackData::default();
    d.artist = s("An Artist With A Long Name");
    d.title = s("T");
    let tracks = vec![Track { id: 7, data: d, status: TrackStatus::Done }];
    let rows = track_rows(&tracks, 0);
    assert_eq!(rows.len(), 1);
    assert_eq!(rows[0].number, "1");
    assert_eq!(rows[0].artist, "An Artist With A …");
    assert_eq!(rows[0].status, "✓ done");
}

#[test]
fn input_line() {
    let v = input_view("", 0, 10);
    assert_eq!(v.text, "Paste an Apple Music URL and press Enter…");
    assert_eq!(v.cursor_column, None);
    let v = input_view("abcdef", 3, 10);
    assert_eq!(v.text, "abcdef");
    assert_eq!(v.cursor_column, Some(3));
    let v = input_view("abcdef", 6, 4);
    assert_eq!(v.text, "def");
    assert_eq!(v.cursor_column, Some(3));
    let v = input_view("日本語", 2, 10);
    assert_eq!(v.cursor_column, Some(4));
}

#[test]
fn scripts_from_given_matches() {
    let p = scripts_from_matches(
        Some(vec![None, Some(s("second"))]),
        Some(vec![Some(s("a")), None, Some(s("b"))]),
        None,
    );
    assert_eq!(p.server, None);
    assert_eq!(p.linked, vec![s("a"), s("b")]);
    assert_eq!(p.cache, None);
    let p = scripts_from_matches(Some(vec![Some(s("x"))]), None, Some(vec![]));
    assert_eq!(p.server.as_deref(), Some("x"));
    assert!(p.linked.is_empty());
    assert!(p.cache.is_none());
}

#[test]
fn download_outcomes() {
    assert_eq!(download_outcome(true, Some(0), true, "/o/a.mp3"), Ok(()));
    assert_eq!(
        download_outcome(false, Some(1), false, "/o/a.mp3"),
        Err(s("yt-dlp exited with code Some(1)"))
    );
    assert_eq!(
        download_outcome(false, Some(-9), true, "/o/a.mp3"),
        Err(s("yt-dlp exited with code Some(-9)"))
    );
    assert_eq!(
        download_outcome(false, Some(i32::MIN), true, "x"),
        Err(s("yt-dlp exited with code Some(-2147483648)"))
    );
    assert_eq!(download_outcome(false, None, true, "x"), Err(s("yt-dlp exited with code None")));
    assert_eq!(
        download_outcome(true, Some(0), false, "/o/a.mp3"),
        Err(s("Expected MP3 not found: /o/a.mp3"))
    );
}

#[test]
fn output_folders() {
    assert_eq!(output_dir_for(Some(s("/home/me"))), "/home/me/Downloads/appldown");
    assert_eq!(output_dir_for(Some(s(""))), "downloads");
    assert_eq!(output_dir_for(None), "downloads");
}

#[test]
fn encoding_a_concatenation() {
    for (a, b) in [("a b", "é&c"), ("", "x~y"), ("Ünï", "")] {
        let ab = format!("{a}{b}");
        assert_eq!(encode(&ab), format!("{}{}", encode(a), encode(b)));
    }
    assert_eq!(encode("a b"), "a+b");
    assert_eq!(encode("é"), "%C3%A9");
}

#[test]
fn media_cache_reads_documents_nested_in_strings() {
    let inner = r#"{"attributes":{"artistName":"In","name":"Side"}}"#;
    let middle = format!("{{\"wrap\":{}}}", serde_json_text(inner));
    let doc = obj(vec![("outer", Json::Str(middle))]);
    assert_eq!(extract_recursive_tracks(&doc), vec![entry("In", "Side", "")]);
}

fn serde_json_text(t: &str) -> String {
    let mut out = String::from("\"");
    for c in t.chars() {
        if c == '"' || c == '\\' {
            out.push('\\');
        }
        out.push(c);
    }
    out.push('"');
    out
}

#[test]
fn scraping_a_page() {
    let html = r#"<html><head>
<script id="serialized-server-data" type="application/json">[{"x":1}]</script>
<script type="application/ld+json">not json</script>
<script type="application/ld+json">{"@type":"MusicPlaylist","name":"Mix","track":[{"name":"One","byArtist":{"name":"Ann"}},{"name":"Two","byArtist":"Bob"}]}</script>
<script id="shoebox-media-api-cache-amp-music">{"k":"{\"attributes\":{\"artistName\":\"C\",\"name\":\"D\"}}"}</script>
</head></html>"#;
    assert_eq!(
        scrape_tracks_from_html(html),
        vec![entry("Ann", "One", "Mix"), entry("Bob", "Two", "Mix")]
    );
    let cache_only = r#"<script id='shoebox-media-api-cache-amp-music'>{"k":"{\"attributes\":{\"artistName\":\"C\",\"name\":\"D\"}}"}</script>"#;
    assert_eq!(scrape_tracks_from_html(cache_only), vec![entry("C", "D", "")]);
    let server = r#"<script id="serialized-server-data">{"a":[{"contentDescriptor":{"kind":"song"},"title":"S","artistName":"R"}]}</script>"#;
    assert_eq!(scrape_tracks_from_html(server), vec![entry("R", "S", "")]);
    assert!(scrape_tracks_from_html("<html></html>").is_empty());
}
