use appldown::app::{App, AppMsg, KeyCode, KeyEvent, KeyModifiers, KeyOutcome, LogEntry, TrackStatus, CONTROL};
use appldown::track::TrackData;
use appldown::worker::{fetch_report, DownloadAction, DownloadEvent, DownloadRun, FetchRun};

fn key(code: KeyCode) -> KeyEvent {
    KeyEvent { code, modifiers: KeyModifiers { bits: 0 } }
}

fn ctrl(c: char) -> KeyEvent {
    KeyEvent { code: KeyCode::Char(c), modifiers: KeyModifiers { bits: CONTROL } }
}

fn type_text(app: &mut App, s: &str) {
    for c in s.chars() {
        assert!(matches!(app.handle_key(key(KeyCode::Char(c))), KeyOutcome::Continue));
    }
}

fn track(artist: &str, title: &str) -> TrackData {
    let mut t = TrackData::default();
    t.artist = artist.to_string();
    t.title = title.to_string();
    t
}

fn text_of(e: &LogEntry) -> &str {
    match e {
        LogEntry::Info(s) | LogEntry::Success(s) | LogEntry::Error(s) | LogEntry::Dim(s) => s,
    }
}

#[test]
fn new_app_greets_and_defaults() {
    let app = App::new("out".to_string());
    assert_eq!(app.log.len(), 1);
    assert!(matches!(&app.log[0], LogEntry::Dim(s) if s == "appldown — paste a URL and press Enter, then F5 to fetch, F6 to download."));
    assert_eq!(app.quality, "320");
    assert_eq!(app.output_dir, "out");
    assert!(app.urls.is_empty() && app.tracks.is_empty());
    assert!(!app.fetching && !app.downloading);
    assert_eq!(app.progress, (0, 0));
}

#[test]
fn log_drops_oldest_two_hundred_past_capacity() {
    let mut app = App::new("out".to_string());
    for i in 0..999 {
        app.log(LogEntry::Info(format!("line {i}")));
    }
    assert_eq!(app.log.len(), 1000);
    app.log_scroll = 7;
    app.log(LogEntry::Info("last".to_string()));
    assert_eq!(app.log.len(), 801);
    assert_eq!(text_of(&app.log[0]), "line 199");
    assert_eq!(text_of(&app.log[800]), "last");
    assert_eq!(app.log_scroll, 0);
}

#[test]
fn enqueue_logs_and_appends() {
    let mut app = App::new("out".to_string());
    app.enqueue_url("https://a".to_string());
    app.enqueue_url("https://b".to_string());
    assert_eq!(app.urls, vec!["https://a".to_string(), "https://b".to_string()]);
    assert!(matches!(&app.log[2], LogEntry::Dim(s) if s == "+ queued: https://b"));
}

#[test]
fn clear_resets_everything_but_input() {
    let mut app = App::new("out".to_string());
    app.enqueue_url("u".to_string());
    app.handle_msg(AppMsg::TrackAdded(track("a", "t")));
    app.handle_msg(AppMsg::Progress(1, 2));
    app.fetching = true;
    app.downloading = true;
    app.track_offset = 0;
    type_text(&mut app, "xy");
    app.clear();
    assert!(app.urls.is_empty() && app.tracks.is_empty());
    assert_eq!(app.log.len(), 1);
    assert!(matches!(&app.log[0], LogEntry::Dim(s) if s == "Cleared."));
    assert_eq!(app.progress, (0, 0));
    assert!(!app.fetching && !app.downloading);
    assert_eq!(app.input, "xy");
    // clearing again leaves the same state
    app.clear();
    assert_eq!(app.log.len(), 1);
}

#[test]
fn messages_add_tracks_with_fresh_ids_and_set_status() {
    let mut app = App::new("out".to_string());
    app.handle_msg(AppMsg::TrackAdded(track("a", "one")));
    app.handle_msg(AppMsg::TrackAdded(track("b", "two")));
    assert_eq!(app.tracks[0].id, 0);
    assert_eq!(app.tracks[1].id, 1);
    assert_eq!(app.tracks[1].status, TrackStatus::Pending);
    app.handle_msg(AppMsg::SetStatus(1, TrackStatus::Failed("x".to_string())));
    assert_eq!(app.tracks[1].status, TrackStatus::Failed("x".to_string()));
    assert_eq!(app.tracks[0].status, TrackStatus::Pending);
    app.handle_msg(AppMsg::SetStatus(9, TrackStatus::Done));
    assert_eq!(app.tracks[0].status, TrackStatus::Pending);
    app.clear();
    app.handle_msg(AppMsg::TrackAdded(track("c", "three")));
    assert_eq!(app.tracks[0].id, 2);
    app.handle_msg(AppMsg::Progress(3, 4));
    assert_eq!(app.progress, (3, 4));
    app.fetching = true;
    app.downloading = true;
    app.handle_msg(AppMsg::FetchDone);
    assert!(!app.fetching);
    app.handle_msg(AppMsg::DownloadDone);
    assert!(!app.downloading);
    app.log_scroll = 3;
    app.handle_msg(AppMsg::Log(LogEntry::Error("bad".to_string())));
    assert!(matches!(app.log.last(), Some(LogEntry::Error(s)) if s == "bad"));
    assert_eq!(app.log_scroll, 0);
}

#[test]
fn typing_and_editing_the_input() {
    let mut app = App::new("out".to_string());
    type_text(&mut app, "héllo");
    assert_eq!(app.input, "héllo");
    assert_eq!(app.cursor, 5);
    app.handle_key(key(KeyCode::Left));
    app.handle_key(key(KeyCode::Left));
    app.handle_key(key(KeyCode::Char('X')));
    assert_eq!(app.input, "hélXlo");
    assert_eq!(app.cursor, 4);
    app.handle_key(key(KeyCode::Backspace));
    assert_eq!(app.input, "héllo");
    assert_eq!(app.cursor, 3);
    app.handle_key(key(KeyCode::Delete));
    assert_eq!(app.input, "hélo");
    app.handle_key(key(KeyCode::Home));
    assert_eq!(app.cursor, 0);
    app.handle_key(key(KeyCode::Backspace));
    assert_eq!(app.input, "hélo");
    app.handle_key(key(KeyCode::Left));
    assert_eq!(app.cursor, 0);
    app.handle_key(key(KeyCode::End));
    assert_eq!(app.cursor, 4);
    app.handle_key(key(KeyCode::Right));
    assert_eq!(app.cursor, 4);
    app.handle_key(key(KeyCode::Delete));
    assert_eq!(app.input, "hélo");
    app.handle_key(ctrl('a'));
    assert_eq!(app.cursor, 0);
    app.handle_key(ctrl('e'));
    assert_eq!(app.cursor, 4);
    app.cursor = 2;
    app.handle_key(ctrl('u'));
    assert_eq!(app.input, "lo");
    assert_eq!(app.cursor, 0);
}

#[test]
fn type_then_backspace_restores_input() {
    let mut app = App::new("out".to_string());
    type_text(&mut app, "abc");
    app.cursor = 1;
    app.handle_key(key(KeyCode::Char('Z')));
    app.handle_key(key(KeyCode::Backspace));
    assert_eq!(app.input, "abc");
    assert_eq!(app.cursor, 1);
}

#[test]
fn left_then_delete_matches_backspace() {
    let mut a = App::new("out".to_string());
    let mut b = App::new("out".to_string());
    type_text(&mut a, "abcd");
    type_text(&mut b, "abcd");
    a.cursor = 2;
    b.cursor = 2;
    a.handle_key(key(KeyCode::Left));
    a.handle_key(key(KeyCode::Delete));
    b.handle_key(key(KeyCode::Backspace));
    assert_eq!(a.input, b.input);
    assert_eq!(a.cursor, b.cursor);
    assert_eq!(a.input, "acd");
}

#[test]
fn cursor_past_the_end_edits_at_the_end() {
    let mut app = App::new("out".to_string());
    type_text(&mut app, "ab");
    app.cursor = 10;
    app.handle_key(key(KeyCode::Char('c')));
    assert_eq!(app.input, "abc");
    assert_eq!(app.cursor, 11);
    app.handle_key(key(KeyCode::Backspace));
    assert_eq!(app.input, "abc");
    assert_eq!(app.cursor, 10);
}

#[test]
fn quitting_keys() {
    let mut app = App::new("out".to_string());
    assert!(matches!(app.handle_key(ctrl('c')), KeyOutcome::Quit));
    assert!(matches!(app.handle_key(key(KeyCode::Char('q'))), KeyOutcome::Quit));
    type_text(&mut app, "x");
    assert!(matches!(app.handle_key(key(KeyCode::Char('q'))), KeyOutcome::Continue));
    assert_eq!(app.input, "xq");
    assert!(matches!(app.handle_key(ctrl('c')), KeyOutcome::Quit));
    assert_eq!(app.input, "xq");
}

#[test]
fn shifted_q_with_empty_input_is_typed() {
    let mut app = App::new("out".to_string());
    let k = KeyEvent { code: KeyCode::Char('q'), modifiers: KeyModifiers { bits: 1 } };
    assert!(matches!(app.handle_key(k), KeyOutcome::Continue));
    assert_eq!(app.input, "q");
}

#[test]
fn enter_queues_the_trimmed_input() {
    let mut app = App::new("out".to_string());
    type_text(&mut app, "  https://music.apple.com/x  ");
    app.handle_key(key(KeyCode::Enter));
    assert_eq!(app.urls, vec!["https://music.apple.com/x".to_string()]);
    assert_eq!(app.input, "");
    assert_eq!(app.cursor, 0);
    type_text(&mut app, "   ");
    app.handle_key(key(KeyCode::Enter));
    assert_eq!(app.urls.len(), 1);
    assert_eq!(app.input, "   ");
}

#[test]
fn fetch_starts_once_until_done() {
    let mut app = App::new("out".to_string());
    assert!(matches!(app.handle_key(key(KeyCode::F(5))), KeyOutcome::Continue));
    assert!(matches!(app.log.last(), Some(LogEntry::Info(s)) if s == "No URLs queued."));
    type_text(&mut app, "u1");
    match app.handle_key(key(KeyCode::F(5))) {
        KeyOutcome::Fetch(urls) => assert_eq!(urls, vec!["u1".to_string()]),
        other => panic!("unexpected {other:?}"),
    }
    assert!(app.fetching);
    assert!(matches!(app.handle_key(key(KeyCode::F(5))), KeyOutcome::Continue));
    assert!(matches!(app.log.last(), Some(LogEntry::Info(s)) if s == "Already fetching."));
    app.handle_msg(AppMsg::FetchDone);
    assert!(matches!(app.start_fetch(), Some(_)));
}

#[test]
fn download_takes_pending_tracks_only() {
    let mut app = App::new("dir".to_string());
    assert!(matches!(app.handle_key(key(KeyCode::F(6))), KeyOutcome::Continue));
    assert!(matches!(app.log.last(), Some(LogEntry::Info(s)) if s == "No pending tracks."));
    app.handle_msg(AppMsg::TrackAdded(track("a", "one")));
    app.handle_msg(AppMsg::TrackAdded(track("b", "two")));
    app.handle_msg(AppMsg::TrackAdded(track("c", "three")));
    app.handle_msg(AppMsg::SetStatus(1, TrackStatus::Done));
    match app.handle_key(ctrl('d')) {
        KeyOutcome::Download(job) => {
            assert_eq!(job.pending.len(), 2);
            assert_eq!(job.pending[0].0, 0);
            assert_eq!(job.pending[1].0, 2);
            assert_eq!(job.pending[1].1.title, "three");
            assert_eq!(job.output_dir, "dir");
            assert_eq!(job.quality, "320");
        }
        other => panic!("unexpected {other:?}"),
    }
    assert!(app.downloading);
    assert_eq!(app.progress, (0, 2));
    assert!(matches!(app.handle_key(key(KeyCode::F(6))), KeyOutcome::Continue));
    assert!(matches!(app.log.last(), Some(LogEntry::Info(s)) if s == "Already downloading."));
}

#[test]
fn ctrl_l_clears() {
    let mut app = App::new("out".to_string());
    app.enqueue_url("u".to_string());
    app.handle_key(ctrl('l'));
    assert!(app.urls.is_empty());
    assert!(matches!(&app.log[0], LogEntry::Dim(s) if s == "Cleared."));
}

#[test]
fn scrolling_keys() {
    let mut app = App::new("out".to_string());
    app.handle_key(key(KeyCode::Down));
    assert_eq!(app.track_offset, 0);
    app.handle_msg(AppMsg::TrackAdded(track("a", "1")));
    app.handle_msg(AppMsg::TrackAdded(track("a", "2")));
    app.handle_key(key(KeyCode::Down));
    app.handle_key(key(KeyCode::Down));
    assert_eq!(app.track_offset, 1);
    app.handle_key(key(KeyCode::Up));
    app.handle_key(key(KeyCode::Up));
    assert_eq!(app.track_offset, 0);
    app.handle_key(key(KeyCode::PageUp));
    app.handle_key(key(KeyCode::PageUp));
    assert_eq!(app.log_scroll, 10);
    app.handle_key(key(KeyCode::PageDown));
    assert_eq!(app.log_scroll, 5);
    app.log_scroll = 3;
    app.handle_key(key(KeyCode::PageDown));
    assert_eq!(app.log_scroll, 0);
    assert!(matches!(app.handle_key(key(KeyCode::F(7))), KeyOutcome::Continue));
    assert!(matches!(app.handle_key(key(KeyCode::Other)), KeyOutcome::Continue));
}

#[test]
fn quitting_changes_nothing() {
    let mut app = App::new("out".to_string());
    type_text(&mut app, "ab");
    app.cursor = 1;
    let before_log = app.log.len();
    assert!(matches!(app.handle_key(ctrl('c')), KeyOutcome::Quit));
    assert_eq!(app.input, "ab");
    assert_eq!(app.cursor, 1);
    assert_eq!(app.log.len(), before_log);
}

#[test]
fn ctrl_d_and_f6_agree() {
    let mut a = App::new("out".to_string());
    let mut b = App::new("out".to_string());
    for app in [&mut a, &mut b] {
        app.handle_msg(AppMsg::TrackAdded(track("x", "y")));
    }
    let ra = a.handle_key(ctrl('d'));
    let rb = b.handle_key(key(KeyCode::F(6)));
    assert!(matches!((ra, rb), (KeyOutcome::Download(x), KeyOutcome::Download(y)) if x.pending.len() == y.pending.len()));
    assert_eq!(a.progress, b.progress);
    assert_eq!(a.downloading, b.downloading);
}

#[test]
fn checks_before_handling() {
    let mut app = App::new("out".to_string());
    assert!(app.can_take_msg(&AppMsg::TrackAdded(track("a", "b"))));
    assert!(app.can_take_key(&key(KeyCode::PageUp)));
    app.log_scroll = u16::MAX - 4;
    assert!(!app.can_take_key(&key(KeyCode::PageUp)));
    assert!(app.can_take_key(&key(KeyCode::PageDown)));
    app.cursor = usize::MAX;
    assert!(!app.can_take_key(&key(KeyCode::Char('x'))));
    assert!(app.can_take_key(&ctrl('c')));
}

#[test]
fn worker_messages_drive_the_table() {
    let mut app = App::new("out".to_string());
    app.handle_msg(AppMsg::TrackAdded(track("z", "first")));
    for m in fetch_report(Ok(vec![track("a", "one"), track("b", "two")])) {
        app.handle_msg(m);
    }
    assert_eq!(app.tracks.len(), 3);
    assert_eq!((app.tracks[1].id, app.tracks[2].id), (1, 2));
    assert_eq!(app.tracks[2].data.title, "two");
    assert!(matches!(app.log.last(), Some(LogEntry::Success(s)) if s == "  ✓ 2 track(s) found"));

    let pending = vec![(1, app.tracks[1].data.clone()), (2, app.tracks[2].data.clone())];
    app.downloading = true;
    let run = DownloadRun::new(pending);
    let (run, msgs, _) = run.step(DownloadEvent::Start);
    for m in msgs {
        app.handle_msg(m);
    }
    assert_eq!(app.tracks[1].status, TrackStatus::Downloading);
    let (run, msgs, _) = run.step(DownloadEvent::Downloaded(Ok("one.mp3".to_string())));
    for m in msgs {
        app.handle_msg(m);
    }
    assert_eq!(app.tracks[1].status, TrackStatus::Embedding);
    let (run, msgs, _) = run.step(DownloadEvent::Tagged(None));
    for m in msgs {
        app.handle_msg(m);
    }
    assert_eq!(app.tracks[1].status, TrackStatus::Done);
    assert_eq!(app.tracks[0].status, TrackStatus::Pending);
    assert_eq!(app.tracks[2].status, TrackStatus::Downloading);
    assert_eq!(app.progress, (1, 2));

    let (_, msgs, _) = run.step(DownloadEvent::Downloaded(Err("no match".to_string())));
    for m in msgs {
        app.handle_msg(m);
    }
    assert_eq!(app.tracks[2].status, TrackStatus::Failed("no match".to_string()));
    assert_eq!(app.progress, (1, 2));
    assert!(!app.downloading);
}

#[test]
fn cursor_stays_at_the_ends() {
    let mut app = App::new("out".to_string());
    type_text(&mut app, "ab");
    app.handle_key(key(KeyCode::Right));
    assert_eq!(app.cursor, 2);
    app.handle_key(ctrl('a'));
    assert_eq!(app.cursor, 0);
    app.handle_key(key(KeyCode::Left));
    assert_eq!(app.cursor, 0);
    app.handle_key(ctrl('e'));
    assert_eq!(app.cursor, 2);
}

#[test]
fn backspace_undoes_insert_char() {
    let mut app = App::new("out".to_string());
    type_text(&mut app, "héllo");
    app.handle_key(key(KeyCode::Left));
    app.handle_key(key(KeyCode::Left));
    app.insert_char('x');
    assert_eq!((app.input.as_str(), app.cursor), ("hélxlo", 4));
    app.backspace();
    assert_eq!((app.input.as_str(), app.cursor), ("héllo", 3));
}

#[test]
fn down_stops_at_the_last_row() {
    let mut app = App::new("out".to_string());
    app.handle_key(key(KeyCode::Down));
    assert_eq!(app.track_offset, 0);
    app.handle_msg(AppMsg::TrackAdded(track("a", "1")));
    app.handle_msg(AppMsg::TrackAdded(track("b", "2")));
    app.handle_key(key(KeyCode::Down));
    app.handle_key(key(KeyCode::Down));
    assert_eq!(app.track_offset, 1);
    app.handle_key(key(KeyCode::Up));
    app.handle_key(key(KeyCode::Up));
    assert_eq!(app.track_offset, 0);
}

#[test]
fn a_whole_fetch_adds_what_its_links_found() {
    let mut app = App::new("out".to_string());
    type_text(&mut app, "https://music.apple.com/a");
    app.handle_key(key(KeyCode::Enter));
    type_text(&mut app, "https://music.apple.com/b");
    let urls = match app.handle_key(key(KeyCode::F(5))) {
        KeyOutcome::Fetch(u) => u,
        _ => panic!("no fetch started"),
    };
    assert!(app.fetching);
    let mut results = vec![Ok(vec![track("x", "1"), track("y", "2")]), Err("bad link".to_string())].into_iter();
    let mut run = FetchRun::new(urls);
    let mut fetched = None;
    loop {
        let (next, msgs, link) = run.step(fetched);
        run = next;
        for m in msgs {
            app.handle_msg(m);
        }
        match link {
            Some(_) => fetched = results.next(),
            None => break,
        }
    }
    assert!(!app.fetching);
    assert_eq!(app.tracks.len(), 2);
    assert_eq!((app.tracks[0].id, app.tracks[1].id), (0, 1));
    assert_eq!(app.tracks[1].data.title, "2");
    assert!(matches!(app.log.last(), Some(LogEntry::Error(s)) if s == "  ✗ bad link"));
}

#[test]
fn a_whole_download_sets_only_its_tracks() {
    let mut app = App::new("out".to_string());
    for t in ["1", "2", "3"] {
        app.handle_msg(AppMsg::TrackAdded(track("a", t)));
    }
    app.handle_msg(AppMsg::SetStatus(1, TrackStatus::Done));
    let job = match app.handle_key(key(KeyCode::F(6))) {
        KeyOutcome::Download(j) => j,
        _ => panic!("no download started"),
    };
    assert_eq!(job.pending.iter().map(|p| p.0).collect::<Vec<_>>(), vec![0, 2]);
    let mut run = DownloadRun::new(job.pending);
    let mut event = DownloadEvent::Start;
    loop {
        let (next, msgs, action) = run.step(event);
        run = next;
        for m in msgs {
            app.handle_msg(m);
        }
        event = match action {
            DownloadAction::Download(d) if d.title == "1" => DownloadEvent::Downloaded(Ok("one.mp3".to_string())),
            DownloadAction::Download(_) => DownloadEvent::Downloaded(Err("no match".to_string())),
            DownloadAction::Tag(_, _) => DownloadEvent::Tagged(Some("read-only".to_string())),
            DownloadAction::Finished => break,
        };
    }
    assert_eq!(app.tracks[0].status, TrackStatus::Done);
    assert_eq!(app.tracks[1].status, TrackStatus::Done);
    assert_eq!(app.tracks[2].status, TrackStatus::Failed("no match".to_string()));
    assert_eq!(app.progress, (1, 2));
    assert!(!app.downloading);
    assert!(matches!(app.log.last(), Some(LogEntry::Success(s)) if s == "1/2 tracks downloaded."));
}
