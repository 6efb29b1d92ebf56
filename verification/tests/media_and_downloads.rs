use lumina::db::{select_migrations, MigrationFile};
use lumina::error::AppError;
use lumina::middleware::auth::{bearer_token, invalid_token, missing_token};
use lumina::models::file::Library;
use lumina::modules::download::aria2::{is_magnet_or_torrent, rpc_token, rpc_url, Aria2File, Aria2Status};
use lumina::modules::download::bittorrent::default_trackers;
use lumina::modules::download::client::{
    followed_gid, http_outcome, parse_content_disposition, plan_sync, range_request_value,
    response_accepted, route_task, terminal_action, total_size, url_file_name, HttpOutcome,
    TaskRoute, TerminalAction,
};
use lumina::modules::download::service::DownloadState;
use lumina::modules::library::scanner::{
    child_path, classify_by_extension, index_plan, media_full_path, media_thumb_name,
    summarize_probe, ProbeOutput, ProbeStream, ScanState,
};
use lumina::modules::library::service::{
    cursor_offset, library_deleted, library_found, like_pattern, media_found, page_limit,
    paginate,
};
use lumina::modules::stream::service::{
    asks_to_end_of_file, content_type_of, file_range, parse_range, plan_reply, NoopTranscode, TranscodeService,
};

#[test]
fn ranges_are_parsed() {
    assert_eq!(parse_range("bytes=0-99", 1000), Some((0, 99)));
    assert_eq!(parse_range("bytes=500-", 1000), Some((500, 999)));
    assert_eq!(parse_range("bytes=999-999", 1000), Some((999, 999)));
    assert_eq!(parse_range("bytes=5-2", 1000), None);
    assert_eq!(parse_range("bytes=0-1000", 1000), None);
    assert_eq!(parse_range("bytes=-5", 1000), None);
    assert_eq!(parse_range("items=0-5", 1000), None);
    assert_eq!(parse_range("bytes=0-5-6", 1000), None);
    assert_eq!(parse_range("bytes=+1-+2", 1000), Some((1, 2)));
    assert_eq!(parse_range("bytes=0-0", 0), None);
    assert_eq!(parse_range("bytes=x-", 0), None);
    assert!(asks_to_end_of_file("bytes=10-"));
    assert!(!asks_to_end_of_file("bytes=10-20"));
    assert!(!asks_to_end_of_file("bytes=-"));
    assert_eq!(parse_range("bytes=18446744073709551616-", 10), None);
}

#[test]
fn replies_for_ranges_and_whole_files() {
    let r = plan_reply(1000, Some("bytes=0-99"));
    assert_eq!(r.status, 206);
    assert_eq!(r.start, 0);
    assert_eq!(r.length, 100);
    assert_eq!(r.content_range.as_deref(), Some("bytes 0-99/1000"));
    let w = plan_reply(1000, Some("bytes=2000-"));
    assert_eq!(w.status, 200);
    assert_eq!(w.length, 1000);
    assert_eq!(w.content_range, None);
    let n = plan_reply(42, None);
    assert_eq!(n.status, 200);
    assert_eq!(n.start, 0);
    assert_eq!(n.length, 42);
}

#[test]
fn content_types_come_from_the_extension() {
    assert_eq!(content_type_of("/m/a.mp4"), "video/mp4");
    assert_eq!(content_type_of("/m/noext"), "application/octet-stream");
    let fr = file_range("/lib", "sub/a.png", 10);
    assert_eq!(fr.path, "/lib/sub/a.png");
    assert_eq!(fr.content_type, "image/png");
    assert_eq!(fr.size, 10);
}

#[test]
fn transcoding_is_not_supported() {
    match NoopTranscode.transcode("/a.mkv", "mp4") {
        Err(AppError::Internal(m)) => assert_eq!(m, "transcoding not supported in v1"),
        _ => panic!("expected an error"),
    }
}

#[test]
fn scans_do_not_overlap() {
    let mut s = ScanState::new();
    assert_eq!(s.status, "idle");
    assert!(!s.running);
    assert!(s.begin().is_ok());
    assert_eq!(s.status, "scanning");
    assert!(s.running);
    match s.begin() {
        Err(AppError::Conflict(m)) => assert_eq!(m, "scan already running"),
        _ => panic!("expected a conflict"),
    }
    assert!(s.running);
    s.set_total(3);
    s.record_file(0, "a.mkv".to_string());
    assert_eq!(s.processed, 1);
    assert_eq!(s.total, 3);
    assert_eq!(s.current_file, "a.mkv");
    s.finish(false);
    assert_eq!(s.status, "error");
    assert!(!s.running);
    assert!(s.begin().is_ok());
    assert_eq!(s.processed, 0);
    s.finish(true);
    assert_eq!(s.status, "done");
}

#[test]
fn scanned_files_are_classified_and_titled() {
    assert_eq!(classify_by_extension("Shows/ep1.M2TS"), "video");
    assert_eq!(classify_by_extension("a.heic"), "image");
    let p = index_plan("Movies/The Film.mkv");
    assert_eq!(p.file_type, "video");
    assert_eq!(p.title, "The Film");
    assert!(p.probe);
    let q = index_plan("docs/.profile");
    assert_eq!(q.file_type, "other");
    assert_eq!(q.title, ".profile");
    assert!(!q.probe);
    assert_eq!(child_path("", "a"), "a");
    assert_eq!(child_path("a", "b"), "a/b");
    assert_eq!(media_full_path("/lib", "a/b.mkv"), "/lib/a/b.mkv");
    assert_eq!(media_thumb_name("abc"), "900150983cd24fb0d6963f7d28e17f72.jpg");
}

#[test]
fn probes_are_summarized() {
    let probe = ProbeOutput {
        streams: Some(vec![
            ProbeStream { codec_type: Some("audio".to_string()), codec_name: Some("aac".to_string()), width: None, height: None },
            ProbeStream { codec_type: Some("video".to_string()), codec_name: Some("h264".to_string()), width: Some(1920), height: Some(1080) },
            ProbeStream { codec_type: Some("video".to_string()), codec_name: Some("mjpeg".to_string()), width: Some(1), height: Some(1) },
        ]),
        bit_rate: Some("4500000".to_string()),
    };
    let s = summarize_probe(&probe).unwrap();
    assert_eq!(s.codec.as_deref(), Some("h264"));
    assert_eq!(s.resolution.as_deref(), Some("1920x1080"));
    assert_eq!(s.bitrate, Some(4500000));
    let none = ProbeOutput { streams: None, bit_rate: None };
    assert!(summarize_probe(&none).is_none());
    let odd = ProbeOutput {
        streams: Some(vec![ProbeStream { codec_type: Some("video".to_string()), codec_name: None, width: Some(-1), height: None }]),
        bit_rate: Some("n/a".to_string()),
    };
    let o = summarize_probe(&odd).unwrap();
    assert_eq!(o.codec, None);
    assert_eq!(o.resolution, None);
    assert_eq!(o.bitrate, None);
}

#[test]
fn pages_and_cursors() {
    assert_eq!(cursor_offset(None), 0);
    assert_eq!(cursor_offset(Some("40".to_string())), 40);
    assert_eq!(cursor_offset(Some("x".to_string())), 0);
    assert_eq!(cursor_offset(Some("-3".to_string())), -3);
    assert_eq!(page_limit(20), 21);
    let page = paginate(vec![1, 2, 3], 10, 2, 99);
    assert_eq!(page.items, vec![1, 2]);
    assert_eq!(page.total, 99);
    assert_eq!(page.next_cursor.as_deref(), Some("12"));
    // following the cursor resumes after this page
    assert_eq!(cursor_offset(page.next_cursor.clone()), 12);
    let last = paginate(vec![1, 2], 12, 2, 99);
    assert_eq!(last.items, vec![1, 2]);
    assert_eq!(last.next_cursor, None);
    assert_eq!(like_pattern("star"), "%star%");
}

#[test]
fn missing_records() {
    match library_found(None) {
        Err(AppError::NotFound(m)) => assert_eq!(m, "library not found"),
        _ => panic!(),
    }
    match media_found(None) {
        Err(AppError::NotFound(m)) => assert_eq!(m, "media not found"),
        _ => panic!(),
    }
    let lib = Library { id: 1, name: "n".to_string(), path: "/p".to_string(), library_type: "movies".to_string(), created_at: 0 };
    assert_eq!(library_found(Some(lib)).unwrap().id, 1);
    assert!(library_deleted(1).is_ok());
    assert!(matches!(library_deleted(0), Err(AppError::NotFound(_))));
}

fn status(gid: &str, st: &str, total: &str, done: &str, speed: &str) -> Aria2Status {
    Aria2Status {
        gid: gid.to_string(),
        status: st.to_string(),
        total_length: total.to_string(),
        completed_length: done.to_string(),
        download_speed: speed.to_string(),
        upload_speed: "0".to_string(),
        files: vec![],
        error_message: None,
        followed_by: None,
    }
}

#[test]
fn aria2_statuses() {
    assert!(is_magnet_or_torrent("magnet:?xt=urn:btih:abc"));
    assert!(is_magnet_or_torrent("http://x/y.torrent"));
    assert!(!is_magnet_or_torrent("http://x/y.mkv"));
    assert_eq!(rpc_url(6800), "http://127.0.0.1:6800/jsonrpc");
    assert_eq!(rpc_token("abc"), "token:abc");
    let s = status("g1", "active", "1000", "250", "50");
    assert_eq!(s.total_bytes(), 1000);
    assert_eq!(s.completed_bytes(), 250);
    assert_eq!(s.speed_bytes(), 50);
    assert_eq!(s.eta(), 15);
    assert_eq!(s.mapped_status(), "downloading");
    let stalled = status("g", "waiting", "x", "", "0");
    assert_eq!(stalled.total_bytes(), 0);
    assert_eq!(stalled.eta(), 0);
    assert_eq!(stalled.mapped_status(), "queued");
    let neg = status("g", "bogus", "10", "17", "2");
    assert_eq!(neg.eta(), -3);
    assert_eq!(neg.mapped_status(), "queued");
    assert_eq!(status("g", "paused", "", "", "").mapped_status(), "paused");
    assert_eq!(status("g", "error", "", "", "").mapped_status(), "failed");
    assert_eq!(status("g", "complete", "", "", "").mapped_status(), "completed");
    assert_eq!(status("g", "removed", "", "", "").mapped_status(), "removed");
}

fn file(path: &str, selected: Option<&str>) -> Aria2File {
    Aria2File { path: path.to_string(), length: "1".to_string(), completed_length: "0".to_string(), selected: selected.map(|s| s.to_string()) }
}

#[test]
fn download_names() {
    let mut s = status("g", "active", "1", "0", "0");
    s.files = vec![file("/d/only.iso", None)];
    assert_eq!(s.file_name().as_deref(), Some("only.iso"));
    s.files = vec![file("/d/a.bin", Some("false")), file("/d/..", Some("true")), file("/d/b.bin", Some("true"))];
    assert_eq!(s.file_name().as_deref(), Some("b.bin"));
    s.files = vec![file("/d/a.bin", None), file("/d/b.bin", None)];
    assert_eq!(s.file_name(), None);
}

#[test]
fn aria2_polling_plans() {
    let mut done = status("g2", "complete", "10", "10", "0");
    done.files = vec![file("/d/x.mkv", None)];
    let mut failed = status("g3", "error", "10", "1", "0");
    failed.error_message = Some("boom".to_string());
    let mut meta = status("g4", "waiting", "0", "0", "0");
    meta.followed_by = Some(vec!["g5".to_string()]);
    let all = vec![status("g1", "active", "100", "40", "20"), done, failed, meta];
    let p = plan_sync("g1", &all).unwrap();
    assert_eq!(p.status_index, 0);
    assert_eq!(p.speed, 20);
    assert_eq!(p.size, 100);
    assert_eq!(p.eta, 3);
    assert!(matches!(p.terminal, TerminalAction::Continue));
    assert!(p.new_gid.is_none());
    let q = plan_sync("g2", &all).unwrap();
    assert!(matches!(q.terminal, TerminalAction::Complete));
    assert_eq!(q.file_name.as_deref(), Some("x.mkv"));
    let f = plan_sync("g3", &all).unwrap();
    match f.terminal {
        TerminalAction::Fail(m) => assert_eq!(m, "boom"),
        _ => panic!(),
    }
    let m = plan_sync("g4", &all).unwrap();
    assert_eq!(m.new_gid.as_deref(), Some("g5"));
    assert!(plan_sync("zz", &all).is_none());
    let silent = status("g", "error", "", "", "");
    assert!(matches!(terminal_action(&silent), TerminalAction::Continue));
    assert!(followed_gid(&status("g", "active", "", "", "")).is_none());
}

#[test]
fn tasks_are_routed() {
    assert!(matches!(route_task(true, "magnet:?x"), TaskRoute::Aria2));
    assert!(matches!(route_task(false, "http://a/b"), TaskRoute::Http));
    match route_task(false, "magnet:?x") {
        TaskRoute::Reject(m) => assert_eq!(m, "aria2 not available — install aria2c for BT/magnet support"),
        _ => panic!(),
    }
}

#[test]
fn http_downloads() {
    assert_eq!(url_file_name("http://example.com/files/movie.mkv"), "movie.mkv");
    assert_eq!(url_file_name("http://example.com/files/"), "files");
    assert_eq!(url_file_name(""), "download");
    assert_eq!(range_request_value(1024), "bytes=1024-");
    assert!(response_accepted(200));
    assert!(response_accepted(206));
    assert!(response_accepted(204));
    assert!(!response_accepted(301));
    assert!(!response_accepted(404));
    assert_eq!(total_size(0, None, Some(77)), 77);
    assert_eq!(total_size(0, Some("bytes 0-1/5"), None), 0);
    assert_eq!(total_size(5, Some("bytes 5-9/10"), Some(5)), 10);
    assert_eq!(total_size(5, Some("bytes 5-9/*"), Some(5)), 0);
    assert_eq!(total_size(5, None, Some(5)), 0);
    assert_eq!(http_outcome(true, true), HttpOutcome::Completed);
    assert_eq!(http_outcome(false, true), HttpOutcome::Paused);
    assert_eq!(http_outcome(false, false), HttpOutcome::Failed);
}

#[test]
fn resumed_downloads_are_served_the_rest() {
    let header = range_request_value(100);
    assert_eq!(parse_range(&header, 1000), Some((100, 999)));
    let reply = plan_reply(1000, Some(&header));
    assert_eq!(reply.status, 206);
    assert_eq!(total_size(100, reply.content_range.as_deref(), Some(reply.length)), 1000);
}

#[test]
fn content_disposition_names() {
    assert_eq!(parse_content_disposition("attachment; filename=\"a b.txt\"").as_deref(), Some("a b.txt"));
    assert_eq!(parse_content_disposition("attachment;filename=plain.bin").as_deref(), Some("plain.bin"));
    assert_eq!(parse_content_disposition("attachment; filename*=UTF-8''na%20me.txt").as_deref(), Some("na%20me.txt"));
    assert_eq!(parse_content_disposition("attachment; filename*=bad; filename=x").as_deref(), Some("x"));
    assert_eq!(parse_content_disposition("inline"), None);
    assert_eq!(parse_content_disposition("\u{3000}filename=\"q\""), Some("q".to_string()));
}

#[test]
fn trackers_are_parsed_once() {
    let t = default_trackers();
    assert_eq!(t.len(), 5);
    assert!(t.contains(&"udp://tracker.opentrackr.org:1337/announce".to_string()));
    assert!(t.contains(&"http://tracker.opentrackr.org:1337/announce".to_string()));
}

#[test]
fn bearer_tokens() {
    assert_eq!(bearer_token(Some("Bearer abc.def")).as_deref(), Some("abc.def"));
    assert_eq!(bearer_token(Some("Basic abc")), None);
    assert_eq!(bearer_token(Some("bearer abc")), None);
    assert_eq!(bearer_token(None), None);
    let m = missing_token();
    assert_eq!(m.status, 401);
    assert_eq!(m.code, "UNAUTHORIZED");
    assert_eq!(m.message, "missing token");
    assert_eq!(invalid_token().message, "invalid token");
}

#[test]
fn migrations_run_in_name_order() {
    let files = vec![
        MigrationFile { name: "002_b.sql".to_string() },
        MigrationFile { name: "README".to_string() },
        MigrationFile { name: "001_a.sql".to_string() },
        MigrationFile { name: "003.SQL".to_string() },
        MigrationFile { name: ".sql".to_string() },
    ];
    let names: Vec<String> = select_migrations(files).into_iter().map(|m| m.name).collect();
    assert_eq!(names, vec!["001_a.sql".to_string(), "002_b.sql".to_string()]);
}

#[test]
fn download_state_is_shared() {
    let s = DownloadState::new();
    let _t = s.clone();
}
