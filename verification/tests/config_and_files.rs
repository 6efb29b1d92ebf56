use lumina::config::{
    apply_env_overrides, config_file_name, default_db_path, default_download_dir, default_host,
    default_jwt_expiry, default_jwt_secret, default_port, default_thumbnail_dir, AuthConfig,
    Config, DataConfig, ServerConfig,
};
use lumina::error::AppError;
use lumina::modules::files::handler::{
    listing_path, media_root, thumbnail_size, upload_file_name, upload_reply_path, upload_target,
    ListQuery, ThumbnailQuery,
};
use lumina::modules::files::service::{
    classify_file, compound_path, download_path, is_bare_file_name, list_files, mkdir_target,
    require_directory, resolve_path, resolved_target, thumbnail_path, trash_dir, trash_target,
    urlencoding, DirEntryInfo,
};

#[test]
fn defaults_are_the_documented_ones() {
    assert_eq!(default_host(), "0.0.0.0");
    assert_eq!(default_port(), 8080);
    assert_eq!(default_db_path(), "data/lumina.db");
    assert_eq!(default_thumbnail_dir(), "data/thumbnails");
    assert_eq!(default_download_dir(), "data/downloads");
    assert_eq!(default_jwt_secret(), "change-me-in-production");
    assert_eq!(default_jwt_expiry(), 24);
    let c = Config::default();
    assert_eq!(c.server.host, "0.0.0.0");
    assert_eq!(c.server.port, 8080);
    assert_eq!(c.auth.jwt_expiry_hours, 24);
    let s = ServerConfig::default();
    assert_eq!(s.port, 8080);
    let d = DataConfig::default();
    assert_eq!(d.download_dir, "data/downloads");
    let a = AuthConfig::default();
    assert_eq!(a.jwt_secret, "change-me-in-production");
}

#[test]
fn accessors_read_the_configuration() {
    let c = Config::default();
    assert_eq!(c.server_addr(), "0.0.0.0:8080");
    assert_eq!(c.db_path(), "data/lumina.db");
    assert_eq!(c.thumbnail_dir(), "data/thumbnails");
    assert_eq!(c.download_dir(), "data/downloads");
    assert_eq!(c.jwt_secret(), "change-me-in-production");
    assert_eq!(c.jwt_expiry_hours(), 24);
    let mut c2 = Config::default();
    c2.server.host = "127.0.0.1".to_string();
    c2.server.port = 65535;
    assert_eq!(c2.server_addr(), "127.0.0.1:65535");
    c2.server.port = 0;
    assert_eq!(c2.server_addr(), "127.0.0.1:0");
}

#[test]
fn environment_overrides_apply() {
    let mut c = Config::default();
    apply_env_overrides(
        &mut c,
        Some("10.0.0.1".to_string()),
        Some("+9000".to_string()),
        Some("/var/db.sqlite".to_string()),
        Some("s3cret".to_string()),
    );
    assert_eq!(c.server.host, "10.0.0.1");
    assert_eq!(c.server.port, 9000);
    assert_eq!(c.data.db_path, "/var/db.sqlite");
    assert_eq!(c.auth.jwt_secret, "s3cret");
    assert_eq!(c.data.thumbnail_dir, "data/thumbnails");
}

#[test]
fn bad_port_override_is_ignored() {
    let mut c = Config::default();
    apply_env_overrides(&mut c, None, Some("70000".to_string()), None, None);
    assert_eq!(c.server.port, 8080);
    apply_env_overrides(&mut c, None, Some("-1".to_string()), None, None);
    assert_eq!(c.server.port, 8080);
    apply_env_overrides(&mut c, None, Some("".to_string()), None, None);
    assert_eq!(c.server.port, 8080);
    apply_env_overrides(&mut c, None, Some("8081".to_string()), None, None);
    assert_eq!(c.server.port, 8081);
    assert_eq!(c.server.host, "0.0.0.0");
}

#[test]
fn config_file_defaults_to_config_toml() {
    assert_eq!(config_file_name(None), "config.toml");
    assert_eq!(config_file_name(Some("/etc/l.toml".to_string())), "/etc/l.toml");
}

#[test]
fn classification_by_extension() {
    assert_eq!(classify_file("movie.mkv", false), "video");
    assert_eq!(classify_file("Movie.MKV", false), "video");
    assert_eq!(classify_file("photo.JPG", false), "image");
    assert_eq!(classify_file("song.flac", false), "audio");
    assert_eq!(classify_file("backup.tar.gz", false), "archive");
    assert_eq!(classify_file("notes.md", false), "document");
    assert_eq!(classify_file("binary", false), "other");
    assert_eq!(classify_file(".mp4", false), "other");
    assert_eq!(classify_file("clip.mp4", true), "other");
    assert_eq!(classify_file("dir/trailer.mov", false), "video");
}

#[test]
fn compound_paths() {
    assert_eq!(compound_path("", "a"), "/a");
    assert_eq!(compound_path("/", "a"), "/a");
    assert_eq!(compound_path("/movies", "a.mkv"), "/movies/a.mkv");
    assert_eq!(urlencoding("a b"), "a b");
}

#[test]
fn targets_join_the_root() {
    assert_eq!(resolved_target("/srv", "/movies"), "/srv/movies");
    assert_eq!(resolved_target("/srv", "///movies"), "/srv/movies");
    assert_eq!(resolved_target("/", "/"), "/");
    assert_eq!(resolved_target("/srv/", "x"), "/srv/x");
}

#[test]
fn traversal_is_denied() {
    let r = resolve_path("/srv", "../etc", Some("/srv"), Some("/etc"));
    match r {
        Err(AppError::BadRequest(m)) => assert_eq!(m, "path traversal denied"),
        _ => panic!("expected a refusal"),
    }
    let ok = resolve_path("/srv", "/movies", Some("/srv"), Some("/srv/movies")).unwrap();
    assert_eq!(ok, "/srv/movies");
    // canonicalization failed: the raw paths are compared
    let raw = resolve_path("/srv", "new", None, None).unwrap();
    assert_eq!(raw, "/srv/new");
    // the root itself is always allowed
    let root = resolve_path("/srv", "", Some("/data"), Some("/elsewhere")).unwrap();
    assert_eq!(root, "/srv/");
    // components, not characters, are compared
    let r2 = resolve_path("/srv", "x", Some("/srv"), Some("/srvx"));
    assert!(matches!(r2, Err(AppError::BadRequest(_))));
}

#[test]
fn download_requires_a_file() {
    let r = download_path("/srv", "a", Some("/srv"), Some("/srv/a"), false);
    match r {
        Err(AppError::NotFound(m)) => assert_eq!(m, "not a file"),
        _ => panic!("expected not found"),
    }
    assert_eq!(download_path("/srv", "a", Some("/srv"), Some("/srv/a"), true).unwrap(), "/srv/a");
    assert!(matches!(
        download_path("/srv", "..", Some("/srv"), Some("/"), true),
        Err(AppError::BadRequest(_))
    ));
    match require_directory("/srv".to_string(), false) {
        Err(AppError::NotFound(m)) => assert_eq!(m, "not a directory"),
        _ => panic!("expected not found"),
    }
    assert_eq!(require_directory("/srv".to_string(), true).unwrap(), "/srv");
}

fn raw(name: &str, is_dir: bool, len: u64) -> DirEntryInfo {
    DirEntryInfo { name: name.to_string(), is_dir, len, modified_at: 7 }
}

#[test]
fn listing_orders_directories_first_then_names() {
    let entries = vec![
        raw("zeta.txt", false, 5),
        raw(".hidden", false, 1),
        raw("Beta", true, 4096),
        raw("alpha.JPG", false, 10),
        raw("Alpha", true, 4096),
        raw("b.mkv", false, 3),
    ];
    let out = list_files("/media", entries);
    let names: Vec<&str> = out.iter().map(|e| e.name.as_str()).collect();
    assert_eq!(names, vec!["Alpha", "Beta", "alpha.JPG", "b.mkv", "zeta.txt"]);
    assert_eq!(out[0].size, 0);
    assert!(out[0].is_dir);
    assert_eq!(out[0].file_type, "other");
    assert_eq!(out[0].path, "/media/Alpha");
    assert_eq!(out[2].file_type, "image");
    assert_eq!(
        out[2].thumbnail_url.as_deref(),
        Some("/api/files/thumbnail?path=/media/alpha.JPG&size=256")
    );
    assert_eq!(out[3].file_type, "video");
    assert_eq!(out[3].thumbnail_url, None);
    assert_eq!(out[3].size, 3);
    assert_eq!(out[4].modified_at, 7);
}

#[test]
fn listing_keeps_report_order_for_equal_keys() {
    let entries = vec![raw("A", false, 1), raw("a", false, 2)];
    let out = list_files("/", entries);
    assert_eq!(out[0].name, "A");
    assert_eq!(out[1].name, "a");
    assert_eq!(out[0].path, "/A");
}

#[test]
fn listing_of_nothing_is_empty() {
    assert!(list_files("/", vec![raw(".x", true, 0)]).is_empty());
}

#[test]
fn trash_and_directories() {
    assert_eq!(trash_dir("/srv"), "/srv/.trash");
    assert_eq!(trash_target("/srv", "/srv/movies/a.mkv", 1700000000000), "/srv/.trash/1700000000000_a.mkv");
    assert_eq!(trash_target("/srv", "/srv/..", -5), "/srv/.trash/-5_");
    assert_eq!(mkdir_target("/srv/movies", "new"), "/srv/movies/new");
}

#[test]
fn thumbnail_names_hash_the_request_path() {
    // md5("abc") = 900150983cd24fb0d6963f7d28e17f72
    assert_eq!(
        thumbnail_path("/thumbs", "abc", 256),
        "/thumbs/900150983cd24fb0d6963f7d28e17f72_256.jpg"
    );
    assert_eq!(
        thumbnail_path("/thumbs", "", 64),
        "/thumbs/d41d8cd98f00b204e9800998ecf8427e_64.jpg"
    );
    assert!(is_bare_file_name("abc.jpg"));
    assert!(!is_bare_file_name("a/b.jpg"));
    assert!(!is_bare_file_name("a\\b.jpg"));
}

#[test]
fn handler_defaults() {
    assert_eq!(media_root(), "/");
    assert_eq!(listing_path(&ListQuery { path: None }), "/");
    assert_eq!(listing_path(&ListQuery { path: Some("/x".to_string()) }), "/x");
    assert_eq!(thumbnail_size(&ThumbnailQuery { path: "a".to_string(), size: None }), 256);
    assert_eq!(thumbnail_size(&ThumbnailQuery { path: "a".to_string(), size: Some(64) }), 64);
    assert_eq!(upload_file_name(None), "unnamed");
    assert_eq!(upload_file_name(Some("f.txt")), "f.txt");
}

#[test]
fn upload_targets() {
    assert_eq!(upload_target("/", "/", "f.txt"), "/f.txt");
    assert_eq!(upload_target("/", "/movies/", "f.txt"), "/movies/f.txt");
    assert_eq!(upload_target("/srv", "//a", "f"), "/srv/a/f");
    assert_eq!(upload_reply_path("f.txt"), "/f.txt");
}
