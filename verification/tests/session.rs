use std::path::{Path, PathBuf};

use tz_player::about::{AboutInfo, PRODUCT_NAME};
use tz_player::levels::LevelSource;
use tz_player::listing::{lex_less, sort_entries};
use tz_player::navigation::{
    analysis_label, clamp_index, clamped_down, commit_name_target, cursor_after_item_move,
    cursor_after_removal, cursor_down, cursor_up, drive_list, editor_cursor_after_move,
    editor_cursor_after_reorder, editor_insert_position, is_media_extension,
    load_cursor_after_move, locate_step, media_extension, position_in, rename_target, save_prompt_name, LocateStep,
    status_expired, step_cursor, ControlError, EditorFocus, FsEntry, RuntimeError, StateError,
    StatusLevel, StatusLine,
};
use tz_player::pathnorm::{absolute_path, expand_user, normalize_dot_components, normalize_path};
use tz_player::paths::app_paths_or_cwd;
use tz_player::state::{
    default_backend, default_playlist_sort, sanitize_backend, sanitize_playlist_sort,
    sanitize_visualizer_fps,
};
use tz_player::terminal::{
    is_c0_or_c1, is_directional_or_line_control, terminal_safe, terminal_safe_path,
};
use tz_player::timespan::TimeSpan;
use tz_player::transport::{
    clamp_volume, end_of_track_choice, item_index, next_item_id, prev_item_id,
    seek_relative_target, shuffle_next, volume_after_delta, RepeatMode,
};

#[test]
fn escapes_ansi_osc_newlines_c1_and_bidi_payloads() {
    let payload = [
        "safe",
        "\x1B[31mred\x1B[0m",
        "\x1B]0;owned\x07",
        "line\r\nnext\t",
        "\u{009B}31m",
        "\u{202E}txt\u{2066}end",
    ]
    .join("");
    let escaped = terminal_safe(&payload);
    let expected = [
        "safe",
        "\\x1B[31mred\\x1B[0m",
        "\\x1B]0;owned\\x07",
        "line\\r\\nnext\\t",
        "\\x9B31m",
        "\\u{202E}txt\\u{2066}end",
    ]
    .join("");
    assert_eq!(escaped, expected);
    assert!(!escaped.chars().any(is_c0_or_c1));
    assert!(!escaped.chars().any(is_directional_or_line_control));
}

#[test]
fn preserves_normal_unicode_text() {
    assert_eq!(terminal_safe("Björk — Jóga 🎵"), "Björk — Jóga 🎵");
}

#[test]
fn safe_path_rendering_escapes_controls() {
    let shown = terminal_safe_path(Path::new("/music/a\nb.mp3"));
    assert_eq!(shown, "/music/a\\nb.mp3");
}

#[test]
fn repeat_cycle() {
    assert_eq!(RepeatMode::Off.cycle(), RepeatMode::One);
    assert_eq!(RepeatMode::One.cycle(), RepeatMode::All);
    assert_eq!(RepeatMode::All.cycle(), RepeatMode::Off);
}

#[test]
fn repeat_names_round_trip_and_unknown_means_off() {
    for mode in [RepeatMode::Off, RepeatMode::One, RepeatMode::All] {
        assert_eq!(RepeatMode::parse(mode.as_str()), mode);
    }
    assert_eq!(RepeatMode::parse("ALL"), RepeatMode::All);
    assert_eq!(RepeatMode::parse("sometimes"), RepeatMode::Off);
}

#[test]
fn next_prev_wrap() {
    let order = vec![11, 22, 33];
    assert_eq!(next_item_id(&order, 22, false), Some(33));
    assert_eq!(next_item_id(&order, 33, false), None);
    assert_eq!(next_item_id(&order, 33, true), Some(11));
    assert_eq!(prev_item_id(&order, 11, true), Some(33));
    assert_eq!(prev_item_id(&order, 11, false), None);
    assert_eq!(prev_item_id(&order, 33, false), Some(22));
    assert_eq!(item_index(&order, 33), Some(3));
    assert_eq!(item_index(&order, 44), None);
}

#[test]
fn shuffle_never_repeats_the_current_track_when_others_exist() {
    let order = vec![1, 2, 3, 4];
    for _ in 0..32 {
        let next = shuffle_next(&order, 2, false).unwrap();
        assert_ne!(next, 2);
        assert!(order.contains(&next));
    }
    assert_eq!(shuffle_next(&vec![7], 7, false), None);
}

#[test]
fn end_of_track_follows_repeat_mode() {
    assert_eq!(end_of_track_choice(RepeatMode::One, 5, Some(6)), Some(5));
    assert_eq!(end_of_track_choice(RepeatMode::Off, 5, Some(6)), Some(6));
    assert_eq!(end_of_track_choice(RepeatMode::Off, 5, Some(5)), None);
    assert_eq!(end_of_track_choice(RepeatMode::All, 5, Some(5)), Some(5));
    assert_eq!(end_of_track_choice(RepeatMode::All, 5, None), None);
}

#[test]
fn relative_seek_is_clamped_to_the_track() {
    assert_eq!(seek_relative_target(5_000, 10_000, 2_000), 7_000);
    assert_eq!(seek_relative_target(5_000, 10_000, -9_000), 0);
    assert_eq!(seek_relative_target(5_000, 10_000, 9_000), 10_000);
    assert_eq!(seek_relative_target(5_000, 0, 9_000), 14_000);
}

#[test]
fn volume_stays_between_zero_and_one_hundred() {
    assert_eq!(clamp_volume(250), 100);
    assert_eq!(clamp_volume(40), 40);
    assert_eq!(volume_after_delta(95, 10), 100);
    assert_eq!(volume_after_delta(5, -10), 0);
    assert_eq!(volume_after_delta(50, 5), 55);
}

#[test]
fn recognizes_additional_vlc_supported_extensions() {
    for ext in ["mp4", "m4b", "mka", "ac3", "dts", "mpc", "tta", "spx", "caf", "mid", "midi"] {
        let path = Path::new("track").with_extension(ext);
        assert!(is_media_extension(&path), "expected {ext} to be recognized as a media extension");
    }
}

#[test]
fn media_extensions_ignore_case_and_reject_others() {
    assert!(media_extension("FLAC"));
    assert!(media_extension("Mp3"));
    assert!(!media_extension("txt"));
    assert!(!media_extension(""));
    assert!(!is_media_extension(Path::new("notes")));
    assert!(!is_media_extension(Path::new("cover.jpg")));
}

#[test]
fn set_error_persists_past_ttl() {
    let mut status = StatusLine::new();
    status.set_error("playback backend failed".into());
    status.expire(Some(TimeSpan::from_millis(4_050)));
    assert_eq!(status.message.as_deref(), Some("playback backend failed"));
    assert_eq!(status.level, StatusLevel::Error);
}

#[test]
fn set_warning_expires_like_info() {
    let mut status = StatusLine::new();
    status.set_warning("metadata refresh failed".into());
    status.expire(Some(TimeSpan::from_millis(3_999)));
    assert_eq!(status.level, StatusLevel::Warn);
    status.expire(Some(TimeSpan::from_millis(4_050)));
    assert_eq!(status.message, None);
    assert_eq!(status.level, StatusLevel::Info);
}

#[test]
fn clear_status_dismisses_an_active_error() {
    let mut status = StatusLine::new();
    status.set_error("playback backend failed".into());
    status.clear_status();
    assert_eq!(status.message, None);
    assert_eq!(status.level, StatusLevel::Info);
    status.set_status("Playing".into());
    status.expire(None);
    assert_eq!(status.message.as_deref(), Some("Playing"));
}

#[test]
fn status_lifetime_is_four_seconds() {
    assert!(!status_expired(StatusLevel::Info, TimeSpan::from_millis(3_999)));
    assert!(status_expired(StatusLevel::Info, TimeSpan::from_secs(4)));
    assert!(status_expired(StatusLevel::Warn, TimeSpan::from_secs(60)));
    assert!(!status_expired(StatusLevel::Error, TimeSpan::from_secs(3_600)));
}

#[test]
fn browse_up_and_down_clamp_cursor_to_entry_bounds() {
    assert_eq!(cursor_up(0, 1), 0);
    assert_eq!(clamped_down(0, 1, 2), 1);
    assert_eq!(clamped_down(1, 1, 2), 1);
    assert_eq!(clamped_down(3, 1, 0), 3);
}

#[test]
fn playlist_cursor_moves_within_the_rows() {
    assert_eq!(cursor_down(0, 3), 1);
    assert_eq!(cursor_down(2, 3), 2);
    assert_eq!(cursor_down(0, 0), 0);
    assert_eq!(cursor_up(25, 10), 15);
    assert_eq!(cursor_up(5, 10), 0);
    assert_eq!(clamped_down(5, 10, 12), 11);
    assert_eq!(clamped_down(0, 10, 40), 10);
    assert_eq!(cursor_after_removal(5, 5), 4);
    assert_eq!(cursor_after_removal(2, 5), 2);
    assert_eq!(cursor_after_removal(7, 0), 0);
    assert_eq!(cursor_after_item_move(0, true, 4), 0);
    assert_eq!(cursor_after_item_move(3, false, 4), 3);
    assert_eq!(cursor_after_item_move(1, false, 4), 2);
}

#[test]
fn editor_cursor_steps_are_clamped_to_the_pane() {
    assert_eq!(step_cursor(3, -10, 20), 0);
    assert_eq!(step_cursor(3, 10, 8), 7);
    assert_eq!(step_cursor(3, isize::MIN, 8), 0);
    assert_eq!(editor_cursor_after_move(9, -1, 4), 3);
    assert_eq!(editor_cursor_after_move(0, 1, 0), 0);
    assert_eq!(clamp_index(9, 4), 3);
    assert_eq!(load_cursor_after_move(2, 5, 0), 0);
    assert_eq!(load_cursor_after_move(2, 5, 4), 3);
    assert_eq!(load_cursor_after_move(9, -1, 4), 8);
}

#[test]
fn editor_staging_and_reordering_track_the_cursor() {
    assert_eq!(editor_insert_position(true, 2, 5), 2);
    assert_eq!(editor_insert_position(false, 2, 5), 3);
    assert_eq!(editor_insert_position(false, 5, 5), 5);
    assert_eq!(editor_insert_position(true, 9, 5), 5);
    assert_eq!(editor_cursor_after_reorder(2, true, true, 5), 1);
    assert_eq!(editor_cursor_after_reorder(4, false, true, 5), 4);
    assert_eq!(editor_cursor_after_reorder(2, false, false, 5), 2);
    assert_eq!(EditorFocus::Files.toggled(), EditorFocus::Playlist);
    assert_eq!(EditorFocus::Playlist.toggled(), EditorFocus::Files);
}

#[test]
fn locate_playing_searches_within_active_find_results() {
    let ids = vec![40, 10, 30];
    assert_eq!(position_in(&ids, 30), Some(2));
    assert_eq!(position_in(&ids, 99), None);
}

#[test]
fn analysis_label_shows_cache_flags() {
    assert_eq!(analysis_label(true, true, true, true, true), "analyzing");
    assert_eq!(analysis_label(false, true, false, true, false), "EsBw");
}

#[test]
fn editor_protects_active_default_from_saved_playlist_mutations() {
    assert_eq!(commit_name_target("  Mix  ", false, Some(3), 1), Ok(("Mix".to_string(), Some(3))));
    assert_eq!(commit_name_target("Mix", true, Some(3), 1), Ok(("Mix".to_string(), None)));
    assert_eq!(commit_name_target(" \t", false, Some(3), 1), Err("Playlist name cannot be empty".to_string()));
    assert_eq!(
        commit_name_target("Mix", false, Some(1), 1),
        Err("The active Default playlist can only be changed with Apply".to_string())
    );
    assert_eq!(
        rename_target("New", Some(1), 1),
        Err("The active Default playlist cannot be renamed".to_string())
    );
    assert_eq!(rename_target("New", None, 1), Err("no saved playlist selected".to_string()));
    assert_eq!(rename_target(" New ", Some(4), 1), Ok((4, "New".to_string())));
    assert_eq!(save_prompt_name(false, Some(1), &Some("Default".into()), 1, &"x".into()), "Default");
    assert_eq!(save_prompt_name(true, Some(1), &Some("Default".into()), 1, &"x".into()), "x");
}

#[test]
fn session_error_messages_match_their_variants() {
    assert_eq!(RuntimeError::Db("locked".into()).message(), "db: locked");
    assert_eq!(RuntimeError::Message("plain".into()).message(), "plain");
    assert_eq!(ControlError::Message("bad".into()).message(), "bad");
    assert_eq!(StateError::Serde("eof".into()).message(), "serde: eof");
    assert!(drive_list(&Vec::new()).is_empty());
}

#[test]
fn drive_list_names_mounted_letters_in_order() {
    let mut mounted = vec![false; 26];
    mounted[2] = true;
    mounted[3] = true;
    mounted[25] = true;
    let drives = drive_list(&mounted);
    let names: Vec<&str> = drives.iter().map(|d| d.name.as_str()).collect();
    assert_eq!(names, vec!["C:\\", "D:\\", "Z:\\"]);
    assert!(drives.iter().all(|d| d.is_dir && d.path == PathBuf::from(&d.name)));
    assert!(drive_list(&vec![false; 26]).is_empty());
}

fn entry(name: &str, is_dir: bool) -> FsEntry {
    FsEntry { name: name.to_string(), path: PathBuf::from("/m").join(name), is_dir }
}

#[test]
fn list_dir_sorts_directories_before_files_case_insensitively() {
    let entries = vec![
        entry("b.mp3", false),
        entry("Zeta", true),
        entry("A.flac", false),
        entry("alpha", true),
    ];
    let sorted = sort_entries(entries, true);
    let names: Vec<&str> = sorted.iter().map(|e| e.name.as_str()).collect();
    assert_eq!(names, vec!["alpha", "Zeta", "A.flac", "b.mp3"]);
    let ties = sort_entries(vec![entry("b", false), entry("B", false)], true);
    assert_eq!(ties[0].name, "B");
    assert!(lex_less(&"ab".chars().collect(), &"b".chars().collect()));
    assert!(!lex_less(&"b".chars().collect(), &"b".chars().collect()));
}

#[test]
fn normalize_is_stable_for_same_path() {
    let a = normalize_path("foo/bar.mp3", None, "/work", None, false);
    let b = normalize_path("foo/bar.mp3", None, "/work", None, false);
    assert_eq!(a, b);
    assert!(!a.is_empty());
    assert_eq!(a, "/work/foo/bar.mp3");
}

#[test]
fn normalization_expands_home_and_resolves_dots() {
    assert_eq!(expand_user("~/music/a.mp3", Some("/home/u")), "/home/u/music/a.mp3");
    assert_eq!(expand_user("~", Some("/home/u")), "/home/u");
    assert_eq!(expand_user("~/x", None), "~/x");
    assert_eq!(normalize_dot_components("/a/./b/../c/"), "/a/c");
    assert_eq!(normalize_dot_components("/.."), "/");
    assert_eq!(normalize_dot_components("../a"), "a");
    assert_eq!(absolute_path("x/../y.mp3", "/srv/"), "/srv/y.mp3");
    assert_eq!(normalize_path("a.mp3", None, "/w", Some("/real/a.mp3"), false), "/real/a.mp3");
}

#[test]
fn repaired_settings_fall_back_to_defaults() {
    assert_eq!(sanitize_backend("FAKE"), "fake");
    assert_eq!(sanitize_backend("VLC"), "audio");
    assert_eq!(sanitize_backend("removed-backend"), "audio");
    assert_eq!(sanitize_playlist_sort("unexpected"), "playlist");
    assert_eq!(sanitize_playlist_sort("Title"), "track");
    assert_eq!(sanitize_visualizer_fps(0), 10);
    assert_eq!(sanitize_visualizer_fps(61), 10);
    assert_eq!(sanitize_visualizer_fps(30), 30);
    assert_eq!(default_backend(), "audio");
    assert_eq!(default_playlist_sort(), "playlist");
}

fn about() -> AboutInfo {
    AboutInfo {
        name: PRODUCT_NAME,
        description: "desc",
        version: "0.3.1",
        repository: "https://example.invalid/tz",
        license: "MIT",
        schema_version: 7,
        target: "linux-x86_64".into(),
        profile: "release",
    }
}

#[test]
fn tui_line_is_single_line() {
    let line = about().tui_line();
    assert!(!line.contains('\n'));
    assert_eq!(line, "tz-player v0.3.1 — https://example.invalid/tz  (see: tz-player about)");
}

#[test]
fn display_includes_key_fields() {
    let rendered = about().render();
    assert_eq!(
        rendered,
        "tz-player v0.3.1\ndesc\nRepository: https://example.invalid/tz\nLicense:    MIT\nSchema:     v7\nTarget:     linux-x86_64 (release)"
    );
}

#[test]
fn level_sources_have_names() {
    assert_eq!(LevelSource::Live.as_str(), "live");
    assert_eq!(LevelSource::Missing.as_str(), "missing");
}

#[test]
fn media_extension_follows_the_file_name() {
    assert!(is_media_extension(Path::new("music/Song.MP3")));
    assert!(!is_media_extension(Path::new("music/.mp3")));
    assert!(is_media_extension(Path::new("music/.hidden.ogg")));
    assert!(!is_media_extension(Path::new("music/song.mp3/..")));
    assert!(!is_media_extension(Path::new("music/song.")));
}

#[test]
fn paths_lie_below_their_directories() {
    let p = app_paths_or_cwd();
    assert_eq!(p.log_dir, p.data_dir.join("logs"));
    assert_eq!(p.db_file, p.data_dir.join("tz-player.sqlite3"));
    assert_eq!(p.state_file, p.config_dir.join("state.json"));
}

#[test]
fn paths_resolve() {
    let p = app_paths_or_cwd();
    assert!(p.db_file.file_name().is_some());
    assert!(p.state_file.extension().and_then(|e| e.to_str()) == Some("json"));
}

#[test]
fn sanitizing_settings_twice_changes_nothing() {
    for backend in ["FAKE", "vlc", "", "audio"] {
        let once = sanitize_backend(backend);
        assert_eq!(sanitize_backend(once), once);
    }
    for sort in ["Title", "nonsense", "playlist", ""] {
        let once = sanitize_playlist_sort(sort);
        assert_eq!(sanitize_playlist_sort(once), once);
    }
    for fps in [0, 1, 60, 61, 1000] {
        let once = sanitize_visualizer_fps(fps);
        assert_eq!(sanitize_visualizer_fps(once), once);
        assert!((1..=60).contains(&once));
    }
}

#[test]
fn terminal_safe_path_renders_the_given_path() {
    assert_eq!(terminal_safe_path(Path::new("/music/plain.mp3")), "/music/plain.mp3");
    assert_eq!(terminal_safe_path(Path::new("/music/b.mp3")), terminal_safe("/music/b.mp3"));
}

#[test]
fn locating_the_playing_item_respects_the_find_filter() {
    assert_eq!(locate_step(&Some(vec![5, 7, 7]), 7), LocateStep::Found(1));
    assert_eq!(locate_step(&Some(vec![5, 7]), 9), LocateStep::ClearFind);
    assert_eq!(locate_step(&None, 9), LocateStep::Unfiltered);
}

#[test]
fn windows_form_uses_backslashes_and_lower_case() {
    assert_eq!(normalize_path("Music/B.MP3", None, "/W", None, true), "\\w\\music\\b.mp3");
    assert_eq!(normalize_path("x", None, "/w", Some("C:/Music/Ä.mp3"), true), "c:\\music\\ä.mp3");
    assert_eq!(normalize_path("Music/B.MP3", None, "/W", None, false), "/W/Music/B.MP3");
}
