use mpvshelf::classify::{FsEntry, FsFile};
use mpvshelf::episode::EpisodePattern;
use mpvshelf::mpv::{parse_mpv_stdout_with, MpvError, MpvPlaybackData, TimestampType};
use mpvshelf::paths::{file_name_of, file_stem_of, normalize_path, normalize_path_to_unix, normalize_path_with, parent_path_of};
use mpvshelf::playlist::{find_video_index, format_clock, mpv_system_check, ProbeOutcome};
use mpvshelf::tray::{handle_menu_event, handle_toggle_window, MenuAction, WindowAction};
use mpvshelf::queries::{get_naive_datetime, SortType};
use mpvshelf::sync::{apply_extraction, batch_seek_index, decimal_text, duration_of_line, ffmpeg_args, FfmpegError, FfmpegEvent, FfmpegSession};
use mpvshelf::model::OsVideo;
use mpvshelf::timestamp::MpvStdoutError;

#[test]
fn durations_in_seconds() {
    assert_eq!(MpvPlaybackData::get_duration("00:23:45.00".to_string()).unwrap(), 1425);
    assert_eq!(MpvPlaybackData::get_duration("01:00:00".to_string()).unwrap(), 3600);
    assert!(matches!(MpvPlaybackData::get_duration("12:34".to_string()), Err(MpvStdoutError::InvalidTimestamp(_))));
    match MpvPlaybackData::get_duration("aa:00:00".to_string()) {
        Err(MpvStdoutError::ParseInt(field, reason)) => {
            assert_eq!(field, "aa");
            assert_eq!(reason, "invalid digit found in string");
        }
        other => panic!("unexpected {:?}", other),
    }
    match MpvPlaybackData::get_duration("::".to_string()) {
        Err(MpvStdoutError::ParseInt(field, reason)) => {
            assert_eq!(field, "");
            assert_eq!(reason, "cannot parse integer from empty string");
        }
        other => panic!("unexpected {:?}", other),
    }
}

#[test]
fn update_timestamp_sets_one_field() {
    let mut d = MpvPlaybackData::new();
    assert_eq!(d.update_timestamp(TimestampType::Position, "00:01:05".to_string()).unwrap(), 65);
    assert_eq!(d.last_video_position, 65);
    assert_eq!(d.last_video_duration, 0);
    assert_eq!(d.update_timestamp(TimestampType::Duration, "00:24:00.5".to_string()).unwrap(), 1440);
    assert_eq!(d.last_video_duration, 1440);
}

#[test]
fn player_report_sections() {
    let out = "intro\nPlaying: C:\\lib\\Show\\01.mkv\nAV: 00:01:02 / 00:24:00 (4%)\nExiting... (Quit)\nPlaying: /lib/Show/02.mkv\n".as_bytes().to_vec();
    let r = parse_mpv_stdout_with(out, '/').unwrap();
    assert_eq!(r.len(), 2);
    assert_eq!(r[0].last_video_path, "C:/lib/Show/01.mkv");
    assert_eq!(r[0].last_video_position, 62);
    assert_eq!(r[0].last_video_duration, 1440);
    assert_eq!(r[1].last_video_path, "/lib/Show/02.mkv");
    assert_eq!(r[1].last_video_position, 600);
    assert_eq!(r[1].last_video_duration, 600);
    assert!(matches!(parse_mpv_stdout_with(vec![0xff, 0xfe], '/'), Err(MpvStdoutError::Utf8Error(_))));
    assert!(matches!(parse_mpv_stdout_with(b"Playing nothing".to_vec(), '/'), Err(MpvStdoutError::MissingVideoTitle(_))));
}

#[test]
fn path_helpers() {
    assert_eq!(normalize_path_to_unix("C:\\Users\\Me\\Videos"), "c:/users/me/videos");
    assert_eq!(normalize_path_with("a\\b/c", '\\'), "a\\b\\c");
    let n = normalize_path("a\\b");
    assert!(n == "a/b" || n == "a\\b");
    assert_eq!(file_name_of("/lib/Show/").as_deref(), Some("Show"));
    assert_eq!(file_name_of("/"), None);
    assert_eq!(file_stem_of("/lib/Show/01.mkv").as_deref(), Some("01"));
    assert_eq!(file_stem_of("/lib/.hidden").as_deref(), Some(".hidden"));
    assert_eq!(parent_path_of("/lib/Show").as_deref(), Some("/lib"));
    assert_eq!(parent_path_of("/Show").as_deref(), Some("/"));
    assert_eq!(parent_path_of("/"), None);
}

#[test]
fn extractor_arguments_and_output() {
    let a = ffmpeg_args(batch_seek_index(4), "/lib/a.mkv", "/app/frames/a.jpg");
    assert_eq!(a, vec!["-ss", "7", "-i", "/lib/a.mkv", "-frames:v", "1", "/app/frames/a.jpg"]);
    assert_eq!(ffmpeg_args(None, "x", "y")[1], "5");
    assert_eq!(decimal_text(1203), "1203");
    assert_eq!(duration_of_line("  Duration: 00:23:45.00, start: 0.000000, bitrate: 1000 kb/s").as_deref(), Some("00:23:45.00"));
    assert_eq!(duration_of_line("Stream #0:0: Video"), None);

    let mut s = FfmpegSession::new();
    assert!(s.on_event(FfmpegEvent::Stderr("Input #0".to_string())).is_none());
    assert!(s.on_event(FfmpegEvent::Stderr("  Duration: 00:00:30.50, start: 0".to_string())).is_none());
    match s.on_event(FfmpegEvent::Terminated) {
        Some(Ok(d)) => assert_eq!(d, "00:00:30.50"),
        other => panic!("unexpected {:?}", other),
    }
    let mut t = FfmpegSession::new();
    t.on_event(FfmpegEvent::Stderr("boom".to_string()));
    t.on_event(FfmpegEvent::Error("killed".to_string()));
    match t.on_event(FfmpegEvent::Terminated) {
        Some(Err(FfmpegError::StdErr(e))) => assert_eq!(e, "boom\nexit error:\nkilled"),
        other => panic!("unexpected {:?}", other),
    }
    assert!(matches!(t.on_event(FfmpegEvent::Other), Some(Err(FfmpegError::ProcessInterrupted))));

    let mut v = OsVideo {
        user_id: "1".to_string(),
        main_folder_path: "/lib".to_string(),
        path: "/lib/a.mkv".to_string(),
        title: "a.mkv".to_string(),
        cover_img_path: None,
        watched: false,
        duration: 0,
        position: 0,
        metadata: None,
        update_date: String::new(),
        update_time: String::new(),
    };
    apply_extraction(&mut v, Ok("00:00:30.50".to_string()));
    assert_eq!(v.duration, 30);
    apply_extraction(&mut v, Err(FfmpegError::ProcessInterrupted));
    assert_eq!(v.duration, 30);
}

#[test]
fn playlist_index_in_episode_order() {
    let p = EpisodePattern::new().unwrap();
    let f = |path: &str| FsEntry::File(FsFile { path: path.to_string(), metadata: None });
    let entries = vec![f("/s/Ep 3.mkv"), f("/s/Ep 1.mkv"), f("/s/notes.txt"), f("/s/Ep 2.srt")];
    assert_eq!(find_video_index(&p, &entries, "/s/Ep 3.mkv".to_string()).unwrap(), 2);
    assert_eq!(find_video_index(&p, &entries, "/s/Ep 1.mkv".to_string()).unwrap(), 0);
    assert!(matches!(find_video_index(&p, &entries, "/s/Ep 9.mkv".to_string()), Err(MpvError::OsVideoNotFound(_))));
    assert!(matches!(find_video_index(&p, &entries, "/".to_string()), Err(MpvError::InvalidPathName(_))));
}

#[test]
fn stamps_and_orders() {
    assert_eq!(format_clock(13, 5), "01:05pm");
    assert_eq!(format_clock(0, 59), "00:59am");
    let a = get_naive_datetime("2024-11-30", "10:43pm").unwrap();
    let b = get_naive_datetime("2024-11-30", "10:44pm").unwrap();
    assert_eq!(b - a, 60);
    assert_eq!(get_naive_datetime("2024-11-30", "x"), None);
    assert_eq!(get_naive_datetime("not a date", "10:43pm"), None);
    assert!(matches!(SortType::from_str("updated"), Ok(SortType::Updated)));
    assert!(matches!(SortType::from_str("none"), Ok(SortType::NoSort)));
    assert!(matches!(SortType::from_str("episode_title_regex"), Ok(SortType::EpisodeTitleRegex)));
    assert!(SortType::from_str("Updated").is_err());
}

#[test]
fn player_release_per_platform() {
    let (url, name) = mpvshelf::playlist::mpv_release("windows").unwrap();
    assert!(url.ends_with("mpv-x86_64-pc-windows-msvc.exe"));
    assert_eq!(name, "mpv.exe");
    assert_eq!(mpvshelf::playlist::mpv_release("macos").unwrap().1, "mpv");
    assert!(mpvshelf::playlist::mpv_release("linux").is_none());
}

#[test]
fn tray_and_player_checks() {
    assert_eq!(handle_menu_event("toggle"), MenuAction::ToggleWindow);
    assert_eq!(handle_menu_event("quit"), MenuAction::Quit);
    assert_eq!(handle_menu_event("about"), MenuAction::Ignore);
    assert_eq!(handle_toggle_window(true, true), WindowAction::Hide);
    assert_eq!(handle_toggle_window(true, false), WindowAction::Show);
    assert_eq!(handle_toggle_window(false, false), WindowAction::Build);
    assert!(mpv_system_check(None, ProbeOutcome::Succeeded).is_ok());
    assert!(matches!(mpv_system_check(Some(String::new()), ProbeOutcome::NotFound), Err(MpvError::AbsolutePathNotFound(_))));
    assert!(matches!(mpv_system_check(Some("/x/mpv".to_string()), ProbeOutcome::Failed), Err(MpvError::SudoPATHNotFound)));
    assert!(matches!(mpv_system_check(None, ProbeOutcome::Io("denied".to_string())), Err(MpvError::IoError(_))));
}
