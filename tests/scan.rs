use mpvshelf::catalog::{delete_os_folders, delete_os_videos, delete_stale_entries, Catalog};
use mpvshelf::mpv::MpvPlaybackData;
use mpvshelf::playlist::{apply_playback, mpv_args};
use mpvshelf::queries::{get_os_folders_by_path, get_user_by_id};
use mpvshelf::classify::{classify_entry, is_media_extension, EntryKind, FsDir, FsEntry, FsFile};
use mpvshelf::diff::{find_missing_paths, find_stale_entries, find_stale_metadata, DiskState};
use mpvshelf::episode::EpisodePattern;
use mpvshelf::model::{FileMetadata, OsFolder, OsVideo, ScanContext, StaleEntries, User, Settings};
use mpvshelf::queries::{get_os_videos, get_os_folders, get_os_folder_by_path, update_user, create_default_user, get_default_user};
use mpvshelf::sync::{commit_scan, upsert_read_os_dir, SyncStart};
use mpvshelf::walk::{join_cover_img_path, read_os_folder_dir, ReadDirError};

fn meta(size: u64) -> Option<FileMetadata> {
    Some(FileMetadata { created: None, modified: Some(1_700_000_000), accessed: None, size: Some(size) })
}

fn file(path: &str, size: u64) -> FsEntry {
    FsEntry::File(FsFile { path: path.to_string(), metadata: meta(size) })
}

fn dir(path: &str, entries: Vec<FsEntry>) -> FsEntry {
    FsEntry::Dir(FsDir { path: path.to_string(), entries: Some(entries) })
}

fn ctx() -> ScanContext {
    ScanContext {
        user_id: "1".to_string(),
        update_date: "2024-11-30".to_string(),
        update_time: "10:43pm".to_string(),
        app_data_dir: "/app".to_string(),
    }
}

fn show_tree(files: &[(&str, u64)]) -> FsDir {
    let mut entries: Vec<FsEntry> = files.iter().map(|(p, s)| file(p, *s)).collect();
    entries.push(dir("/lib/Show/Extras", vec![file("/lib/Show/Extras/NCOP.mkv", 50)]));
    FsDir { path: "/lib/Show".to_string(), entries: Some(entries) }
}

fn disk(entries: &[(&str, u64)]) -> DiskState {
    DiskState { entries: entries.iter().map(|(p, s)| (p.to_string(), meta(*s))).collect() }
}

fn titles(v: &[OsVideo]) -> Vec<String> {
    v.iter().map(|x| x.title.clone()).collect()
}

fn first_scan(catalog: &mut Catalog, pattern: &EpisodePattern) -> (Vec<OsFolder>, Vec<OsVideo>) {
    let tree = show_tree(&[("/lib/Show/02.mkv", 200), ("/lib/Show/01.mkv", 100)]);
    let r = upsert_read_os_dir(catalog, pattern, &tree, &ctx(), None, None, None, &disk(&[]));
    match r {
        Ok(SyncStart::Scanned { folders, videos, .. }) => {
            let c = ctx();
            commit_scan(catalog, folders.clone(), videos.clone(), &c.update_date, &c.update_time);
            (folders, videos)
        }
        other => panic!("unexpected {:?}", other),
    }
}

#[test]
fn episode_numbers_of_titles() {
    let p = EpisodePattern::new().unwrap();
    assert_eq!(p.episode_number("Episode 2"), 2);
    assert_eq!(p.episode_number("02 - Intro"), 2);
    assert_eq!(p.episode_number("第3話"), 3);
    assert_eq!(p.episode_number("S1E10"), 10);
    assert_eq!(p.episode_number("Opening"), 0);
}

#[test]
fn fresh_scan_of_show_folder() {
    let p = EpisodePattern::new().unwrap();
    let mut catalog = Catalog::new();
    let tree = show_tree(&[("/lib/Show/02.mkv", 200), ("/lib/Show/01.mkv", 100)]);
    let r = upsert_read_os_dir(&mut catalog, &p, &tree, &ctx(), None, None, None, &disk(&[]));
    let (folders, videos) = match r {
        Ok(SyncStart::Scanned { folders, videos, removed_dirs, removed_files }) => {
            assert!(removed_dirs.is_empty());
            assert!(removed_files.is_empty());
            (folders, videos)
        }
        other => panic!("unexpected {:?}", other),
    };
    assert_eq!(folders.len(), 2);
    let main = folders.last().unwrap();
    assert_eq!(main.path, "/lib/Show");
    assert_eq!(main.title, "Show");
    assert_eq!(main.parent_path, None);
    assert_eq!(folders[0].path, "/lib/Show/Extras");
    assert_eq!(folders[0].parent_path.as_deref(), Some("/lib/Show"));
    assert_eq!(titles(&videos), vec!["01.mkv", "02.mkv", "NCOP.mkv"]);
    assert_eq!(videos[2].main_folder_path, "/lib/Show/Extras");
    assert_eq!(videos[0].cover_img_path.as_deref(), Some("/app/frames/Show/01.jpg"));
    assert_eq!(videos[2].cover_img_path.as_deref(), Some("/app/frames/Show/Extras/NCOP.jpg"));
    assert_eq!(main.cover_img_path, videos[0].cover_img_path);
    assert_eq!(main.last_watched_video.as_ref().unwrap().path, "/lib/Show/01.mkv");
    assert_eq!(folders[0].cover_img_path.as_deref(), Some("/app/frames/Show/Extras/NCOP.jpg"));
    assert!(!videos[0].watched);
    assert_eq!(videos[0].duration, 0);
    assert_eq!(videos[0].metadata, meta(100));
}

#[test]
fn rescan_after_delete_and_add() {
    let p = EpisodePattern::new().unwrap();
    let mut catalog = Catalog::new();
    let (folders, videos) = first_scan(&mut catalog, &p);
    let old_dirs = vec![folders[0].clone()];
    let old_videos = vec![videos[0].clone(), videos[1].clone()];
    let tree = show_tree(&[("/lib/Show/01.mkv", 100), ("/lib/Show/03.mkv", 300)]);
    let now = disk(&[("/lib/Show/01.mkv", 100), ("/lib/Show/03.mkv", 300), ("/lib/Show/Extras", 0)]);

    match find_stale_entries(&tree, Some(old_dirs.clone()), Some(old_videos.clone()), &now).unwrap() {
        StaleEntries::Found { dirs, videos, deleted } => {
            assert!(dirs.is_none());
            assert_eq!(videos, Some(vec!["/lib/Show/03.mkv".to_string()]));
            let (df, dv) = deleted.unwrap();
            assert!(df.is_empty());
            assert_eq!(dv.len(), 1);
            assert_eq!(dv[0].path, "/lib/Show/02.mkv");
        }
        StaleEntries::NoChanges => panic!("changes expected"),
    }

    let r = upsert_read_os_dir(&mut catalog, &p, &tree, &ctx(), None, Some(old_dirs), Some(old_videos), &now);
    match r {
        Ok(SyncStart::Scanned { folders, videos, removed_files, .. }) => {
            assert_eq!(titles(&videos), vec!["03.mkv"]);
            assert!(removed_files.contains(&"/app/frames/Show/02.jpg".to_string()));
            let c = ctx();
            commit_scan(&mut catalog, folders, videos, &c.update_date, &c.update_time);
        }
        other => panic!("unexpected {:?}", other),
    }
    let listed = get_os_videos(&catalog, &p, &"/lib/Show".to_string(), "episode_title_regex").unwrap();
    assert_eq!(titles(&listed), vec!["01.mkv", "03.mkv"]);
}

#[test]
fn rescan_of_unchanged_folder_reports_nothing() {
    let p = EpisodePattern::new().unwrap();
    let mut catalog = Catalog::new();
    let (folders, videos) = first_scan(&mut catalog, &p);
    let tree = show_tree(&[("/lib/Show/02.mkv", 200), ("/lib/Show/01.mkv", 100)]);
    let now = disk(&[("/lib/Show/01.mkv", 100), ("/lib/Show/02.mkv", 200), ("/lib/Show/Extras", 0)]);
    let before = catalog.videos.len();
    let r = upsert_read_os_dir(
        &mut catalog,
        &p,
        &tree,
        &ctx(),
        None,
        Some(vec![folders[0].clone()]),
        Some(vec![videos[0].clone(), videos[1].clone()]),
        &now,
    );
    assert!(matches!(r, Ok(SyncStart::Unchanged)));
    assert_eq!(catalog.videos.len(), before);
}

#[test]
fn fresh_scan_has_no_differences() {
    let tree = show_tree(&[("/lib/Show/01.mkv", 100)]);
    let r = find_stale_entries(&tree, None, None, &disk(&[])).unwrap();
    assert!(r.is_none());
}

#[test]
fn deleted_video_clears_last_watched() {
    let p = EpisodePattern::new().unwrap();
    let mut catalog = Catalog::new();
    let (_folders, videos) = first_scan(&mut catalog, &p);
    let mut user = create_default_user(&mut catalog, "2024-11-30".to_string(), "10:43pm".to_string());
    user.last_watched_video = Some(videos[1].clone());
    update_user(&mut catalog, user);
    let files = delete_os_videos(&mut catalog, vec![videos[1].clone()]);
    assert!(files.contains(&"/app/frames/Show/02.jpg".to_string()));
    assert!(get_default_user(&catalog).unwrap().last_watched_video.is_none());
    assert!(catalog.videos.iter().all(|v| v.path != "/lib/Show/02.mkv"));
    assert_eq!(catalog.videos.len(), 2);
}

#[test]
fn resized_video_is_stale() {
    let p = EpisodePattern::new().unwrap();
    let mut catalog = Catalog::new();
    let (_folders, videos) = first_scan(&mut catalog, &p);
    let now = disk(&[("/lib/Show/01.mkv", 101), ("/lib/Show/02.mkv", 200)]);
    let current = vec!["/lib/Show/01.mkv".to_string(), "/lib/Show/02.mkv".to_string()];
    let r = find_stale_metadata(&vec![videos[0].clone(), videos[1].clone()], &current, &now);
    assert_eq!(r, Some(vec!["/lib/Show/01.mkv".to_string()]));
}

#[test]
fn missing_paths_are_symmetric() {
    let old = vec!["/a".to_string(), "/b".to_string()];
    let new = vec!["/b".to_string(), "/c".to_string()];
    let r = find_missing_paths(&old, &new).unwrap();
    assert_eq!(r, vec!["/a".to_string(), "/c".to_string()]);
    assert_eq!(find_missing_paths(&old, &old), None);
}

#[test]
fn deleting_a_folder_cascades() {
    let p = EpisodePattern::new().unwrap();
    let mut catalog = Catalog::new();
    let (folders, _videos) = first_scan(&mut catalog, &p);
    let dirs = delete_os_folders(&mut catalog, vec![folders[0].clone()], &"/app".to_string());
    assert_eq!(dirs, vec!["/app/frames/Extras".to_string()]);
    assert_eq!(catalog.folders.len(), 1);
    assert_eq!(catalog.videos.len(), 2);
    assert!(get_os_folder_by_path(&catalog, &"/lib/Show/Extras".to_string()).is_err());
    assert_eq!(get_os_folder_by_path(&catalog, &"/lib/Show".to_string()).unwrap().title, "Show");
}

#[test]
fn empty_folder_is_not_found() {
    let p = EpisodePattern::new().unwrap();
    let tree = FsDir { path: "/lib/Empty".to_string(), entries: Some(vec![file("/lib/Empty/notes.txt", 1)]) };
    let r = read_os_folder_dir(&p, &tree, &ctx(), None, &StaleEntries::NoChanges);
    assert!(matches!(r, Err(ReadDirError::NotFound(_))));
    let unreadable = FsDir { path: "/lib/Gone".to_string(), entries: None };
    let r = read_os_folder_dir(&p, &unreadable, &ctx(), None, &StaleEntries::NoChanges);
    assert!(matches!(r, Err(ReadDirError::Io(_))));
}

#[test]
fn classification_of_entries() {
    assert_eq!(classify_entry(&file("/x/a.MKV", 1)), EntryKind::MediaFile);
    assert_eq!(classify_entry(&file("/x/a.flac", 1)), EntryKind::MediaFile);
    assert_eq!(classify_entry(&file("/x/a.txt", 1)), EntryKind::Ignored);
    assert_eq!(classify_entry(&file("/x/README", 1)), EntryKind::Ignored);
    assert_eq!(classify_entry(&dir("/x/Season.1", vec![])), EntryKind::ChildFolder);
    assert!(is_media_extension("Mp4"));
    assert!(!is_media_extension("srt"));
}

#[test]
fn cover_image_paths() {
    let r = join_cover_img_path(Some("/lib/Anime"), "/lib/Anime/Show", "/lib/Anime/Show/Ep.01.mkv", "/app").unwrap();
    assert_eq!(r, "/app/frames/Anime/Show/Ep.jpg");
    let r = join_cover_img_path(None, "/lib/Show", "/lib/Show/01.mkv", "/app/").unwrap();
    assert_eq!(r, "/app/frames/Show/01.jpg");
    assert!(join_cover_img_path(Some("/"), "/lib/Show", "/lib/Show/01.mkv", "/app").is_err());
}

#[test]
fn folders_listed_by_update_time() {
    let p = EpisodePattern::new().unwrap();
    let mut catalog = Catalog::new();
    let mut a = OsFolder {
        user_id: "1".to_string(),
        path: "/lib/A".to_string(),
        title: "A".to_string(),
        parent_path: None,
        last_watched_video: None,
        cover_img_path: None,
        update_date: "2024-01-01".to_string(),
        update_time: "09:00am".to_string(),
    };
    catalog.upsert_folder(a.clone());
    a.path = "/lib/B".to_string();
    a.title = "B".to_string();
    a.update_date = "2024-02-01".to_string();
    catalog.upsert_folder(a);
    let r = get_os_folders(&catalog, &p, &"1".to_string(), "updated").unwrap();
    assert_eq!(r[0].title, "B");
    assert_eq!(r[1].title, "A");
    assert!(get_os_folders(&catalog, &p, &"1".to_string(), "sideways").is_err());
    let _ = Settings::default_settings("d".to_string(), "t".to_string());
    let _u: Option<User> = None;
}

#[test]
fn playback_marks_watched_videos() {
    let p = EpisodePattern::new().unwrap();
    let mut catalog = Catalog::new();
    let (_folders, videos) = first_scan(&mut catalog, &p);
    let mut vs = vec![videos[0].clone(), videos[1].clone()];
    let reports = vec![
        MpvPlaybackData { last_video_path: "/lib/Show/01.mkv".to_string(), last_video_position: 30, last_video_duration: 1440 },
        MpvPlaybackData { last_video_path: "/lib/Show/02.mkv".to_string(), last_video_position: 600, last_video_duration: 1500 },
        MpvPlaybackData { last_video_path: "/elsewhere.mkv".to_string(), last_video_position: 1, last_video_duration: 2 },
    ];
    let last = apply_playback(&mut vs, &reports).unwrap();
    assert_eq!(last.path, "/lib/Show/02.mkv");
    assert_eq!(last.position, 600);
    assert!(vs[0].watched && vs[1].watched);
    assert_eq!((vs[0].position, vs[0].duration), (30, 1440));
    assert_eq!((vs[1].position, vs[1].duration), (600, 1500));
    assert!(apply_playback(&mut vs, &vec![]).is_none());

    let a = mpv_args(true, 3, "/lib/Show", "/app/mpvshelf.lua", "Show");
    assert_eq!(a, vec!["--playlist-start=3", "--playlist=/lib/Show", "--script=/app/mpvshelf.lua", "--title=Show | mpvshelf"]);
    let b = mpv_args(false, 3, "/lib/Show", "s.lua", "Show");
    assert_eq!(b, vec!["--script=s.lua", "--title=Show | mpvshelf"]);
}

#[test]
fn stale_entries_deleted_together() {
    let p = EpisodePattern::new().unwrap();
    let mut catalog = Catalog::new();
    let (folders, videos) = first_scan(&mut catalog, &p);
    assert_eq!(folders[0].get_appdata_frames_folder("/app"), "/app/frames/Extras");
    let (dirs, files) = delete_stale_entries(&mut catalog, vec![folders[0].clone()], vec![videos[0].clone()], &"/app".to_string());
    assert_eq!(dirs, vec!["/app/frames/Extras".to_string()]);
    assert!(files.contains(&"/app/frames/Show/01.jpg".to_string()));
    assert_eq!(catalog.videos.len(), 1);
    assert_eq!(catalog.videos[0].path, "/lib/Show/02.mkv");
    assert_eq!(catalog.folders.len(), 1);
}

#[test]
fn folders_by_parent_and_users() {
    let p = EpisodePattern::new().unwrap();
    let mut catalog = Catalog::new();
    first_scan(&mut catalog, &p);
    let kids = get_os_folders_by_path(&catalog, &p, &"/lib/Show".to_string(), "none").unwrap();
    assert_eq!(kids.len(), 1);
    assert_eq!(kids[0].title, "Extras");
    assert!(get_os_folders_by_path(&catalog, &p, &"/nowhere".to_string(), "none").is_err());
    assert!(get_user_by_id(&catalog, "1").is_err());
    let u = create_default_user(&mut catalog, "2024-11-30".to_string(), "10:43pm".to_string());
    assert_eq!(u.username, "default");
    assert!(u.settings.mpv_settings.autoplay);
    assert_eq!(get_user_by_id(&catalog, "1").unwrap().username, "default");
    assert_eq!(catalog.users.len(), 1);
    create_default_user(&mut catalog, "2024-12-01".to_string(), "01:00am".to_string());
    assert_eq!(catalog.users.len(), 1);
}
