//! Synchronization of a library folder with the catalog, and the decisions
//! around frame and duration extraction.
use vstd::prelude::*;
use crate::text::{chars_of, string_of, split_char, split_chars, views, trim, trim_chars};
use crate::model::{OsVideo, OsFolder, StaleEntries, ScanContext, views_of_folders, views_of_videos};
use crate::classify::FsDir;
use crate::episode::EpisodePattern;
use crate::walk::{ReadDirError, read_os_folder_dir, walked_deep, walk_failure, recorded_parent};
use crate::diff::{
    DiskState, find_stale_entries, opt_folder_views, opt_video_views, nothing_changed, dir_changes,
    video_changes, gone_folders, gone_videos, reports,
};
use crate::catalog::{
    Catalog, DatabaseError, folder_paths, video_paths, folders_deleted, videos_deleted,
    update_os_folders, update_os_videos, upsert_folders, upsert_videos,
};
use crate::mpv::{split_str, split_str_exec, MpvError};
use crate::timestamp::{seconds_of, timestamp_seconds};

verus! {

/// Why the external frame extractor gave no duration.
#[derive(Debug)]
pub enum FfmpegError {
    /// The process could not be started; holds the reason.
    Spawn(String),
    /// The process ended without printing a duration; holds what it printed.
    StdErr(String),
    /// The process ended abnormally.
    ProcessInterrupted,
}

/// Errors of a synchronization.
#[derive(Debug)]
pub enum MpvShelfError {
    Database(DatabaseError),
    Mpv(MpvError),
    Http(String),
    ReadDir(ReadDirError),
    Ffmpeg(FfmpegError),
}

/// The first phase of a synchronization.
#[derive(Debug)]
pub enum SyncStart {
    /// Nothing changed; the catalog is as it was.
    Unchanged,
    /// The records of the walk, to be given their durations and committed;
    /// the folder's own record is the last of `folders`. The frames
    /// directories and cover images of deleted records are to be removed
    /// from disk.
    Scanned {
        folders: Vec<OsFolder>,
        videos: Vec<OsVideo>,
        removed_dirs: Vec<String>,
        removed_files: Vec<String>,
    },
}

/// The filter a walk used: none for a first scan or when only deletions
/// were found; else the changed child folders and videos.
pub open spec fn scan_filter(
    st: StaleEntries,
    es: Seq<crate::classify::FsEntry>,
    old_dirs: Option<Vec<OsFolder>>,
    old_videos: Option<Vec<OsVideo>>,
    disk: DiskState,
) -> bool {
    let od = opt_folder_views(old_dirs);
    let ov = opt_video_views(old_videos);
    if (old_dirs is None && old_videos is None) || (dir_changes(es, od, disk).is_empty()
        && video_changes(es, ov, disk).is_empty()) {
        st.is_nothing()
    } else {
        match st {
            StaleEntries::Found { dirs, videos, .. } => reports(dirs, dir_changes(es, od, disk))
                && reports(videos, video_changes(es, ov, disk)),
            StaleEntries::NoChanges => false,
        }
    }
}

/// The catalog after the deletions a re-scan found: the vanished folders,
/// then the vanished videos.
pub open spec fn deletions_applied(
    old: Catalog,
    new: Catalog,
    old_dirs: Option<Vec<OsFolder>>,
    old_videos: Option<Vec<OsVideo>>,
    disk: DiskState,
) -> bool {
    if old_dirs is None && old_videos is None {
        new == old
    } else {
        exists|mid: Catalog|
            folders_deleted(old, mid, folder_paths(gone_folders(opt_folder_views(old_dirs), disk)))
                && #[trigger] videos_deleted(
                mid,
                new,
                video_paths(gone_videos(opt_video_views(old_videos), disk)),
            )
    }
}

/// A scan that found changes: the deletions are applied, and the records
/// are those of a walk of the folder under the scan's filter.
pub open spec fn scanned(
    tree: FsDir,
    ctx: ScanContext,
    parent_path: Option<String>,
    old_dirs: Option<Vec<OsFolder>>,
    old_videos: Option<Vec<OsVideo>>,
    disk: DiskState,
    old_c: Catalog,
    new_c: Catalog,
    folders: Seq<OsFolder>,
    videos: Seq<OsVideo>,
) -> bool {
    &&& tree.entries is Some
    &&& deletions_applied(old_c, new_c, old_dirs, old_videos, disk)
    &&& folders.len() >= 1
    &&& exists|st: StaleEntries|
        #[trigger] scan_filter(st, tree.entries->0@, old_dirs, old_videos, disk) && forall|n: nat|
            #[trigger] walked_deep(
                tree,
                st,
                recorded_parent(tree, parent_path),
                ctx,
                (folders.last()@, views_of_folders(folders.drop_last()), views_of_videos(videos)),
                n,
            )
}

/// Synchronizes a folder with the catalog, up to the records to commit.
/// With a snapshot (`old_dirs`, `old_videos`) that still matches the disk it
/// reports `Unchanged`. Otherwise it deletes what vanished, walks the folder
/// (only the changed entries on a re-scan that found some) and hands back
/// the walk's records.
pub fn upsert_read_os_dir(
    catalog: &mut Catalog,
    pattern: &EpisodePattern,
    tree: &FsDir,
    ctx: &ScanContext,
    parent_path: Option<String>,
    old_dirs: Option<Vec<OsFolder>>,
    old_videos: Option<Vec<OsVideo>>,
    disk: &DiskState,
) -> (r: Result<SyncStart, MpvShelfError>)
    requires
        old(catalog).wf(),
    ensures
        final(catalog).wf(),
        (r matches Ok(SyncStart::Unchanged)) <==> (tree.entries is Some && (old_dirs is Some
            || old_videos is Some) && nothing_changed(
            tree.entries->0@,
            opt_folder_views(old_dirs),
            opt_video_views(old_videos),
            *disk,
        )),
        r matches Ok(SyncStart::Unchanged) ==> *final(catalog) == *old(catalog),
        tree.entries is None ==> *final(catalog) == *old(catalog) && r matches Err(
            MpvShelfError::ReadDir(ReadDirError::Io(_)),
        ),
        match r {
            Ok(SyncStart::Scanned { folders, videos, .. }) => scanned(
                *tree,
                *ctx,
                parent_path,
                old_dirs,
                old_videos,
                *disk,
                *old(catalog),
                *final(catalog),
                folders@,
                videos@,
            ),
            Err(MpvShelfError::ReadDir(e)) => tree.entries is None || (deletions_applied(
                *old(catalog),
                *final(catalog),
                old_dirs,
                old_videos,
                *disk,
            ) && exists|st: StaleEntries|
                scan_filter(st, tree.entries->0@, old_dirs, old_videos, *disk)
                    && #[trigger] walk_failure(*tree, st) == Some(e.failure())),
            Ok(SyncStart::Unchanged) => true,
            Err(_) => false,
        },
{
    let had_snapshot = old_dirs.is_some() || old_videos.is_some();
    let ghost od = opt_folder_views(old_dirs);
    let ghost ov = opt_video_views(old_videos);
    let ghost c0 = *catalog;
    let stale = match find_stale_entries(tree, old_dirs, old_videos, disk) {
        Ok(s) => s,
        Err(e) => return Err(MpvShelfError::ReadDir(e)),
    };
    let ghost es = tree.entries->0@;
    if had_snapshot && stale.is_none() {
        return Ok(SyncStart::Unchanged);
    }
    let mut removed_dirs: Vec<String> = Vec::new();
    let mut removed_files: Vec<String> = Vec::new();
    let filter = match stale {
        StaleEntries::Found { dirs, videos, deleted } => {
            match deleted {
                Some((df, dv)) => {
                    let (d, f) = crate::catalog::delete_stale_entries(catalog, df, dv, &ctx.app_data_dir);
                    removed_dirs = d;
                    removed_files = f;
                },
                None => {},
            }
            if dirs.is_none() && videos.is_none() {
                StaleEntries::NoChanges
            } else {
                StaleEntries::Found { dirs, videos, deleted: None }
            }
        },
        StaleEntries::NoChanges => StaleEntries::NoChanges,
    };
    assert(scan_filter(filter, es, old_dirs, old_videos, *disk));
    assert(deletions_applied(c0, *catalog, old_dirs, old_videos, *disk));
    match read_os_folder_dir(pattern, tree, ctx, parent_path, &filter) {
        Ok(g) => {
            let ghost gv = crate::walk::group_view(g);
            let (main, mut cfs, videos) = g;
            let ghost rest = cfs@;
            let ghost m = main;
            cfs.push(main);
            assert(cfs@.drop_last() =~= rest);
            assert(cfs@.last() == m);
            assert(gv == (cfs@.last()@, views_of_folders(cfs@.drop_last()), views_of_videos(videos@)));
            assert(scanned(*tree, *ctx, parent_path, old_dirs, old_videos, *disk, *old(catalog), *catalog, cfs@, videos@));
            Ok(SyncStart::Scanned { folders: cfs, videos, removed_dirs, removed_files })
        },
        Err(e) => {
            assert(walk_failure(*tree, filter) == Some(e.failure()));
            assert(deletions_applied(*old(catalog), *catalog, old_dirs, old_videos, *disk));
            Err(MpvShelfError::ReadDir(e))
        },
    }
}

/// The second phase of a synchronization: writes the videos, then the
/// folders, each stamped with the given date and time.
pub fn commit_scan(catalog: &mut Catalog, folders: Vec<OsFolder>, videos: Vec<OsVideo>, date: &String, time: &String)
    requires
        old(catalog).wf(),
    ensures
        final(catalog).wf(),
        final(catalog).video_views() == upsert_videos(old(catalog).video_views(), views_of_videos(videos@), date@, time@),
        final(catalog).folder_views() == upsert_folders(old(catalog).folder_views(), views_of_folders(folders@), date@, time@),
        final(catalog).users == old(catalog).users,
{
    update_os_videos(catalog, videos, date, time);
    update_os_folders(catalog, folders, date, time);
}

/// Decimal digits of `n`.
pub open spec fn decimal(n: nat) -> Seq<char>
    decreases n,
{
    if n < 10 {
        seq![digit_char(n)]
    } else {
        decimal(n / 10).push(digit_char(n % 10))
    }
}

pub open spec fn digit_char(d: nat) -> char {
    if d == 0 { '0' } else if d == 1 { '1' } else if d == 2 { '2' } else if d == 3 { '3' } else if d
        == 4 { '4' } else if d == 5 { '5' } else if d == 6 { '6' } else if d == 7 { '7' } else if d
        == 8 { '8' } else { '9' }
}

pub(crate) fn digit_exec(d: usize) -> (c: char)
    requires
        d < 10,
    ensures
        c == digit_char(d as nat),
{
    if d == 0 { '0' } else if d == 1 { '1' } else if d == 2 { '2' } else if d == 3 { '3' } else if d
        == 4 { '4' } else if d == 5 { '5' } else if d == 6 { '6' } else if d == 7 { '7' } else if d
        == 8 { '8' } else { '9' }
}

/// `n` written in decimal.
pub fn decimal_text(n: usize) -> (r: String)
    ensures
        r@ == decimal(n as nat),
    decreases n,
{
    if n < 10 {
        let v = vec![digit_exec(n)];
        assert(v@ =~= seq![digit_char(n as nat)]);
        string_of(v.as_slice())
    } else {
        let head = decimal_text(n / 10);
        let mut v = chars_of(head.as_str());
        v.push(digit_exec(n % 10));
        string_of(v.as_slice())
    }
}

/// The seek offset, in seconds, for the `i`-th video of a batch: a little
/// later for each, so that a batch does not pick the same frame everywhere.
pub open spec fn seek_offset(index: Option<usize>) -> nat {
    match index {
        Some(i) => i as nat,
        None => 5,
    }
}

/// The arguments of the frame extractor: seek, input, one frame, output.
pub open spec fn frame_args(index: Option<usize>, entry: Seq<char>, cover: Seq<char>) -> Seq<Seq<char>> {
    seq!["-ss"@, decimal(seek_offset(index)), "-i"@, entry, "-frames:v"@, "1"@, cover]
}

pub fn ffmpeg_args(index: Option<usize>, entry_path: &str, cover_img_path: &str) -> (r: Vec<String>)
    ensures
        crate::classify::str_views(r@) == frame_args(index, entry_path@, cover_img_path@),
{
    let frame = match index {
        Some(i) => decimal_text(i),
        None => decimal_text(5),
    };
    let r = vec![
        String::from_str("-ss"),
        frame,
        String::from_str("-i"),
        String::from_str(entry_path),
        String::from_str("-frames:v"),
        String::from_str("1"),
        String::from_str(cover_img_path),
    ];
    assert(crate::classify::str_views(r@) =~= frame_args(index, entry_path@, cover_img_path@));
    r
}

/// The frame index for the `i`-th video of a batch.
pub fn batch_seek_index(i: usize) -> (r: Option<usize>)
    ensures
        r == (if i <= usize::MAX - 3 { Some((i + 3) as usize) } else { None::<usize> }),
{
    if i <= usize::MAX - 3 {
        Some(i + 3)
    } else {
        None
    }
}

/// The duration text of a diagnostic line: after the first `Duration:` and
/// up to the next comma, trimmed.
pub open spec fn duration_in_line(line: Seq<char>) -> Option<Seq<char>> {
    let parts = split_str(line, "Duration:"@);
    if parts.len() >= 2 {
        Some(trim(split_char(parts[1], ',')[0]))
    } else {
        None
    }
}

pub fn duration_of_line(line: &str) -> (r: Option<String>)
    ensures
        match r {
            Some(s) => duration_in_line(line@) == Some(s@),
            None => duration_in_line(line@) is None,
        },
{
    let v = chars_of(line);
    let pat = chars_of("Duration:");
    proof {
        reveal_strlit("Duration:");
    }
    let parts = split_str_exec(&v, &pat);
    if parts.len() >= 2 {
        assert(views(parts@)[1] == parts@[1]@);
        let pieces = split_chars(&parts[1], ',');
        proof {
            crate::text::lemma_split_char_len(parts@[1]@, ',');
            assert(views(pieces@)[0] == pieces@[0]@);
        }
        let t = trim_chars(&pieces[0]);
        Some(string_of(t.as_slice()))
    } else {
        None
    }
}

/// What the extractor's process reports.
#[derive(Debug)]
pub enum FfmpegEvent {
    /// A line of its diagnostic stream.
    Stderr(String),
    /// An error of the process.
    Error(String),
    /// The process ended.
    Terminated,
    /// Anything else.
    Other,
}

/// What has been read of one extractor process.
#[derive(Debug)]
pub struct FfmpegSession {
    pub stderr: String,
    pub duration: Option<String>,
}

pub open spec fn exit_error_text(e: Seq<char>) -> Seq<char> {
    "\nexit error:\n"@ + e
}

impl FfmpegSession {
    pub fn new() -> (r: Self)
        ensures
            r.stderr@.len() == 0,
            r.duration is None,
    {
        FfmpegSession { stderr: String::new(), duration: None }
    }

    /// Takes one event. A diagnostic line is kept and may carry the
    /// duration (the last one found counts); the end of the process yields
    /// the duration, or the diagnostics when none was found; any other event
    /// ends the session as interrupted.
    pub fn on_event(&mut self, ev: FfmpegEvent) -> (r: Option<Result<String, FfmpegError>>)
        ensures
            match ev {
                FfmpegEvent::Stderr(line) => r is None && final(self).stderr@ == old(self).stderr@
                    + line@ && match duration_in_line(line@) {
                    Some(d) => final(self).duration matches Some(s) && s@ == d,
                    None => final(self).duration == old(self).duration,
                },
                FfmpegEvent::Error(e) => r is None && final(self).stderr@ == old(self).stderr@
                    + exit_error_text(e@) && final(self).duration == old(self).duration,
                FfmpegEvent::Terminated => match old(self).duration {
                    Some(d) => r matches Some(Ok(s)) && s@ == d@,
                    None => r matches Some(Err(FfmpegError::StdErr(s))) && s@ == old(self).stderr@,
                },
                FfmpegEvent::Other => r matches Some(Err(FfmpegError::ProcessInterrupted)),
            },
    {
        match ev {
            FfmpegEvent::Stderr(line) => {
                match duration_of_line(line.as_str()) {
                    Some(d) => {
                        self.duration = Some(d);
                    },
                    None => {},
                }
                self.stderr.append(line.as_str());
                None
            },
            FfmpegEvent::Error(e) => {
                self.stderr.append("\nexit error:\n");
                self.stderr.append(e.as_str());
                None
            },
            FfmpegEvent::Terminated => match &self.duration {
                Some(d) => Some(Ok(d.clone())),
                None => Some(Err(FfmpegError::StdErr(self.stderr.clone()))),
            },
            FfmpegEvent::Other => Some(Err(FfmpegError::ProcessInterrupted)),
        }
    }
}

/// Records what the extractor reported of a video: its duration, when the
/// extraction succeeded and the duration reads as `HH:MM:SS`; otherwise the
/// video is left as it was.
pub fn apply_extraction(video: &mut OsVideo, outcome: Result<String, FfmpegError>)
    ensures
        match outcome {
            Ok(d) => match seconds_of(d@) {
                Ok(s) => *final(video) == OsVideo { duration: s, ..*old(video) },
                Err(_) => *final(video) == *old(video),
            },
            Err(_) => *final(video) == *old(video),
        },
{
    match outcome {
        Ok(d) => match timestamp_seconds(&d) {
            Ok(s) => {
                video.duration = s;
            },
            Err(_) => {},
        },
        Err(_) => {},
    }
}

} // verus!
