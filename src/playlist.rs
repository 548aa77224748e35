//! The player's side of the engine: the position of a video in its
//! folder's playlist, the player's arguments and release, the verdict on a
//! trial run, what a playback session changes in the catalog, and the clock
//! text of record stamps.
use vstd::prelude::*;
use crate::text::{chars_of, string_of};
use crate::paths::{file_name, file_name_of, extension, extension_of};
use crate::classify::{FsEntry, FsFile, is_media_ext, is_media_extension, ci_eq};
use crate::episode::{EpisodePattern, episode_key, order_by, ordered_by};
use crate::mpv::MpvError;
use crate::model::OsVideo;

verus! {

/// Subtitle formats that the player's playlist holds beside the media.
pub open spec fn subtitle_ext_list() -> Seq<Seq<char>> {
    seq!["srt"@, "ass"@, "ssa"@, "sub"@, "idx"@, "vtt"@, "lrc"@]
}

pub open spec fn is_subtitle_ext(e: Seq<char>) -> bool {
    exists|i: int| 0 <= i < subtitle_ext_list().len() && ci_eq(e, #[trigger] subtitle_ext_list()[i])
}

fn is_subtitle_extension(e: &str) -> (r: bool)
    ensures
        r == is_subtitle_ext(e@),
{
    let list = vec!["srt", "ass", "ssa", "sub", "idx", "vtt", "lrc"];
    assert(list@.map_values(|s: &'static str| s@) =~= subtitle_ext_list());
    let ev = chars_of(e);
    let mut i: usize = 0;
    while i < list.len()
        invariant
            i <= list.len(),
            list@.map_values(|s: &'static str| s@) == subtitle_ext_list(),
            ev@ == e@,
            forall|k: int| 0 <= k < i ==> !ci_eq(e@, #[trigger] subtitle_ext_list()[k]),
        decreases list.len() - i,
    {
        let lv = chars_of(list[i]);
        assert(subtitle_ext_list()[i as int] == list@[i as int]@);
        if crate::classify::ci_eq_exec(&ev, &lv) {
            return true;
        }
        i += 1;
    }
    false
}

/// Whether a listed entry is a file the playlist holds.
pub open spec fn in_playlist(e: FsEntry) -> bool {
    match e {
        FsEntry::File(f) => match extension(f.path@) {
            Some(x) => is_media_ext(x) || is_subtitle_ext(x),
            None => false,
        },
        FsEntry::Dir(_) => false,
    }
}

/// The files of a listing that the playlist holds, in listing order.
pub open spec fn playlist_files(es: Seq<FsEntry>) -> Seq<FsFile>
    decreases es.len(),
{
    if es.len() == 0 {
        Seq::empty()
    } else {
        let p = playlist_files(es.drop_last());
        match es.last() {
            FsEntry::File(f) => if in_playlist(es.last()) {
                p.push(f)
            } else {
                p
            },
            FsEntry::Dir(_) => p,
        }
    }
}

/// The episode key of each playlist file's name.
pub open spec fn name_keys(fs: Seq<FsFile>) -> Seq<u64> {
    fs.map_values(|f: FsFile| match file_name(f.path@) {
        Some(n) => episode_key(n) as u64,
        None => 0,
    })
}

/// In some order of the playlist by (episode number, listing position), the
/// `i`-th file is the first that bears the selected file's name.
pub open spec fn found_at(es: Seq<FsEntry>, selected: Seq<char>, i: int) -> bool {
    exists|order: Seq<usize>|
        #[trigger] ordered_by(name_keys(playlist_files(es)), order) && 0 <= i < order.len()
            && file_name(playlist_files(es)[order[i] as int].path@) == file_name(selected)
            && forall|j: int| 0 <= j < i ==> file_name(playlist_files(es)[order[j] as int].path@) != file_name(selected)
}

/// Finds where the selected video stands in its folder's playlist: the
/// folder's video, audio and subtitle files in episode order (ties in listing
/// order). Fails when the selected path has no file name, or when no file of
/// the playlist bears it.
pub fn find_video_index(pattern: &EpisodePattern, entries: &Vec<FsEntry>, selected_video_path: String) -> (r: Result<u32, MpvError>)
    ensures
        file_name(selected_video_path@) is None ==> r matches Err(MpvError::InvalidPathName(_)),
        r matches Err(MpvError::InvalidPathName(_)) ==> file_name(selected_video_path@) is None,
        r matches Ok(i) ==> found_at(entries@, selected_video_path@, i as int),
        r matches Err(MpvError::OsVideoNotFound(_)) ==> playlist_files(entries@).len() > u32::MAX || exists|order: Seq<usize>| #[trigger] ordered_by(name_keys(playlist_files(entries@)), order)
            && forall|j: int| 0 <= j < order.len() ==> file_name(playlist_files(entries@)[order[j] as int].path@) != file_name(selected_video_path@),
        r matches Err(e) ==> (e is InvalidPathName || e is OsVideoNotFound),
{
    let ghost es = entries@;
    let mut names: Vec<Option<String>> = Vec::new();
    let mut keys: Vec<u64> = Vec::new();
    let mut i: usize = 0;
    while i < entries.len()
        invariant
            i <= entries.len(),
            es == entries@,
            names@.len() == keys@.len(),
            names@.len() == playlist_files(es.subrange(0, i as int)).len(),
            keys@ == name_keys(playlist_files(es.subrange(0, i as int))),
            forall|k: int| 0 <= k < names@.len() ==> match #[trigger] names@[k] {
                Some(n) => file_name(playlist_files(es.subrange(0, i as int))[k].path@) == Some(n@),
                None => file_name(playlist_files(es.subrange(0, i as int))[k].path@) is None,
            },
        decreases entries.len() - i,
    {
        let ghost pre = es.subrange(0, i + 1);
        assert(pre.drop_last() =~= es.subrange(0, i as int));
        assert(pre.last() == es[i as int]);
        match &entries[i] {
            FsEntry::File(f) => {
                let keep = match extension_of(f.path.as_str()) {
                    Some(x) => is_media_extension(x.as_str()) || is_subtitle_extension(x.as_str()),
                    None => false,
                };
                if keep {
                    let n = file_name_of(f.path.as_str());
                    let k: u64 = match &n {
                        Some(t) => pattern.episode_number(t.as_str()) as u64,
                        None => 0,
                    };
                    let ghost k0 = keys@;
                    names.push(n);
                    keys.push(k);
                    assert(name_keys(playlist_files(pre)) =~= k0.push(k));
                }
            },
            FsEntry::Dir(_) => {},
        }
        i += 1;
    }
    assert(es.subrange(0, entries.len() as int) =~= es);
    let ghost fs = playlist_files(es);
    let wanted = match file_name_of(selected_video_path.as_str()) {
        Some(w) => w,
        None => return Err(MpvError::InvalidPathName(selected_video_path)),
    };
    let order = order_by(&keys);
    let mut k: usize = 0;
    while k < order.len()
        invariant
            k <= order.len(),
            ordered_by(keys@, order@),
            keys@ == name_keys(fs),
            fs == playlist_files(entries@),
            names@.len() == fs.len(),
            file_name(selected_video_path@) == Some(wanted@),
            forall|q: int| 0 <= q < names@.len() ==> match #[trigger] names@[q] {
                Some(n) => file_name(fs[q].path@) == Some(n@),
                None => file_name(fs[q].path@) is None,
            },
            forall|j: int| 0 <= j < k ==> file_name(fs[order@[j] as int].path@) != file_name(selected_video_path@),
        decreases order.len() - k,
    {
        let idx = order[k];
        let hit = match &names[idx] {
            Some(n) => *n == wanted,
            None => false,
        };
        if hit {
            proof {
                assert(file_name(fs[order@[k as int] as int].path@) == file_name(selected_video_path@));
            }
            if k > 4294967295 {
                return Err(MpvError::OsVideoNotFound(selected_video_path));
            }
            assert(forall|j: int| 0 <= j < k ==> file_name(fs[order@[j] as int].path@) != file_name(selected_video_path@));
            let r = k as u32;
            assert(r as int == k as int);
            assert(file_name(playlist_files(entries@)[order@[r as int] as int].path@) == file_name(selected_video_path@));
            assert(found_at(entries@, selected_video_path@, r as int));
            return Ok(r);
        }
        k += 1;
    }
    assert(ordered_by(name_keys(fs), order@));
    Err(MpvError::OsVideoNotFound(selected_video_path))
}

/// The digits of `n` below 100, two wide.
pub open spec fn two_digits(n: nat) -> Seq<char> {
    seq![crate::sync::digit_char(n / 10), crate::sync::digit_char(n % 10)]
}

/// The clock text of a record stamp: the hour modulo twelve in two digits,
/// the minutes, and `am` before noon, `pm` from noon.
pub open spec fn clock_text(hour: nat, minute: nat) -> Seq<char> {
    two_digits(hour % 12) + seq![':'] + two_digits(minute) + if hour >= 12 {
        "pm"@
    } else {
        "am"@
    }
}

fn two_digits_exec(n: u32) -> (r: Vec<char>)
    requires
        n < 100,
    ensures
        r@ == two_digits(n as nat),
{
    let a = crate::sync::digit_exec((n / 10) as usize);
    let b = crate::sync::digit_exec((n % 10) as usize);
    let r = vec![a, b];
    assert(r@ =~= two_digits(n as nat));
    r
}

/// Formats the time of a record stamp from the local hour and minute.
pub fn format_clock(hour: u32, minute: u32) -> (r: String)
    requires
        hour < 24,
        minute < 60,
    ensures
        r@ == clock_text(hour as nat, minute as nat),
{
    let mut v = two_digits_exec(hour % 12);
    v.push(':');
    let m = two_digits_exec(minute);
    let ghost v0 = v@;
    let mut i: usize = 0;
    while i < m.len()
        invariant
            i <= m.len(),
            v@ == v0 + m@.subrange(0, i as int),
        decreases m.len() - i,
    {
        v.push(m[i]);
        i += 1;
    }
    assert(m@.subrange(0, m.len() as int) =~= m@);
    let s = string_of(v.as_slice());
    let r = if hour >= 12 { s.concat("pm") } else { s.concat("am") };
    assert(r@ =~= clock_text(hour as nat, minute as nat));
    r
}

/// A video after the player reported it.
pub open spec fn played(v: crate::model::VideoView, d: crate::mpv::PlaybackView) -> crate::model::VideoView {
    crate::model::VideoView { watched: true, position: d.position, duration: d.duration, ..v }
}

/// The videos after one report: each video with the reported path is updated.
pub open spec fn apply_report(vs: Seq<crate::model::VideoView>, d: crate::mpv::PlaybackView) -> Seq<crate::model::VideoView> {
    vs.map_values(|v: crate::model::VideoView| if v.path == d.path { played(v, d) } else { v })
}

/// The videos after all reports, in order.
pub open spec fn apply_reports(vs: Seq<crate::model::VideoView>, ds: Seq<crate::mpv::PlaybackView>) -> Seq<crate::model::VideoView>
    decreases ds.len(),
{
    if ds.len() == 0 {
        vs
    } else {
        apply_report(apply_reports(vs, ds.drop_last()), ds.last())
    }
}

/// Index of the last video with path `p`, or -1.
pub open spec fn last_with_path(vs: Seq<crate::model::VideoView>, p: Seq<char>) -> int
    decreases vs.len(),
{
    if vs.len() == 0 {
        -1
    } else if vs.last().path == p {
        vs.len() - 1
    } else {
        last_with_path(vs.drop_last(), p)
    }
}

/// The video last updated by the reports: from the last report that names
/// a listed video, the last such video as that report left it.
pub open spec fn last_played(vs: Seq<crate::model::VideoView>, ds: Seq<crate::mpv::PlaybackView>) -> Option<crate::model::VideoView>
    decreases ds.len(),
{
    if ds.len() == 0 {
        None
    } else {
        let prev = apply_reports(vs, ds.drop_last());
        let i = last_with_path(prev, ds.last().path);
        if i >= 0 {
            Some(apply_report(prev, ds.last())[i])
        } else {
            last_played(vs, ds.drop_last())
        }
    }
}

proof fn lemma_last_with_path(vs: Seq<crate::model::VideoView>, p: Seq<char>)
    ensures
        -1 <= last_with_path(vs, p) < vs.len(),
        last_with_path(vs, p) >= 0 ==> vs[last_with_path(vs, p)].path == p,
    decreases vs.len(),
{
    if vs.len() > 0 {
        lemma_last_with_path(vs.drop_last(), p);
    }
}

/// Marks the videos the player reported as watched, with the reported
/// position and duration, and returns the video last updated.
pub fn apply_playback(os_videos: &mut Vec<OsVideo>, reports: &Vec<crate::mpv::MpvPlaybackData>) -> (r: Option<OsVideo>)
    ensures
        crate::model::views_of_videos(final(os_videos)@) == apply_reports(crate::model::views_of_videos(old(os_videos)@), crate::mpv::playback_views(reports@)),
        crate::model::opt_video_view(r) == last_played(crate::model::views_of_videos(old(os_videos)@), crate::mpv::playback_views(reports@)),
{
    let ghost vs0 = crate::model::views_of_videos(os_videos@);
    let ghost ds = crate::mpv::playback_views(reports@);
    let mut last: Option<OsVideo> = None;
    let mut j: usize = 0;
    while j < reports.len()
        invariant
            j <= reports.len(),
            ds == crate::mpv::playback_views(reports@),
            crate::model::views_of_videos(os_videos@) == apply_reports(vs0, ds.subrange(0, j as int)),
            crate::model::opt_video_view(last) == last_played(vs0, ds.subrange(0, j as int)),
        decreases reports.len() - j,
    {
        let ghost pre = ds.subrange(0, j + 1);
        assert(pre.drop_last() =~= ds.subrange(0, j as int));
        assert(pre.last() == reports@[j as int]@);
        let d = &reports[j];
        let ghost prev = crate::model::views_of_videos(os_videos@);
        proof {
            lemma_last_with_path(prev, d.last_video_path@);
        }
        let mut found: Option<usize> = None;
        let mut i: usize = 0;
        while i < os_videos.len()
            invariant
                i <= os_videos.len(),
                prev.len() == os_videos@.len(),
                crate::model::views_of_videos(os_videos@) =~= apply_report(prev, d@).subrange(0, i as int) + prev.subrange(i as int, prev.len() as int),
                match found {
                    Some(k) => (k as int) < i && last_with_path(prev.subrange(0, i as int), d@.path) == k as int,
                    None => last_with_path(prev.subrange(0, i as int), d@.path) == -1,
                },
            decreases os_videos.len() - i,
        {
            let ghost before = crate::model::views_of_videos(os_videos@);
            let ghost sub = prev.subrange(0, i + 1);
            assert(sub.drop_last() =~= prev.subrange(0, i as int));
            assert(sub.last() == prev[i as int]);
            assert(before[i as int] == prev[i as int]);
            if os_videos[i].path == d.last_video_path {
                let mut v = os_videos[i].duplicate();
                v.watched = true;
                v.position = d.last_video_position;
                v.duration = d.last_video_duration;
                os_videos.set(i, v);
                found = Some(i);
                assert(crate::model::views_of_videos(os_videos@) =~= before.update(i as int, played(prev[i as int], d@)));
            }
            assert(apply_report(prev, d@)[i as int] == if prev[i as int].path == d@.path { played(prev[i as int], d@) } else { prev[i as int] });
            assert(crate::model::views_of_videos(os_videos@) =~= apply_report(prev, d@).subrange(0, i + 1) + prev.subrange(i + 1, prev.len() as int));
            i += 1;
        }
        assert(prev.subrange(0, prev.len() as int) =~= prev);
        assert(crate::model::views_of_videos(os_videos@) =~= apply_report(prev, d@));
        match found {
            Some(k) => {
                last = Some(os_videos[k].duplicate());
            },
            None => {},
        }
        j += 1;
    }
    assert(ds.subrange(0, reports.len() as int) =~= ds);
    last
}

/// The player's arguments: with autoplay, the playlist of the video's folder
/// started at the video's index; then the script and the window title.
pub open spec fn player_args(autoplay: bool, index: nat, folder: Seq<char>, script: Seq<char>, title: Seq<char>) -> Seq<Seq<char>> {
    let tail = seq!["--script="@ + script, "--title="@ + title + " | mpvshelf"@];
    if autoplay {
        seq!["--playlist-start="@ + crate::sync::decimal(index), "--playlist="@ + folder] + tail
    } else {
        tail
    }
}

pub fn mpv_args(autoplay: bool, video_index: u32, parent_path: &str, script_path: &str, folder_title: &str) -> (r: Vec<String>)
    ensures
        crate::classify::str_views(r@) == player_args(autoplay, video_index as nat, parent_path@, script_path@, folder_title@),
{
    let mut args: Vec<String> = Vec::new();
    if autoplay {
        args.push(String::from_str("--playlist-start=").concat(crate::sync::decimal_text(video_index as usize).as_str()));
        args.push(String::from_str("--playlist=").concat(parent_path));
    }
    args.push(String::from_str("--script=").concat(script_path));
    args.push(String::from_str("--title=").concat(folder_title).concat(" | mpvshelf"));
    assert(crate::classify::str_views(args@) =~= player_args(autoplay, video_index as nat, parent_path@, script_path@, folder_title@));
    args
}

/// Where the player's release for a platform is published, and the file
/// name it is saved under; none for a platform without a release.
pub open spec fn release_for(platform: Seq<char>) -> Option<(Seq<char>, Seq<char>)> {
    if platform == "macos"@ {
        Some(("https://github.com/aramrw/mpv_shelf_v2/releases/download/v0.0.1/mpv-aarch64-apple-darwin"@, "mpv"@))
    } else if platform == "windows"@ {
        Some(("https://github.com/aramrw/mpv_shelf_v2/releases/download/v0.0.1/mpv-x86_64-pc-windows-msvc.exe"@, "mpv.exe"@))
    } else {
        None
    }
}

/// The player's download address and file name for a platform.
pub fn mpv_release(platform: &str) -> (r: Option<(String, String)>)
    ensures
        match r {
            Some((u, f)) => release_for(platform@) == Some((u@, f@)),
            None => release_for(platform@) is None,
        },
{
    let p = chars_of(platform);
    let mac = chars_of("macos");
    let win = chars_of("windows");
    if p.len() == mac.len() && crate::text::occurs_at_exec(&p, &mac, 0) {
        assert(p@.subrange(0, mac@.len() as int) =~= p@);
        Some((
            String::from_str("https://github.com/aramrw/mpv_shelf_v2/releases/download/v0.0.1/mpv-aarch64-apple-darwin"),
            String::from_str("mpv"),
        ))
    } else if p.len() == win.len() && crate::text::occurs_at_exec(&p, &win, 0) {
        assert(p@.subrange(0, win@.len() as int) =~= p@);
        proof {
            if p@ == "macos"@ {
                assert(p@.subrange(0, mac@.len() as int) =~= p@);
            }
        }
        Some((
            String::from_str("https://github.com/aramrw/mpv_shelf_v2/releases/download/v0.0.1/mpv-x86_64-pc-windows-msvc.exe"),
            String::from_str("mpv.exe"),
        ))
    } else {
        proof {
            if p@ == "macos"@ {
                assert(p@.subrange(0, mac@.len() as int) =~= p@);
            }
            if p@ == "windows"@ {
                assert(p@.subrange(0, win@.len() as int) =~= p@);
            }
        }
        None
    }
}

/// How a trial run of the player (`--version`) ended.
#[derive(Debug)]
pub enum ProbeOutcome {
    /// It ran and exited successfully.
    Succeeded,
    /// It ran and failed.
    Failed,
    /// There was no such program.
    NotFound,
    /// It could not be run for another reason.
    Io(String),
}

/// Judges a trial run of the player: success is fine; a failed or missing
/// player at an explicitly empty path is reported as that path, otherwise as
/// missing from the search path; other errors are passed on.
pub fn mpv_system_check(mpv_path: Option<String>, outcome: ProbeOutcome) -> (r: Result<(), MpvError>)
    ensures
        match outcome {
            ProbeOutcome::Succeeded => r is Ok,
            ProbeOutcome::Io(e) => r matches Err(MpvError::IoError(m)) && m == e,
            _ => match mpv_path {
                Some(p) => if p@.len() == 0 {
                    r matches Err(MpvError::AbsolutePathNotFound(q)) && q@ == p@
                } else {
                    r matches Err(MpvError::SudoPATHNotFound)
                },
                None => r matches Err(MpvError::SudoPATHNotFound),
            },
        },
{
    match outcome {
        ProbeOutcome::Succeeded => Ok(()),
        ProbeOutcome::Io(e) => Err(MpvError::IoError(e)),
        _ => match mpv_path {
            Some(p) => if p.as_str().is_empty() {
                Err(MpvError::AbsolutePathNotFound(p))
            } else {
                Err(MpvError::SudoPATHNotFound)
            },
            None => Err(MpvError::SudoPATHNotFound),
        },
    }
}

} // verus!
