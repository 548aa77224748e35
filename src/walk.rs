//! The tree walker: builds the folder record of a directory, its videos in
//! episode order, and the records of every folder and video beneath it.
use vstd::prelude::*;
use crate::text::{string_of};
use crate::paths::{
    file_name, file_stem, file_name_of, file_stem_of, parent_of, parent_path_of, join, join_path,
    stem_of,
};
use crate::model::{
    FileMetadata, OsVideo, OsFolder, VideoView, FolderView, StaleEntries, ScanContext,
    views_of_videos, views_of_folders, opt_view,
};
use crate::classify::{FsDir, FsEntry, FsFile, EntryKind, kind_of, classify_entry, str_views};
use crate::episode::{EpisodePattern, sort_videos, stable_sorted_by, video_keys};

verus! {

/// Why a cover-image path could not be formed.
#[derive(Debug)]
pub enum PathNameError {
    /// The grandparent folder has no final component.
    SuperParent(String),
    /// The folder has no final component.
    Parent(String),
    /// The file has no final component.
    Video(String),
}

/// Where the cover image of a video is kept: under `frames` of the
/// application directory, in the grandparent folder's stem (if any), then the
/// folder's stem, named by the video's stem with its extension set to `jpg`.
pub open spec fn cover_path(
    super_parent: Option<Seq<char>>,
    parent: Seq<char>,
    vid: Seq<char>,
    app_dir: Seq<char>,
) -> Option<Seq<char>> {
    let base = join(app_dir, "frames"@);
    let sup_ok = match super_parent {
        Some(sp) => file_stem(sp) is Some,
        None => true,
    };
    if !sup_ok || file_stem(parent) is None || file_stem(vid) is None {
        None
    } else {
        let d1 = match super_parent {
            Some(sp) => join(base, file_stem(sp)->0),
            None => base,
        };
        let d2 = join(d1, file_stem(parent)->0);
        Some(join(d2, stem_of(file_stem(vid)->0) + "."@ + "jpg"@))
    }
}

/// Forms the cover-image path of a video (see `cover_path`).
pub fn join_cover_img_path(
    super_parent: Option<&str>,
    parent: &str,
    vid_path: &str,
    app_data_dir: &str,
) -> (r: Result<String, PathNameError>)
    ensures
        match r {
            Ok(s) => cover_path(
                match super_parent {
                    Some(sp) => Some(sp@),
                    None => None,
                },
                parent@,
                vid_path@,
                app_data_dir@,
            ) == Some(s@),
            Err(_) => cover_path(
                match super_parent {
                    Some(sp) => Some(sp@),
                    None => None,
                },
                parent@,
                vid_path@,
                app_data_dir@,
            ) is None,
        },
{
    let super_title = match super_parent {
        Some(sp) => match file_stem_of(sp) {
            Some(t) => Some(t),
            None => return Err(PathNameError::SuperParent(String::from_str(sp))),
        },
        None => None,
    };
    let parent_title = match file_stem_of(parent) {
        Some(t) => t,
        None => return Err(PathNameError::Parent(String::from_str(parent))),
    };
    let title = match file_stem_of(vid_path) {
        Some(t) => t,
        None => return Err(PathNameError::Video(String::from_str(vid_path))),
    };
    let mut dir = join_path(app_data_dir, "frames");
    match super_title {
        Some(t) => {
            dir = join_path(dir.as_str(), t.as_str());
        },
        None => {},
    }
    dir = join_path(dir.as_str(), parent_title.as_str());
    let name_stem = stem_of_text(&title);
    let name = name_stem.concat(".").concat("jpg");
    Ok(join_path(dir.as_str(), name.as_str()))
}

/// The text before the last `.` of a name (see `stem_of`).
pub fn stem_of_text(n: &String) -> (r: String)
    ensures
        r@ == stem_of(n@),
{
    let v = crate::text::chars_of(n.as_str());
    let mut i: usize = v.len();
    while i > 0 && v[i - 1] != '.'
        invariant
            i <= v.len(),
            forall|k: int| i <= k < v.len() ==> #[trigger] v@[k] != '.',
        decreases i,
    {
        i -= 1;
    }
    proof {
        crate::paths::lemma_last_dot(v@, i - 1);
    }
    if i <= 1 {
        n.clone()
    } else {
        let s = crate::text::sub_vec(&v, 0, i - 1);
        string_of(s.as_slice())
    }
}

/// The record of a video first found on disk.
pub open spec fn video_of(
    path: Seq<char>,
    metadata: Option<FileMetadata>,
    folder: Seq<char>,
    super_parent: Option<Seq<char>>,
    ctx: ScanContext,
) -> Option<VideoView> {
    match (file_name(path), cover_path(super_parent, folder, path, ctx.app_data_dir@)) {
        (Some(title), Some(cover)) => Some(
            VideoView {
                user_id: ctx.user_id@,
                main_folder_path: folder,
                path: path,
                title: title,
                cover_img_path: Some(cover),
                watched: false,
                duration: 0,
                position: 0,
                metadata: metadata,
                update_date: ctx.update_date@,
                update_time: ctx.update_time@,
            },
        ),
        _ => None,
    }
}

impl OsVideo {
    /// A video first found on disk: titled by its file name, not watched,
    /// with its cover-image path; fails when the path has no name or no
    /// cover-image path can be formed.
    pub fn new(
        ctx: &ScanContext,
        super_parent: Option<String>,
        main_folder_path: String,
        path: String,
        metadata: Option<FileMetadata>,
    ) -> (r: Result<OsVideo, PathNameError>)
        ensures
            match r {
                Ok(v) => video_of(path@, metadata, main_folder_path@, opt_view(super_parent), *ctx)
                    == Some(v@),
                Err(_) => video_of(
                    path@,
                    metadata,
                    main_folder_path@,
                    opt_view(super_parent),
                    *ctx,
                ) is None,
            },
    {
        let title = match file_name_of(path.as_str()) {
            Some(t) => t,
            None => return Err(PathNameError::Video(path)),
        };
        let sp: Option<&str> = match &super_parent {
            Some(s) => Some(s.as_str()),
            None => None,
        };
        let cover = join_cover_img_path(sp, main_folder_path.as_str(), path.as_str(), ctx.app_data_dir.as_str())?;
        Ok(OsVideo {
            user_id: ctx.user_id.clone(),
            main_folder_path,
            path,
            title,
            cover_img_path: Some(cover),
            watched: false,
            duration: 0,
            position: 0,
            metadata,
            update_date: ctx.update_date.clone(),
            update_time: ctx.update_time.clone(),
        })
    }
}

/// A folder's record with the records of every folder and video found beneath it.
pub type FolderGroup = (OsFolder, Vec<OsFolder>, Vec<OsVideo>);

pub type GroupView = (FolderView, Seq<FolderView>, Seq<VideoView>);

pub open spec fn group_view(g: FolderGroup) -> GroupView {
    (g.0@, views_of_folders(g.1@), views_of_videos(g.2@))
}

/// Why a directory could not be walked.
#[derive(Debug)]
pub enum ReadDirError {
    /// The directory could not be listed.
    Io(String),
    /// Nothing to catalog is left in the directory.
    NotFound(String),
    /// The directory holds the same folders and files as before.
    FullyHydrated(String),
    /// The directory's path has no final component.
    InvalidPathName(String),
}

#[derive(PartialEq, Eq, Structural)]
pub enum WalkFailure {
    Unreadable,
    Empty,
    Nameless,
    Unchanged,
}

impl ReadDirError {
    pub open spec fn failure(&self) -> WalkFailure {
        match self {
            ReadDirError::Io(_) => WalkFailure::Unreadable,
            ReadDirError::NotFound(_) => WalkFailure::Empty,
            ReadDirError::FullyHydrated(_) => WalkFailure::Unchanged,
            ReadDirError::InvalidPathName(_) => WalkFailure::Nameless,
        }
    }

    pub open spec fn path(&self) -> Seq<char> {
        match self {
            ReadDirError::Io(p) => p@,
            ReadDirError::NotFound(p) => p@,
            ReadDirError::FullyHydrated(p) => p@,
            ReadDirError::InvalidPathName(p) => p@,
        }
    }
}

pub open spec fn opt_paths(o: Option<Vec<String>>) -> Seq<Seq<char>> {
    match o {
        Some(v) => str_views(v@),
        None => Seq::empty(),
    }
}

/// The paths that a re-scan is limited to: none for a fresh scan.
pub open spec fn dir_filter(st: StaleEntries) -> Option<Seq<Seq<char>>> {
    match st {
        StaleEntries::Found { dirs, .. } => Some(opt_paths(dirs)),
        StaleEntries::NoChanges => None,
    }
}

pub open spec fn video_filter(st: StaleEntries) -> Option<Seq<Seq<char>>> {
    match st {
        StaleEntries::Found { videos, .. } => Some(opt_paths(videos)),
        StaleEntries::NoChanges => None,
    }
}

pub open spec fn passes(p: Seq<char>, f: Option<Seq<Seq<char>>>) -> bool {
    match f {
        Some(s) => s.contains(p),
        None => true,
    }
}

/// The media files of a listing that the filter keeps, in listing order.
pub open spec fn kept_files(es: Seq<FsEntry>, f: Option<Seq<Seq<char>>>) -> Seq<FsFile>
    decreases es.len(),
{
    if es.len() == 0 {
        Seq::empty()
    } else {
        let p = kept_files(es.drop_last(), f);
        match es.last() {
            FsEntry::File(x) => if kind_of(es.last()) == EntryKind::MediaFile && passes(x.path@, f) {
                p.push(x)
            } else {
                p
            },
            FsEntry::Dir(_) => p,
        }
    }
}

/// The child folders of a listing that the filter keeps, in listing order.
pub open spec fn kept_dirs(es: Seq<FsEntry>, f: Option<Seq<Seq<char>>>) -> Seq<Seq<char>>
    decreases es.len(),
{
    if es.len() == 0 {
        Seq::empty()
    } else {
        let p = kept_dirs(es.drop_last(), f);
        match es.last() {
            FsEntry::Dir(d) => if passes(d.path@, f) {
                p.push(d.path@)
            } else {
                p
            },
            FsEntry::File(_) => p,
        }
    }
}

/// The video records built from media files; a file whose record cannot be
/// formed is left out.
pub open spec fn built_videos(
    files: Seq<FsFile>,
    folder: Seq<char>,
    sup: Option<Seq<char>>,
    ctx: ScanContext,
) -> Seq<VideoView>
    decreases files.len(),
{
    if files.len() == 0 {
        Seq::empty()
    } else {
        let p = built_videos(files.drop_last(), folder, sup, ctx);
        match video_of(files.last().path@, files.last().metadata, folder, sup, ctx) {
            Some(v) => p.push(v),
            None => p,
        }
    }
}

/// Why walking `d` fails, if it does.
pub open spec fn walk_failure(d: FsDir, st: StaleEntries) -> Option<WalkFailure> {
    match d.entries {
        None => Some(WalkFailure::Unreadable),
        Some(es) => if kept_dirs(es@, dir_filter(st)).len() == 0 && kept_files(
            es@,
            video_filter(st),
        ).len() == 0 {
            Some(WalkFailure::Empty)
        } else if file_name(d.path@) is None {
            Some(WalkFailure::Nameless)
        } else {
            None
        },
    }
}

/// The folder records of child groups, each followed by its descendants.
pub open spec fn flat_folders(cg: Seq<GroupView>) -> Seq<FolderView>
    decreases cg.len(),
{
    if cg.len() == 0 {
        Seq::empty()
    } else {
        flat_folders(cg.drop_last()).push(cg.last().0) + cg.last().1
    }
}

/// The videos of child groups, in group order.
pub open spec fn flat_videos(cg: Seq<GroupView>) -> Seq<VideoView>
    decreases cg.len(),
{
    if cg.len() == 0 {
        Seq::empty()
    } else {
        flat_videos(cg.drop_last()) + cg.last().2
    }
}

/// The first cover image among the child groups' folders.
pub open spec fn first_cover(cg: Seq<GroupView>) -> Option<Seq<char>>
    decreases cg.len(),
{
    if cg.len() == 0 {
        None
    } else {
        let c = first_cover(cg.drop_last());
        if c is Some {
            c
        } else {
            cg.last().0.cover_img_path
        }
    }
}

/// The parent recorded for a walked folder.
pub open spec fn recorded_parent(d: FsDir, parent_path: Option<String>) -> Option<Seq<char>> {
    if parent_path is Some {
        parent_of(d.path@)
    } else {
        None
    }
}

/// A successful walk of `d`: its own videos come first, in episode order;
/// then the groups of the child folders that could be walked, in listing
/// order. The folder's last-watched candidate is its first video, and its
/// cover is that video's cover, or else the first cover among the child groups.
pub open spec fn walked(d: FsDir, st: StaleEntries, sup: Option<Seq<char>>, ctx: ScanContext, g: GroupView) -> bool {
    let es = d.entries->0@;
    let own_in = built_videos(kept_files(es, video_filter(st)), d.path@, sup, ctx);
    let m = own_in.len() as int;
    let own = g.2.subrange(0, m);
    &&& d.entries is Some
    &&& g.2.len() >= m
    &&& stable_sorted_by(own_in, own, video_keys(own_in))
    &&& exists|cg: Seq<GroupView>| #[trigger] children_of(g, cg, m, kept_dirs(es, dir_filter(st)))
    &&& g.0 == FolderView {
        user_id: ctx.user_id@,
        path: d.path@,
        title: file_name(d.path@)->0,
        parent_path: sup,
        last_watched_video: if m > 0 { Some(own[0]) } else { None },
        cover_img_path: if m > 0 { own[0].cover_img_path } else { g.0.cover_img_path },
        update_date: ctx.update_date@,
        update_time: ctx.update_time@,
    }
}

/// `g` holds after its own `m` videos exactly the groups `cg`, each the
/// group of one of the child folders `kd`, with its parent recorded.
pub open spec fn children_of(g: GroupView, cg: Seq<GroupView>, m: int, kd: Seq<Seq<char>>) -> bool {
    &&& cg.len() <= kd.len()
    &&& forall|q: int| 0 <= q < cg.len() ==> kd.contains(#[trigger] cg[q].0.path) && cg[q].0.parent_path == parent_of(cg[q].0.path)
    &&& g.1 == flat_folders(cg)
    &&& g.2.subrange(m, g.2.len() as int) == flat_videos(cg)
    &&& m == 0 ==> g.0.cover_img_path == first_cover(cg)
}

/// `c` is one of the child folders of `d` that the filter keeps.
pub open spec fn kept_child(d: FsDir, st: StaleEntries, c: FsDir) -> bool {
    exists|j: int|
        0 <= j < d.entries->0@.len() && #[trigger] d.entries->0@[j] == FsEntry::Dir(c) && passes(
            c.path@,
            dir_filter(st),
        )
}

/// A walk of `d` whose every folder, down to `n` levels below it, is walked
/// as `walked` says: each child group is the walk of a kept child folder.
pub open spec fn walked_deep(d: FsDir, st: StaleEntries, sup: Option<Seq<char>>, ctx: ScanContext, g: GroupView, n: nat) -> bool
    decreases n,
{
    &&& walked(d, st, sup, ctx, g)
    &&& n > 0 ==> exists|cg: Seq<GroupView>, cds: Seq<FsDir>|
        #[trigger] child_walks(d, st, sup, ctx, g, cg, cds) && forall|q: int|
            0 <= q < cg.len() ==> walked_deep(
                #[trigger] cds[q],
                StaleEntries::NoChanges,
                parent_of(cds[q].path@),
                ctx,
                cg[q],
                (n - 1) as nat,
            )
}

/// The child groups `cg` of `g` belong to the kept child folders `cds`.
pub open spec fn child_walks(d: FsDir, st: StaleEntries, sup: Option<Seq<char>>, ctx: ScanContext, g: GroupView, cg: Seq<GroupView>, cds: Seq<FsDir>) -> bool {
    let es = d.entries->0@;
    let m = built_videos(kept_files(es, video_filter(st)), d.path@, sup, ctx).len() as int;
    &&& children_of(g, cg, m, kept_dirs(es, dir_filter(st)))
    &&& cds.len() == cg.len()
    &&& forall|q: int| 0 <= q < cg.len() ==> kept_child(d, st, #[trigger] cds[q])
}

fn listed_in(p: &String, set: &Option<Vec<String>>) -> (r: bool)
    ensures
        r == opt_paths(*set).contains(p@),
{
    match set {
        None => false,
        Some(v) => {
            let mut i: usize = 0;
            while i < v.len()
                invariant
                    i <= v.len(),
                    *set == Some(*v),
                    forall|k: int| 0 <= k < i ==> str_views(v@)[k] != p@,
                decreases v.len() - i,
            {
                if v[i] == *p {
                    assert(str_views(v@)[i as int] == p@);
                    assert(opt_paths(*set) == str_views(v@));
                    assert(opt_paths(*set).contains(p@));
                    return true;
                }
                i += 1;
            }
            false
        },
    }
}

fn passes_dir(st: &StaleEntries, p: &String) -> (r: bool)
    ensures
        r == passes(p@, dir_filter(*st)),
{
    match st {
        StaleEntries::Found { dirs, .. } => listed_in(p, dirs),
        StaleEntries::NoChanges => true,
    }
}

fn passes_video(st: &StaleEntries, p: &String) -> (r: bool)
    ensures
        r == passes(p@, video_filter(*st)),
{
    match st {
        StaleEntries::Found { videos, .. } => listed_in(p, videos),
        StaleEntries::NoChanges => true,
    }
}

/// Walks a directory: lists it once, keeps (on a re-scan) only the child
/// folders and media files that `stale_entries` names, builds the videos and
/// sorts them by episode number, then walks every kept child folder in full,
/// leaving out those that cannot be walked.
pub fn read_os_folder_dir(
    pattern: &EpisodePattern,
    dir: &FsDir,
    ctx: &ScanContext,
    parent_path: Option<String>,
    stale_entries: &StaleEntries,
) -> (r: Result<FolderGroup, ReadDirError>)
    ensures
        match r {
            Err(e) => walk_failure(*dir, *stale_entries) == Some(e.failure()) && e.path()
                == dir.path@,
            Ok(g) => walk_failure(*dir, *stale_entries) is None && walked(
                *dir,
                *stale_entries,
                recorded_parent(*dir, parent_path),
                *ctx,
                group_view(g),
            ) && forall|n: nat|
                #[trigger] walked_deep(
                    *dir,
                    *stale_entries,
                    recorded_parent(*dir, parent_path),
                    *ctx,
                    group_view(g),
                    n,
                ),
        },
    decreases dir,
{
    let es = match &dir.entries {
        Some(es) => es,
        None => return Err(ReadDirError::Io(dir.path.clone())),
    };
    let sup: Option<String> = match parent_path {
        Some(_) => parent_path_of(dir.path.as_str()),
        None => None,
    };
    let ghost supv = recorded_parent(*dir, parent_path);
    assert(opt_view(sup) == supv);
    let ghost fd = dir_filter(*stale_entries);
    let ghost fv = video_filter(*stale_entries);
    let mut child_idx: Vec<usize> = Vec::new();
    let mut built: Vec<OsVideo> = Vec::new();
    let mut n_files: usize = 0;
    let mut i: usize = 0;
    while i < es.len()
        invariant
            i <= es.len(),
            dir.entries == Some(*es),
            opt_view(sup) == supv,
            fd == dir_filter(*stale_entries),
            fv == video_filter(*stale_entries),
            n_files as int == kept_files(es@.subrange(0, i as int), fv).len(),
            n_files <= i,
            child_idx@.len() == kept_dirs(es@.subrange(0, i as int), fd).len(),
            forall|k: int| 0 <= k < child_idx@.len() ==> #[trigger] child_idx@[k] < es@.len() && es@[child_idx@[k] as int] is Dir
                && crate::classify::entry_path(es@[child_idx@[k] as int]) == kept_dirs(es@.subrange(0, i as int), fd)[k]
                && passes(crate::classify::entry_path(es@[child_idx@[k] as int]), fd),
            views_of_videos(built@) == built_videos(kept_files(es@.subrange(0, i as int), fv), dir.path@, supv, *ctx),
        decreases es.len() - i,
    {
        let ghost pre = es@.subrange(0, i + 1);
        assert(pre.drop_last() =~= es@.subrange(0, i as int));
        assert(pre.last() == es@[i as int]);
        let kind = classify_entry(&es[i]);
        match &es[i] {
            FsEntry::Dir(d) => {
                if passes_dir(stale_entries, &d.path) {
                    child_idx.push(i);
                    assert(kept_dirs(pre, fd) == kept_dirs(es@.subrange(0, i as int), fd).push(d.path@));
                }
            },
            FsEntry::File(f) => {
                if kind == EntryKind::MediaFile && passes_video(stale_entries, &f.path) {
                    n_files += 1;
                    let ghost before = views_of_videos(built@);
                    proof {
                        let kp = kept_files(pre, fv);
                        assert(kp == kept_files(es@.subrange(0, i as int), fv).push(*f));
                        assert(kp.drop_last() =~= kept_files(es@.subrange(0, i as int), fv));
                        assert(kp.last() == *f);
                    }
                    match OsVideo::new(ctx, crate::model::copy_opt(&sup), dir.path.clone(), f.path.clone(), f.metadata) {
                        Ok(v) => {
                            built.push(v);
                            assert(views_of_videos(built@) =~= before.push(v@));
                        },
                        Err(_) => {},
                    }
                }
            },
        }
        i += 1;
    }
    assert(es@.subrange(0, es.len() as int) =~= es@);
    if child_idx.len() == 0 && n_files == 0 {
        return Err(ReadDirError::NotFound(dir.path.clone()));
    }
    let title = match file_name_of(dir.path.as_str()) {
        Some(t) => t,
        None => return Err(ReadDirError::InvalidPathName(dir.path.clone())),
    };
    let ghost own_in = views_of_videos(built@);
    let own = sort_videos(pattern, built);
    let m = own.len();
    let ghost own_v = views_of_videos(own@);
    let first_video = if m > 0 {
        Some(own[0].duplicate())
    } else {
        None
    };
    let mut cover: Option<String> = if m > 0 {
        crate::model::copy_opt(&own[0].cover_img_path)
    } else {
        None
    };
    let mut total_videos = own;
    let mut total_folders: Vec<OsFolder> = Vec::new();
    let ghost mut cg: Seq<GroupView> = Seq::empty();
    let ghost mut cds: Seq<FsDir> = Seq::empty();
    let mut k: usize = 0;
    assert(views_of_videos(total_videos@).subrange(0, m as int) =~= own_v);
    assert(views_of_videos(total_videos@).subrange(m as int, total_videos@.len() as int) =~= flat_videos(cg));
    while k < child_idx.len()
        invariant
            k <= child_idx.len(),
            dir.entries == Some(*es),
            forall|q: int| 0 <= q < child_idx@.len() ==> #[trigger] child_idx@[q] < es@.len() && es@[child_idx@[q] as int] is Dir
                && crate::classify::entry_path(es@[child_idx@[q] as int]) == kept_dirs(es@, fd)[q]
                && passes(crate::classify::entry_path(es@[child_idx@[q] as int]), fd),
            child_idx@.len() == kept_dirs(es@, fd).len(),
            cds.len() == cg.len(),
            forall|q: int| 0 <= q < cds.len() ==> kept_child(*dir, *stale_entries, #[trigger] cds[q]),
            forall|q: int, n: nat| 0 <= q < cds.len() ==> #[trigger] walked_deep(cds[q], StaleEntries::NoChanges, parent_of(cds[q].path@), *ctx, cg[q], n),
            fd == dir_filter(*stale_entries),
            cg.len() <= k,
            forall|q: int| 0 <= q < cg.len() ==> kept_dirs(es@, fd).contains(#[trigger] cg[q].0.path) && cg[q].0.parent_path == parent_of(cg[q].0.path),
            total_videos@.len() >= m,
            views_of_videos(total_videos@).subrange(0, m as int) == own_v,
            views_of_folders(total_folders@) == flat_folders(cg),
            views_of_videos(total_videos@).subrange(m as int, total_videos@.len() as int) == flat_videos(cg),
            m == 0 ==> opt_view(cover) == first_cover(cg),
            m > 0 ==> opt_view(cover) == own_v[0].cover_img_path,
        decreases child_idx.len() - k,
    {
        let j = child_idx[k];
        match &es[j] {
            FsEntry::Dir(c) => {
                proof {
                    assert(dir.entries->0 == *es);
                    assert(decreases_to!(*dir => dir.entries));
                    assert(decreases_to!(dir.entries => dir.entries->0));
                    assert(decreases_to!(*es => es@));
                    assert(decreases_to!(es@ => es@[j as int]));
                    assert(decreases_to!(es@[j as int] => es@[j as int]->Dir_0));
                    assert(decreases_to!(*dir => *c));
                }
                match read_os_folder_dir(pattern, c, ctx, Some(dir.path.clone()), &StaleEntries::NoChanges) {
                    Ok(g) => {
                        let ghost gv = group_view(g);
                        let (f, mut cf, mut cv) = g;
                        if m == 0 && cover.is_none() {
                            cover = crate::model::copy_opt(&f.cover_img_path);
                        }
                        let ghost tf = views_of_folders(total_folders@);
                        let ghost tv = views_of_videos(total_videos@);
                        total_folders.push(f);
                        total_folders.append(&mut cf);
                        total_videos.append(&mut cv);
                        proof {
                            assert(gv.0.path == c.path@);
                            assert(kept_dirs(es@, fd)[k as int] == c.path@);
                            assert(kept_dirs(es@, fd).contains(gv.0.path));
                            assert(gv.0.parent_path == parent_of(gv.0.path));
                            let ncg = cg.push(gv);
                            assert(ncg.drop_last() =~= cg);
                            assert(views_of_folders(total_folders@) =~= tf.push(gv.0) + gv.1);
                            assert(views_of_videos(total_videos@) =~= tv + gv.2);
                            assert(views_of_videos(total_videos@).subrange(0, m as int) =~= tv.subrange(0, m as int));
                            assert(views_of_videos(total_videos@).subrange(m as int, total_videos@.len() as int) =~= tv.subrange(m as int, tv.len() as int) + gv.2);
                            assert forall|q: int| 0 <= q < ncg.len() implies kept_dirs(es@, fd).contains(#[trigger] ncg[q].0.path) && ncg[q].0.parent_path == parent_of(ncg[q].0.path) by {
                                if q < cg.len() {
                                    assert(ncg[q] == cg[q]);
                                }
                            }
                            let ncds = cds.push(*c);
                            assert(es@[j as int] == FsEntry::Dir(*c));
                            assert(kept_child(*dir, *stale_entries, *c));
                            assert forall|q: int| 0 <= q < ncds.len() implies kept_child(*dir, *stale_entries, #[trigger] ncds[q]) by {
                                if q < cds.len() {
                                    assert(ncds[q] == cds[q]);
                                }
                            }
                            assert forall|q: int, n: nat| 0 <= q < ncds.len() implies #[trigger] walked_deep(ncds[q], StaleEntries::NoChanges, parent_of(ncds[q].path@), *ctx, ncg[q], n) by {
                                if q < cds.len() {
                                    assert(ncds[q] == cds[q] && ncg[q] == cg[q]);
                                } else {
                                    assert(walked_deep(*c, StaleEntries::NoChanges, recorded_parent(*c, Some(dir.path)), *ctx, gv, n));
                                }
                            }
                            cds = ncds;
                            cg = ncg;
                        }
                    },
                    Err(_) => {},
                }
            },
            FsEntry::File(_) => {},
        }
        k += 1;
    }
    let folder = OsFolder {
        user_id: ctx.user_id.clone(),
        path: dir.path.clone(),
        title,
        parent_path: sup,
        last_watched_video: first_video,
        cover_img_path: cover,
        update_date: ctx.update_date.clone(),
        update_time: ctx.update_time.clone(),
    };
    let g = (folder, total_folders, total_videos);
    proof {
        assert(children_of(group_view(g), cg, m as int, kept_dirs(es@, fd)));
        let gv = group_view(g);
        assert(walked(*dir, *stale_entries, supv, *ctx, gv));
        assert forall|n: nat| #[trigger] walked_deep(*dir, *stale_entries, supv, *ctx, gv, n) by {
            if n > 0 {
                assert forall|q: int| 0 <= q < cg.len() implies walked_deep(#[trigger] cds[q], StaleEntries::NoChanges, parent_of(cds[q].path@), *ctx, cg[q], (n - 1) as nat) by {
                }
                assert(child_walks(*dir, *stale_entries, supv, *ctx, gv, cg, cds));
            }
            assert(walked(*dir, *stale_entries, supv, *ctx, gv));
        }
    }
    Ok(g)
}

} // verus!
