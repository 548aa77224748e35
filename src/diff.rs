//! The diff engine: compares the stored snapshot of a folder with what is on
//! disk now and reports what vanished, what appeared and what changed.
use vstd::prelude::*;
use crate::model::{
    FileMetadata, OsVideo, OsFolder, VideoView, FolderView, StaleEntries, views_of_videos,
    views_of_folders,
};
use crate::classify::{FsDir, read_dir_helper, child_folder_paths, media_file_paths, str_views};
use crate::walk::ReadDirError;

verus! {

/// A lookup table from paths to indices.
#[verifier::external_body]
pub struct PathIndex {
    map: hashbrown::HashMap<String, usize>,
}

/// What a `PathIndex` holds.
pub uninterp spec fn index_contents(ix: PathIndex) -> Map<Seq<char>, usize>;

impl PathIndex {
    /// Relies on `hashbrown::HashMap::new`: an empty map.
    #[verifier::external_body]
    pub fn new() -> (r: PathIndex)
        ensures
            index_contents(r).dom().is_empty(),
    {
        PathIndex { map: hashbrown::HashMap::new() }
    }

    /// Relies on `hashbrown::HashMap::insert`: the key, compared by its
    /// characters, now maps to the value.
    #[verifier::external_body]
    pub fn insert(&mut self, k: String, v: usize)
        ensures
            index_contents(*final(self)) == index_contents(*old(self)).insert(k@, v),
    {
        self.map.insert(k, v);
    }

    /// Relies on `hashbrown::HashMap::get`: the value the key maps to, if any.
    #[verifier::external_body]
    pub fn get(&self, k: &str) -> (r: Option<usize>)
        ensures
            r == (if index_contents(*self).contains_key(k@) {
                Some(index_contents(*self)[k@])
            } else {
                None
            }),
    {
        self.map.get(k).copied()
    }
}

/// The metadata of a path as it stands on disk now, for each path asked
/// about; `None` where the path does not exist or cannot be read.
#[derive(Clone, Debug)]
pub struct DiskState {
    pub entries: Vec<(String, Option<FileMetadata>)>,
}

pub open spec fn probe_views(es: Seq<(String, Option<FileMetadata>)>) -> Seq<(Seq<char>, Option<FileMetadata>)> {
    es.map_values(|e: (String, Option<FileMetadata>)| (e.0@, e.1))
}

/// What `DiskState` says of a path: the first entry for it, and a path it
/// does not list counts as absent.
pub open spec fn live_meta(es: Seq<(Seq<char>, Option<FileMetadata>)>, p: Seq<char>) -> Option<FileMetadata>
    decreases es.len(),
{
    if es.len() == 0 {
        None
    } else if es[0].0 == p {
        es[0].1
    } else {
        live_meta(es.drop_first(), p)
    }
}

impl DiskState {
    pub open spec fn meta(&self, p: Seq<char>) -> Option<FileMetadata> {
        live_meta(probe_views(self.entries@), p)
    }

    /// The current metadata of a path.
    pub fn metadata_of(&self, p: &String) -> (r: Option<FileMetadata>)
        ensures
            r == self.meta(p@),
    {
        let ghost es = probe_views(self.entries@);
        let mut i: usize = 0;
        assert(es.subrange(0, es.len() as int) =~= es);
        while i < self.entries.len()
            invariant
                i <= self.entries.len(),
                es == probe_views(self.entries@),
                live_meta(es, p@) == live_meta(es.subrange(i as int, es.len() as int), p@),
            decreases self.entries.len() - i,
        {
            let ghost tail = es.subrange(i as int, es.len() as int);
            assert(tail[0] == es[i as int]);
            assert(tail.drop_first() =~= es.subrange(i + 1, es.len() as int));
            if self.entries[i].0 == *p {
                return self.entries[i].1;
            }
            i += 1;
        }
        assert(es.subrange(es.len() as int, es.len() as int).len() == 0);
        None
    }

    /// Whether a path exists on disk.
    pub fn path_exists(&self, p: &String) -> (r: bool)
        ensures
            r == self.meta(p@) is Some,
    {
        self.metadata_of(p).is_some()
    }
}

/// Stale metadata: none was stored, the file cannot be read now, or its size changed.
pub open spec fn stale_meta(stored: Option<FileMetadata>, live: Option<FileMetadata>) -> bool {
    match (stored, live) {
        (Some(s), Some(l)) => s.size != l.size,
        _ => true,
    }
}

impl OsVideo {
    /// Whether the stored metadata disagrees with the file's current metadata.
    pub fn is_stale_metadata(&self, live: Option<FileMetadata>) -> (r: bool)
        ensures
            r == stale_meta(self.metadata, live),
    {
        match (&self.metadata, &live) {
            (Some(s), Some(l)) => s.size != l.size,
            _ => true,
        }
    }
}

/// Paths in exactly one of the two sequences.
pub open spec fn sym_diff(a: Seq<Seq<char>>, b: Seq<Seq<char>>) -> Set<Seq<char>> {
    Set::new(|p: Seq<char>| a.contains(p) != b.contains(p))
}

/// `None` for an empty set, else the set without repetitions.
pub open spec fn reports(r: Option<Vec<String>>, s: Set<Seq<char>>) -> bool {
    match r {
        None => s.is_empty(),
        Some(v) => !s.is_empty() && str_views(v@).no_duplicates() && str_views(v@).to_set() == s,
    }
}

fn contains_path(v: &Vec<String>, p: &String) -> (r: bool)
    ensures
        r == str_views(v@).contains(p@),
{
    let mut i: usize = 0;
    while i < v.len()
        invariant
            i <= v.len(),
            forall|k: int| 0 <= k < i ==> str_views(v@)[k] != p@,
        decreases v.len() - i,
    {
        if v[i] == *p {
            assert(str_views(v@)[i as int] == p@);
            return true;
        }
        i += 1;
    }
    false
}

pub proof fn lemma_push_contains<A>(s: Seq<A>, x: A)
    ensures
        forall|p: A| #[trigger] s.push(x).contains(p) <==> (s.contains(p) || p == x),
{
    assert forall|p: A| #[trigger] s.push(x).contains(p) <==> (s.contains(p) || p == x) by {
        if s.push(x).contains(p) {
            let k = choose|k: int| 0 <= k < s.push(x).len() && #[trigger] s.push(x)[k] == p;
            if k < s.len() {
                assert(s[k] == p);
            }
        }
        if s.contains(p) {
            let k = choose|k: int| 0 <= k < s.len() && #[trigger] s[k] == p;
            assert(s.push(x)[k] == p);
        }
        if p == x {
            assert(s.push(x)[s.len() as int] == p);
        }
    }
}

/// Adds a path unless it is already there.
fn push_unique(v: &mut Vec<String>, p: String)
    requires
        str_views(old(v)@).no_duplicates(),
    ensures
        str_views(final(v)@).no_duplicates(),
        str_views(final(v)@).to_set() == str_views(old(v)@).to_set().insert(p@),
{
    if !contains_path(v, &p) {
        let ghost before = str_views(v@);
        v.push(p);
        proof {
            assert(str_views(v@) =~= before.push(p@));
            lemma_push_contains(before, p@);
            assert(str_views(v@).to_set() =~= before.to_set().insert(p@));
        }
    } else {
        proof {
            assert(str_views(v@).to_set() =~= str_views(v@).to_set().insert(p@));
        }
    }
}

/// The paths present in exactly one of the stored child-folder paths and the
/// current ones; `None` when there is no such path.
pub fn find_missing_paths(old: &Vec<String>, new: &Vec<String>) -> (r: Option<Vec<String>>)
    ensures
        reports(r, sym_diff(str_views(old@), str_views(new@))),
{
    let mut out: Vec<String> = Vec::new();
    let ghost a = str_views(old@);
    let ghost b = str_views(new@);
    let mut i: usize = 0;
    proof {
        assert(str_views(out@).to_set() =~= Set::<Seq<char>>::empty());
    }
    while i < old.len()
        invariant
            i <= old.len(),
            a == str_views(old@),
            b == str_views(new@),
            str_views(out@).no_duplicates(),
            str_views(out@).to_set() == Set::new(|p: Seq<char>| a.subrange(0, i as int).contains(p) && !b.contains(p)),
        decreases old.len() - i,
    {
        let ghost s0 = str_views(out@).to_set();
        if !contains_path(new, &old[i]) {
            push_unique(&mut out, old[i].clone());
        }
        proof {
            assert(a[i as int] == old@[i as int]@);
            assert(a.subrange(0, i + 1) =~= a.subrange(0, i as int).push(a[i as int]));
            lemma_push_contains(a.subrange(0, i as int), a[i as int]);
            assert(str_views(out@).to_set() =~= Set::new(|p: Seq<char>| a.subrange(0, i + 1).contains(p) && !b.contains(p)));
        }
        i += 1;
    }
    assert(a.subrange(0, old.len() as int) =~= a);
    let mut j: usize = 0;
    while j < new.len()
        invariant
            j <= new.len(),
            a == str_views(old@),
            b == str_views(new@),
            str_views(out@).no_duplicates(),
            str_views(out@).to_set() == Set::new(|p: Seq<char>| (a.contains(p) && !b.contains(p)) || (b.subrange(0, j as int).contains(p) && !a.contains(p))),
        decreases new.len() - j,
    {
        if !contains_path(old, &new[j]) {
            push_unique(&mut out, new[j].clone());
        }
        proof {
            assert(b[j as int] == new@[j as int]@);
            assert(b.subrange(0, j + 1) =~= b.subrange(0, j as int).push(b[j as int]));
            lemma_push_contains(b.subrange(0, j as int), b[j as int]);
            assert(str_views(out@).to_set() =~= Set::new(|p: Seq<char>| (a.contains(p) && !b.contains(p)) || (b.subrange(0, j + 1).contains(p) && !a.contains(p))));
        }
        j += 1;
    }
    assert(b.subrange(0, new.len() as int) =~= b);
    assert(str_views(out@).to_set() =~= sym_diff(a, b));
    if out.len() == 0 {
        proof {
            assert(str_views(out@).len() == 0);
            assert(str_views(out@).to_set() =~= Set::<Seq<char>>::empty());
        }
        None
    } else {
        proof {
            assert(str_views(out@)[0] == out@[0]@);
            assert(str_views(out@).to_set().contains(out@[0]@));
        }
        Some(out)
    }
}

/// Index of the last video with path `p`, or -1.
pub open spec fn last_index(old: Seq<VideoView>, p: Seq<char>) -> int
    decreases old.len(),
{
    if old.len() == 0 {
        -1
    } else if old.last().path == p {
        old.len() - 1
    } else {
        last_index(old.drop_last(), p)
    }
}

proof fn lemma_last_index_bound(old: Seq<VideoView>, p: Seq<char>)
    ensures
        -1 <= last_index(old, p) < old.len(),
        last_index(old, p) >= 0 ==> old[last_index(old, p)].path == p,
    decreases old.len(),
{
    if old.len() > 0 && old.last().path != p {
        lemma_last_index_bound(old.drop_last(), p);
    }
}

/// The video paths to re-catalog: each current file that is new or whose
/// stored record has stale metadata (the last record of a path counts), and
/// each stored path no longer among the current files.
pub open spec fn stale_video_set(old: Seq<VideoView>, new: Seq<Seq<char>>, disk: DiskState) -> Set<Seq<char>> {
    Set::new(
        |p: Seq<char>|
            (new.contains(p) && (last_index(old, p) < 0 || stale_meta(
                old[last_index(old, p)].metadata,
                disk.meta(p),
            ))) || (last_index(old, p) >= 0 && !new.contains(p)),
    )
}

/// The video paths whose record is new, stale or gone; `None` when there is none.
pub fn find_stale_metadata(old: &Vec<OsVideo>, new: &Vec<String>, disk: &DiskState) -> (r: Option<
    Vec<String>,
>)
    ensures
        reports(r, stale_video_set(views_of_videos(old@), str_views(new@), *disk)),
{
    let ghost ov = views_of_videos(old@);
    let ghost nv = str_views(new@);
    let mut ix = PathIndex::new();
    let mut i: usize = 0;
    while i < old.len()
        invariant
            i <= old.len(),
            ov == views_of_videos(old@),
            forall|p: Seq<char>| #[trigger] index_contents(ix).contains_key(p) <==> last_index(ov.subrange(0, i as int), p) >= 0,
            forall|p: Seq<char>| #[trigger] index_contents(ix).contains_key(p) ==> index_contents(ix)[p] as int == last_index(ov.subrange(0, i as int), p),
        decreases old.len() - i,
    {
        ix.insert(old[i].path.clone(), i);
        proof {
            let pre = ov.subrange(0, i + 1);
            assert(pre.drop_last() =~= ov.subrange(0, i as int));
            assert(pre.last() == ov[i as int]);
        }
        i += 1;
    }
    assert(ov.subrange(0, old.len() as int) =~= ov);
    let mut out: Vec<String> = Vec::new();
    let mut j: usize = 0;
    proof {
        assert(str_views(out@).to_set() =~= Set::<Seq<char>>::empty());
    }
    while j < new.len()
        invariant
            j <= new.len(),
            ov == views_of_videos(old@),
            nv == str_views(new@),
            forall|p: Seq<char>| #[trigger] index_contents(ix).contains_key(p) <==> last_index(ov, p) >= 0,
            forall|p: Seq<char>| #[trigger] index_contents(ix).contains_key(p) ==> index_contents(ix)[p] as int == last_index(ov, p),
            str_views(out@).no_duplicates(),
            str_views(out@).to_set() == Set::new(|p: Seq<char>| nv.subrange(0, j as int).contains(p) && (last_index(ov, p) < 0 || stale_meta(ov[last_index(ov, p)].metadata, disk.meta(p)))),
        decreases new.len() - j,
    {
        let p = &new[j];
        proof {
            lemma_last_index_bound(ov, p@);
        }
        let flag = match ix.get(p.as_str()) {
            Some(k) => old[k].is_stale_metadata(disk.metadata_of(p)),
            None => true,
        };
        if flag {
            push_unique(&mut out, p.clone());
        }
        proof {
            assert(nv[j as int] == p@);
            assert(nv.subrange(0, j + 1) =~= nv.subrange(0, j as int).push(nv[j as int]));
            lemma_push_contains(nv.subrange(0, j as int), nv[j as int]);
            assert(str_views(out@).to_set() =~= Set::new(|p: Seq<char>| nv.subrange(0, j + 1).contains(p) && (last_index(ov, p) < 0 || stale_meta(ov[last_index(ov, p)].metadata, disk.meta(p)))));
        }
        j += 1;
    }
    assert(nv.subrange(0, new.len() as int) =~= nv);
    let mut k: usize = 0;
    while k < old.len()
        invariant
            k <= old.len(),
            ov == views_of_videos(old@),
            nv == str_views(new@),
            str_views(out@).no_duplicates(),
            str_views(out@).to_set() == Set::new(|p: Seq<char>| (nv.contains(p) && (last_index(ov, p) < 0 || stale_meta(ov[last_index(ov, p)].metadata, disk.meta(p)))) || (last_index(ov.subrange(0, k as int), p) >= 0 && !nv.contains(p))),
        decreases old.len() - k,
    {
        if !contains_path(new, &old[k].path) {
            push_unique(&mut out, old[k].path.clone());
        }
        proof {
            let pre = ov.subrange(0, k + 1);
            assert(pre.drop_last() =~= ov.subrange(0, k as int));
            assert(pre.last() == ov[k as int]);
            assert(str_views(out@).to_set() =~= Set::new(|p: Seq<char>| (nv.contains(p) && (last_index(ov, p) < 0 || stale_meta(ov[last_index(ov, p)].metadata, disk.meta(p)))) || (last_index(ov.subrange(0, k + 1), p) >= 0 && !nv.contains(p))));
        }
        k += 1;
    }
    assert(ov.subrange(0, old.len() as int) =~= ov);
    assert(str_views(out@).to_set() =~= stale_video_set(ov, nv, *disk));
    if out.len() == 0 {
        assert(str_views(out@).to_set() =~= Set::<Seq<char>>::empty());
        None
    } else {
        assert(str_views(out@)[0] == out@[0]@);
        assert(str_views(out@).to_set().contains(out@[0]@));
        Some(out)
    }
}

/// The stored folders whose path is gone from disk.
pub open spec fn gone_folders(old: Seq<FolderView>, disk: DiskState) -> Seq<FolderView>
    decreases old.len(),
{
    if old.len() == 0 {
        Seq::empty()
    } else if disk.meta(old.last().path) is None {
        gone_folders(old.drop_last(), disk).push(old.last())
    } else {
        gone_folders(old.drop_last(), disk)
    }
}

/// The paths of the stored folders still on disk.
pub open spec fn present_folder_paths(old: Seq<FolderView>, disk: DiskState) -> Seq<Seq<char>>
    decreases old.len(),
{
    if old.len() == 0 {
        Seq::empty()
    } else if disk.meta(old.last().path) is Some {
        present_folder_paths(old.drop_last(), disk).push(old.last().path)
    } else {
        present_folder_paths(old.drop_last(), disk)
    }
}

/// The stored videos whose path is gone from disk.
pub open spec fn gone_videos(old: Seq<VideoView>, disk: DiskState) -> Seq<VideoView>
    decreases old.len(),
{
    if old.len() == 0 {
        Seq::empty()
    } else if disk.meta(old.last().path) is None {
        gone_videos(old.drop_last(), disk).push(old.last())
    } else {
        gone_videos(old.drop_last(), disk)
    }
}

/// The stored videos still on disk.
pub open spec fn present_videos(old: Seq<VideoView>, disk: DiskState) -> Seq<VideoView>
    decreases old.len(),
{
    if old.len() == 0 {
        Seq::empty()
    } else if disk.meta(old.last().path) is Some {
        present_videos(old.drop_last(), disk).push(old.last())
    } else {
        present_videos(old.drop_last(), disk)
    }
}

fn split_folders(old: &Vec<OsFolder>, disk: &DiskState) -> (r: (Vec<OsFolder>, Vec<String>))
    ensures
        views_of_folders(r.0@) == gone_folders(views_of_folders(old@), *disk),
        str_views(r.1@) == present_folder_paths(views_of_folders(old@), *disk),
{
    let ghost ov = views_of_folders(old@);
    let mut gone: Vec<OsFolder> = Vec::new();
    let mut here: Vec<String> = Vec::new();
    let mut i: usize = 0;
    while i < old.len()
        invariant
            i <= old.len(),
            ov == views_of_folders(old@),
            views_of_folders(gone@) == gone_folders(ov.subrange(0, i as int), *disk),
            str_views(here@) == present_folder_paths(ov.subrange(0, i as int), *disk),
        decreases old.len() - i,
    {
        let ghost pre = ov.subrange(0, i + 1);
        assert(pre.drop_last() =~= ov.subrange(0, i as int));
        assert(pre.last() == old@[i as int]@);
        let ghost g0 = views_of_folders(gone@);
        let ghost h0 = str_views(here@);
        if disk.path_exists(&old[i].path) {
            here.push(old[i].path.clone());
            assert(str_views(here@) =~= h0.push(old@[i as int].path@));
        } else {
            let f = old[i].duplicate();
            gone.push(f);
            assert(views_of_folders(gone@) =~= g0.push(old@[i as int]@));
        }
        i += 1;
    }
    assert(ov.subrange(0, old.len() as int) =~= ov);
    (gone, here)
}

fn split_videos(old: &Vec<OsVideo>, disk: &DiskState) -> (r: (Vec<OsVideo>, Vec<OsVideo>))
    ensures
        views_of_videos(r.0@) == gone_videos(views_of_videos(old@), *disk),
        views_of_videos(r.1@) == present_videos(views_of_videos(old@), *disk),
{
    let ghost ov = views_of_videos(old@);
    let mut gone: Vec<OsVideo> = Vec::new();
    let mut here: Vec<OsVideo> = Vec::new();
    let mut i: usize = 0;
    while i < old.len()
        invariant
            i <= old.len(),
            ov == views_of_videos(old@),
            views_of_videos(gone@) == gone_videos(ov.subrange(0, i as int), *disk),
            views_of_videos(here@) == present_videos(ov.subrange(0, i as int), *disk),
        decreases old.len() - i,
    {
        let ghost pre = ov.subrange(0, i + 1);
        assert(pre.drop_last() =~= ov.subrange(0, i as int));
        assert(pre.last() == old@[i as int]@);
        let ghost g0 = views_of_videos(gone@);
        let ghost h0 = views_of_videos(here@);
        let v = old[i].duplicate();
        if disk.path_exists(&old[i].path) {
            here.push(v);
            assert(views_of_videos(here@) =~= h0.push(old@[i as int]@));
        } else {
            gone.push(v);
            assert(views_of_videos(gone@) =~= g0.push(old@[i as int]@));
        }
        i += 1;
    }
    assert(ov.subrange(0, old.len() as int) =~= ov);
    (gone, here)
}

pub open spec fn opt_folder_views(o: Option<Vec<OsFolder>>) -> Seq<FolderView> {
    match o {
        Some(v) => views_of_folders(v@),
        None => Seq::empty(),
    }
}

pub open spec fn opt_video_views(o: Option<Vec<OsVideo>>) -> Seq<VideoView> {
    match o {
        Some(v) => views_of_videos(v@),
        None => Seq::empty(),
    }
}

/// A report of changes: the stale child-folder paths, the stale video paths,
/// and the folders and videos gone from disk.
pub open spec fn found(
    st: StaleEntries,
    dirs: Set<Seq<char>>,
    vids: Set<Seq<char>>,
    gd: Seq<FolderView>,
    gv: Seq<VideoView>,
) -> bool {
    match st {
        StaleEntries::Found { dirs: d, videos: v, deleted: del } => {
            &&& reports(d, dirs)
            &&& reports(v, vids)
            &&& match del {
                Some((df, dv)) => views_of_folders(df@) == gd && views_of_videos(dv@) == gv,
                None => false,
            }
        },
        StaleEntries::NoChanges => false,
    }
}

/// The outcome of comparing a snapshot with the directory's listing: no
/// snapshot means no differences; else the report of what changed, unless
/// nothing did.
pub open spec fn stale_entries_of(
    es: Seq<crate::classify::FsEntry>,
    old_dirs: Option<Vec<OsFolder>>,
    old_videos: Option<Vec<OsVideo>>,
    disk: DiskState,
    st: StaleEntries,
) -> bool {
    let od = opt_folder_views(old_dirs);
    let ov = opt_video_views(old_videos);
    if old_dirs is None && old_videos is None {
        st.is_nothing()
    } else if nothing_changed(es, od, ov, disk) {
        st.is_nothing()
    } else {
        found(st, dir_changes(es, od, disk), video_changes(es, ov, disk), gone_folders(od, disk), gone_videos(ov, disk))
    }
}

/// The child-folder paths that appeared or vanished.
pub open spec fn dir_changes(es: Seq<crate::classify::FsEntry>, od: Seq<FolderView>, disk: DiskState) -> Set<Seq<char>> {
    sym_diff(present_folder_paths(od, disk), child_folder_paths(es))
}

/// The video paths that are new, stale or gone.
pub open spec fn video_changes(es: Seq<crate::classify::FsEntry>, ov: Seq<VideoView>, disk: DiskState) -> Set<Seq<char>> {
    stale_video_set(present_videos(ov, disk), media_file_paths(es), disk)
}

/// Nothing differs between the snapshot and the disk.
pub open spec fn nothing_changed(
    es: Seq<crate::classify::FsEntry>,
    od: Seq<FolderView>,
    ov: Seq<VideoView>,
    disk: DiskState,
) -> bool {
    &&& dir_changes(es, od, disk).is_empty()
    &&& video_changes(es, ov, disk).is_empty()
    &&& gone_folders(od, disk).len() == 0
    &&& gone_videos(ov, disk).len() == 0
}

/// Compares the stored child folders and videos of a folder with its
/// current listing and with what is on disk.
pub fn find_stale_entries(
    listing: &FsDir,
    old_dirs: Option<Vec<OsFolder>>,
    old_videos: Option<Vec<OsVideo>>,
    disk: &DiskState,
) -> (r: Result<StaleEntries, ReadDirError>)
    ensures
        match r {
            Err(e) => listing.entries is None && e.failure() == crate::walk::WalkFailure::Unreadable
                && e.path() == listing.path@,
            Ok(st) => listing.entries is Some && stale_entries_of(
                listing.entries->0@,
                old_dirs,
                old_videos,
                *disk,
                st,
            ),
        },
{
    let es = match &listing.entries {
        Some(es) => es,
        None => return Err(ReadDirError::Io(listing.path.clone())),
    };
    let (new_dirs, new_videos) = read_dir_helper(es);
    if old_dirs.is_none() && old_videos.is_none() {
        return Ok(StaleEntries::NoChanges);
    }
    let od: Vec<OsFolder> = match old_dirs {
        Some(v) => v,
        None => Vec::new(),
    };
    let ov: Vec<OsVideo> = match old_videos {
        Some(v) => v,
        None => Vec::new(),
    };
    assert(views_of_folders(od@) == opt_folder_views(old_dirs)) by {
        if old_dirs is None {
            assert(views_of_folders(od@) =~= Seq::<FolderView>::empty());
        }
    }
    assert(views_of_videos(ov@) == opt_video_views(old_videos)) by {
        if old_videos is None {
            assert(views_of_videos(ov@) =~= Seq::<VideoView>::empty());
        }
    }
    let (deleted_dirs, present_dirs) = split_folders(&od, disk);
    let (deleted_videos, present_vids) = split_videos(&ov, disk);
    let dirs = find_missing_paths(&present_dirs, &new_dirs);
    let videos = find_stale_metadata(&present_vids, &new_videos, disk);
    if dirs.is_none() && videos.is_none() && deleted_dirs.len() == 0 && deleted_videos.len() == 0 {
        return Ok(StaleEntries::NoChanges);
    }
    Ok(StaleEntries::Found { dirs, videos, deleted: Some((deleted_dirs, deleted_videos)) })
}

} // verus!
