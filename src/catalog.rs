//! The catalog store: folders and videos keyed by path, users keyed by id,
//! with the reconciler's upserts and cascading deletions.
use vstd::prelude::*;
use crate::text::{chars_of, occurs_at_exec, starts_with};
use crate::paths::{join, join_path};
use crate::model::{
    OsVideo, OsFolder, User, Settings, MpvSettings, VideoView, FolderView, views_of_videos,
    views_of_folders, opt_video_view, copy_opt,
};

verus! {

/// A sort order that could not be read.
#[derive(Debug)]
pub enum SortTypeError {
    FromStr(String),
}

/// Errors of the catalog store.
#[derive(Debug)]
pub enum DatabaseError {
    UserNotFound(String),
    OsFoldersNotFound(String),
    OsVideosNotFound(String),
    IoError(String),
    SortType(SortTypeError),
}

/// The catalog: every folder and video record, and the users.
#[derive(Debug)]
pub struct Catalog {
    pub users: Vec<User>,
    pub folders: Vec<OsFolder>,
    pub videos: Vec<OsVideo>,
}

pub open spec fn folder_paths(fs: Seq<FolderView>) -> Seq<Seq<char>> {
    fs.map_values(|f: FolderView| f.path)
}

pub open spec fn video_paths(vs: Seq<VideoView>) -> Seq<Seq<char>> {
    vs.map_values(|v: VideoView| v.path)
}

impl Catalog {
    /// Paths are unique among folders and among videos.
    pub open spec fn wf(&self) -> bool {
        &&& folder_paths(views_of_folders(self.folders@)).no_duplicates()
        &&& video_paths(views_of_videos(self.videos@)).no_duplicates()
    }

    pub open spec fn folder_views(&self) -> Seq<FolderView> {
        views_of_folders(self.folders@)
    }

    pub open spec fn video_views(&self) -> Seq<VideoView> {
        views_of_videos(self.videos@)
    }

    /// An empty catalog.
    pub fn new() -> (r: Catalog)
        ensures
            r.wf(),
            r.users@.len() == 0,
            r.folders@.len() == 0,
            r.videos@.len() == 0,
    {
        let r = Catalog { users: Vec::new(), folders: Vec::new(), videos: Vec::new() };
        assert(folder_paths(views_of_folders(r.folders@)) =~= Seq::<Seq<char>>::empty());
        assert(video_paths(views_of_videos(r.videos@)) =~= Seq::<Seq<char>>::empty());
        r
    }
}

/// Index of the folder with path `p`, or -1.
pub open spec fn folder_index(fs: Seq<FolderView>, p: Seq<char>) -> int
    decreases fs.len(),
{
    if fs.len() == 0 {
        -1
    } else if fs.last().path == p {
        fs.len() - 1
    } else {
        folder_index(fs.drop_last(), p)
    }
}

/// Index of the video with path `p`, or -1.
pub open spec fn video_index(vs: Seq<VideoView>, p: Seq<char>) -> int
    decreases vs.len(),
{
    if vs.len() == 0 {
        -1
    } else if vs.last().path == p {
        vs.len() - 1
    } else {
        video_index(vs.drop_last(), p)
    }
}

proof fn lemma_folder_index(fs: Seq<FolderView>, p: Seq<char>)
    ensures
        -1 <= folder_index(fs, p) < fs.len(),
        folder_index(fs, p) >= 0 ==> fs[folder_index(fs, p)].path == p,
        folder_index(fs, p) < 0 ==> !folder_paths(fs).contains(p),
    decreases fs.len(),
{
    if fs.len() > 0 {
        lemma_folder_index(fs.drop_last(), p);
        if fs.last().path != p && folder_index(fs, p) < 0 {
            assert forall|k: int| 0 <= k < fs.len() implies folder_paths(fs)[k] != p by {
                if k < fs.len() - 1 {
                    assert(folder_paths(fs.drop_last())[k] == folder_paths(fs)[k]);
                }
            }
        }
    }
}

proof fn lemma_video_index(vs: Seq<VideoView>, p: Seq<char>)
    ensures
        -1 <= video_index(vs, p) < vs.len(),
        video_index(vs, p) >= 0 ==> vs[video_index(vs, p)].path == p,
        video_index(vs, p) < 0 ==> !video_paths(vs).contains(p),
    decreases vs.len(),
{
    if vs.len() > 0 {
        lemma_video_index(vs.drop_last(), p);
        if vs.last().path != p && video_index(vs, p) < 0 {
            assert forall|k: int| 0 <= k < vs.len() implies video_paths(vs)[k] != p by {
                if k < vs.len() - 1 {
                    assert(video_paths(vs.drop_last())[k] == video_paths(vs)[k]);
                }
            }
        }
    }
}

/// The store after writing one folder record: it replaces the record with the
/// same path, or is added.
pub open spec fn upsert_folder(fs: Seq<FolderView>, f: FolderView) -> Seq<FolderView> {
    let i = folder_index(fs, f.path);
    if i >= 0 {
        fs.update(i, f)
    } else {
        fs.push(f)
    }
}

pub open spec fn upsert_video(vs: Seq<VideoView>, v: VideoView) -> Seq<VideoView> {
    let i = video_index(vs, v.path);
    if i >= 0 {
        vs.update(i, v)
    } else {
        vs.push(v)
    }
}

/// A folder record with a new time stamp.
pub open spec fn stamped_folder(f: FolderView, date: Seq<char>, time: Seq<char>) -> FolderView {
    FolderView { update_date: date, update_time: time, ..f }
}

pub open spec fn stamped_video(v: VideoView, date: Seq<char>, time: Seq<char>) -> VideoView {
    VideoView { update_date: date, update_time: time, ..v }
}

/// The store after writing every record of `items`, in order, each stamped.
pub open spec fn upsert_folders(fs: Seq<FolderView>, items: Seq<FolderView>, date: Seq<char>, time: Seq<char>) -> Seq<FolderView>
    decreases items.len(),
{
    if items.len() == 0 {
        fs
    } else {
        upsert_folder(upsert_folders(fs, items.drop_last(), date, time), stamped_folder(items.last(), date, time))
    }
}

pub open spec fn upsert_videos(vs: Seq<VideoView>, items: Seq<VideoView>, date: Seq<char>, time: Seq<char>) -> Seq<VideoView>
    decreases items.len(),
{
    if items.len() == 0 {
        vs
    } else {
        upsert_video(upsert_videos(vs, items.drop_last(), date, time), stamped_video(items.last(), date, time))
    }
}

impl Catalog {
    pub fn find_folder(&self, p: &String) -> (r: Option<usize>)
        ensures
            match r {
                Some(i) => folder_index(self.folder_views(), p@) == i as int && i < self.folders@.len(),
                None => folder_index(self.folder_views(), p@) == -1,
            },
    {
        let ghost fs = self.folder_views();
        let mut i: usize = self.folders.len();
        assert(fs.subrange(0, fs.len() as int) =~= fs);
        while i > 0
            invariant
                i <= self.folders.len(),
                fs == self.folder_views(),
                folder_index(fs, p@) == folder_index(fs.subrange(0, i as int), p@),
            decreases i,
        {
            let ghost pre = fs.subrange(0, i as int);
            assert(pre.drop_last() =~= fs.subrange(0, i - 1));
            assert(pre.last() == self.folders@[i - 1]@);
            if self.folders[i - 1].path == *p {
                return Some(i - 1);
            }
            i -= 1;
        }
        None
    }

    fn find_video(&self, p: &String) -> (r: Option<usize>)
        ensures
            match r {
                Some(i) => video_index(self.video_views(), p@) == i as int && i < self.videos@.len(),
                None => video_index(self.video_views(), p@) == -1,
            },
    {
        let ghost vs = self.video_views();
        let mut i: usize = self.videos.len();
        assert(vs.subrange(0, vs.len() as int) =~= vs);
        while i > 0
            invariant
                i <= self.videos.len(),
                vs == self.video_views(),
                video_index(vs, p@) == video_index(vs.subrange(0, i as int), p@),
            decreases i,
        {
            let ghost pre = vs.subrange(0, i as int);
            assert(pre.drop_last() =~= vs.subrange(0, i - 1));
            assert(pre.last() == self.videos@[i - 1]@);
            if self.videos[i - 1].path == *p {
                return Some(i - 1);
            }
            i -= 1;
        }
        None
    }

    /// Writes one folder record, replacing the one with the same path.
    pub fn upsert_folder(&mut self, f: OsFolder)
        requires
            old(self).wf(),
        ensures
            final(self).wf(),
            final(self).folder_views() == upsert_folder(old(self).folder_views(), f@),
            final(self).videos == old(self).videos,
            final(self).users == old(self).users,
    {
        let ghost fs = self.folder_views();
        proof {
            lemma_folder_index(fs, f@.path);
        }
        match self.find_folder(&f.path) {
            Some(i) => {
                let ghost fv = f@;
                self.folders.set(i, f);
                assert(self.folder_views() =~= fs.update(i as int, fv));
                assert(folder_paths(self.folder_views()) =~= folder_paths(fs));
            },
            None => {
                let ghost fv = f@;
                self.folders.push(f);
                assert(self.folder_views() =~= fs.push(fv));
                assert(folder_paths(self.folder_views()) =~= folder_paths(fs).push(fv.path));
            },
        }
    }

    /// Writes one video record, replacing the one with the same path.
    pub fn upsert_video(&mut self, v: OsVideo)
        requires
            old(self).wf(),
        ensures
            final(self).wf(),
            final(self).video_views() == upsert_video(old(self).video_views(), v@),
            final(self).folders == old(self).folders,
            final(self).users == old(self).users,
    {
        let ghost vs = self.video_views();
        proof {
            lemma_video_index(vs, v@.path);
        }
        match self.find_video(&v.path) {
            Some(i) => {
                let ghost vv = v@;
                self.videos.set(i, v);
                assert(self.video_views() =~= vs.update(i as int, vv));
                assert(video_paths(self.video_views()) =~= video_paths(vs));
            },
            None => {
                let ghost vv = v@;
                self.videos.push(v);
                assert(self.video_views() =~= vs.push(vv));
                assert(video_paths(self.video_views()) =~= video_paths(vs).push(vv.path));
            },
        }
    }
}

/// Stamps every folder with the given date and time and writes it.
pub fn update_os_folders(catalog: &mut Catalog, os_folders: Vec<OsFolder>, date: &String, time: &String)
    requires
        old(catalog).wf(),
    ensures
        final(catalog).wf(),
        final(catalog).folder_views() == upsert_folders(old(catalog).folder_views(), views_of_folders(os_folders@), date@, time@),
        final(catalog).videos == old(catalog).videos,
        final(catalog).users == old(catalog).users,
{
    let ghost items = views_of_folders(os_folders@);
    let ghost start = catalog.folder_views();
    let mut i: usize = 0;
    while i < os_folders.len()
        invariant
            i <= os_folders.len(),
            items == views_of_folders(os_folders@),
            catalog.wf(),
            catalog.folder_views() == upsert_folders(start, items.subrange(0, i as int), date@, time@),
            catalog.videos == old(catalog).videos,
            catalog.users == old(catalog).users,
        decreases os_folders.len() - i,
    {
        let mut f = os_folders[i].duplicate();
        f.update_date = date.clone();
        f.update_time = time.clone();
        proof {
            let pre = items.subrange(0, i + 1);
            assert(pre.drop_last() =~= items.subrange(0, i as int));
            assert(f@ == stamped_folder(items[i as int], date@, time@));
        }
        catalog.upsert_folder(f);
        i += 1;
    }
    assert(items.subrange(0, os_folders.len() as int) =~= items);
}

/// Stamps every video with the given date and time and writes it.
pub fn update_os_videos(catalog: &mut Catalog, os_videos: Vec<OsVideo>, date: &String, time: &String)
    requires
        old(catalog).wf(),
    ensures
        final(catalog).wf(),
        final(catalog).video_views() == upsert_videos(old(catalog).video_views(), views_of_videos(os_videos@), date@, time@),
        final(catalog).folders == old(catalog).folders,
        final(catalog).users == old(catalog).users,
{
    let ghost items = views_of_videos(os_videos@);
    let ghost start = catalog.video_views();
    let mut i: usize = 0;
    while i < os_videos.len()
        invariant
            i <= os_videos.len(),
            items == views_of_videos(os_videos@),
            catalog.wf(),
            catalog.video_views() == upsert_videos(start, items.subrange(0, i as int), date@, time@),
            catalog.folders == old(catalog).folders,
            catalog.users == old(catalog).users,
        decreases os_videos.len() - i,
    {
        let mut v = os_videos[i].duplicate();
        v.update_date = date.clone();
        v.update_time = time.clone();
        proof {
            let pre = items.subrange(0, i + 1);
            assert(pre.drop_last() =~= items.subrange(0, i as int));
            assert(v@ == stamped_video(items[i as int], date@, time@));
        }
        catalog.upsert_video(v);
        i += 1;
    }
    assert(items.subrange(0, os_videos.len() as int) =~= items);
}

/// Whether `p` starts with one of `roots`.
pub open spec fn under_any(p: Seq<char>, roots: Seq<Seq<char>>) -> bool {
    exists|k: int| 0 <= k < roots.len() && starts_with(p, #[trigger] roots[k])
}

fn under_any_exec(p: &String, roots: &Vec<Vec<char>>) -> (r: bool)
    ensures
        r == under_any(p@, crate::text::views(roots@)),
{
    let pv = chars_of(p.as_str());
    let mut k: usize = 0;
    while k < roots.len()
        invariant
            k <= roots.len(),
            pv@ == p@,
            forall|j: int| 0 <= j < k ==> !starts_with(p@, #[trigger] crate::text::views(roots@)[j]),
        decreases roots.len() - k,
    {
        assert(crate::text::views(roots@)[k as int] == roots@[k as int]@);
        if occurs_at_exec(&pv, &roots[k], 0) {
            return true;
        }
        k += 1;
    }
    false
}

/// The last-watched reference with a removed video cleared.
pub open spec fn cleared(lw: Option<VideoView>, gone: Seq<Seq<char>>) -> Option<VideoView> {
    match lw {
        Some(v) => if gone.contains(v.path) {
            None
        } else {
            lw
        },
        None => None,
    }
}

pub open spec fn cleared_folder(f: FolderView, gone: Seq<Seq<char>>) -> FolderView {
    FolderView { last_watched_video: cleared(f.last_watched_video, gone), ..f }
}

/// `new` is `old` with its last-watched reference cleared if it names a removed video.
pub open spec fn user_cleared(old: User, new: User, gone: Seq<Seq<char>>) -> bool {
    &&& new.id == old.id
    &&& new.username == old.username
    &&& new.settings == old.settings
    &&& opt_video_view(new.last_watched_video) == cleared(opt_video_view(old.last_watched_video), gone)
}

pub open spec fn users_cleared(old: Seq<User>, new: Seq<User>, gone: Seq<Seq<char>>) -> bool {
    &&& new.len() == old.len()
    &&& forall|i: int| 0 <= i < old.len() ==> user_cleared(#[trigger] old[i], new[i], gone)
}

impl MpvSettings {
    pub fn duplicate(&self) -> (r: Self)
        ensures
            r == *self,
    {
        MpvSettings {
            exe_path: copy_opt(&self.exe_path),
            config_path: copy_opt(&self.config_path),
            plugins_path: copy_opt(&self.plugins_path),
            autoplay: self.autoplay,
        }
    }
}

impl Settings {
    pub fn duplicate(&self) -> (r: Self)
        ensures
            r == *self,
    {
        Settings {
            user_id: self.user_id.clone(),
            mpv_settings: self.mpv_settings.duplicate(),
            update_date: self.update_date.clone(),
            update_time: self.update_time.clone(),
        }
    }
}

fn contains_str(v: &Vec<String>, p: &String) -> (r: bool)
    ensures
        r == crate::classify::str_views(v@).contains(p@),
{
    let mut i: usize = 0;
    while i < v.len()
        invariant
            i <= v.len(),
            forall|k: int| 0 <= k < i ==> crate::classify::str_views(v@)[k] != p@,
        decreases v.len() - i,
    {
        if v[i] == *p {
            assert(crate::classify::str_views(v@)[i as int] == p@);
            return true;
        }
        i += 1;
    }
    false
}

fn clear_ref(lw: &Option<OsVideo>, gone: &Vec<String>) -> (r: Option<OsVideo>)
    ensures
        opt_video_view(r) == cleared(opt_video_view(*lw), crate::classify::str_views(gone@)),
{
    match lw {
        Some(v) => if contains_str(gone, &v.path) {
            None
        } else {
            Some(v.duplicate())
        },
        None => None,
    }
}

fn clear_user_refs(users: &Vec<User>, gone: &Vec<String>) -> (r: Vec<User>)
    ensures
        users_cleared(users@, r@, crate::classify::str_views(gone@)),
{
    let mut out: Vec<User> = Vec::new();
    let mut i: usize = 0;
    while i < users.len()
        invariant
            i <= users.len(),
            out@.len() == i,
            forall|k: int| 0 <= k < i ==> user_cleared(#[trigger] users@[k], out@[k], crate::classify::str_views(gone@)),
        decreases users.len() - i,
    {
        let u = &users[i];
        out.push(User {
            id: u.id.clone(),
            username: u.username.clone(),
            settings: u.settings.duplicate(),
            last_watched_video: clear_ref(&u.last_watched_video, gone),
        });
        i += 1;
    }
    out
}

/// Folders that survive deleting `roots`: not a root, and not listed under one.
pub open spec fn surviving_folders(fs: Seq<FolderView>, roots: Seq<Seq<char>>) -> Seq<FolderView>
    decreases fs.len(),
{
    if fs.len() == 0 {
        Seq::empty()
    } else {
        let p = surviving_folders(fs.drop_last(), roots);
        let f = fs.last();
        if roots.contains(f.path) || (f.parent_path is Some && under_any(f.parent_path->0, roots)) {
            p
        } else {
            p.push(f)
        }
    }
}

/// Videos whose path is a root or whose folder path lies under a root.
pub open spec fn removed_videos(vs: Seq<VideoView>, roots: Seq<Seq<char>>, by_path: bool) -> Seq<VideoView>
    decreases vs.len(),
{
    if vs.len() == 0 {
        Seq::empty()
    } else {
        let p = removed_videos(vs.drop_last(), roots, by_path);
        let v = vs.last();
        if (by_path && roots.contains(v.path)) || under_any(v.main_folder_path, roots) {
            p.push(v)
        } else {
            p
        }
    }
}

pub open spec fn surviving_videos(vs: Seq<VideoView>, roots: Seq<Seq<char>>, by_path: bool) -> Seq<VideoView>
    decreases vs.len(),
{
    if vs.len() == 0 {
        Seq::empty()
    } else {
        let p = surviving_videos(vs.drop_last(), roots, by_path);
        let v = vs.last();
        if (by_path && roots.contains(v.path)) || under_any(v.main_folder_path, roots) {
            p
        } else {
            p.push(v)
        }
    }
}

/// The cover-image paths that a list of videos holds, in order.
pub open spec fn covers(vs: Seq<VideoView>) -> Seq<Seq<char>>
    decreases vs.len(),
{
    if vs.len() == 0 {
        Seq::empty()
    } else {
        match vs.last().cover_img_path {
            Some(c) => covers(vs.drop_last()).push(c),
            None => covers(vs.drop_last()),
        }
    }
}

proof fn lemma_surviving_folders_unique(fs: Seq<FolderView>, roots: Seq<Seq<char>>)
    requires
        folder_paths(fs).no_duplicates(),
    ensures
        folder_paths(surviving_folders(fs, roots)).no_duplicates(),
        forall|p: Seq<char>| folder_paths(surviving_folders(fs, roots)).contains(p) ==> folder_paths(fs).contains(p),
    decreases fs.len(),
{
    if fs.len() > 0 {
        assert(folder_paths(fs.drop_last()) =~= folder_paths(fs).drop_last());
        lemma_surviving_folders_unique(fs.drop_last(), roots);
        let p = surviving_folders(fs.drop_last(), roots);
        assert forall|q: Seq<char>| folder_paths(fs.drop_last()).contains(q) implies folder_paths(fs).contains(q) by {
            let k = choose|k: int| 0 <= k < folder_paths(fs.drop_last()).len() && folder_paths(fs.drop_last())[k] == q;
            assert(folder_paths(fs)[k] == q);
        }
        assert(!folder_paths(fs.drop_last()).contains(fs.last().path)) by {
            if folder_paths(fs.drop_last()).contains(fs.last().path) {
                let k = choose|k: int| 0 <= k < folder_paths(fs.drop_last()).len() && folder_paths(fs.drop_last())[k] == fs.last().path;
                assert(folder_paths(fs)[k] == folder_paths(fs)[fs.len() - 1]);
            }
        }
        assert(folder_paths(p.push(fs.last())) =~= folder_paths(p).push(fs.last().path));
        crate::diff::lemma_push_contains(folder_paths(p), fs.last().path);
        assert(folder_paths(fs)[fs.len() - 1] == fs.last().path);
        assert forall|q: Seq<char>| folder_paths(surviving_folders(fs, roots)).contains(q) implies folder_paths(fs).contains(q) by {
            if folder_paths(surviving_folders(fs, roots)).contains(q) && q != fs.last().path {
                assert(folder_paths(p).contains(q));
            }
        }
    }
}

proof fn lemma_surviving_videos_unique(vs: Seq<VideoView>, roots: Seq<Seq<char>>, by_path: bool)
    requires
        video_paths(vs).no_duplicates(),
    ensures
        video_paths(surviving_videos(vs, roots, by_path)).no_duplicates(),
        forall|p: Seq<char>| video_paths(surviving_videos(vs, roots, by_path)).contains(p) ==> video_paths(vs).contains(p),
    decreases vs.len(),
{
    if vs.len() > 0 {
        assert(video_paths(vs.drop_last()) =~= video_paths(vs).drop_last());
        lemma_surviving_videos_unique(vs.drop_last(), roots, by_path);
        let p = surviving_videos(vs.drop_last(), roots, by_path);
        assert forall|q: Seq<char>| video_paths(vs.drop_last()).contains(q) implies video_paths(vs).contains(q) by {
            let k = choose|k: int| 0 <= k < video_paths(vs.drop_last()).len() && video_paths(vs.drop_last())[k] == q;
            assert(video_paths(vs)[k] == q);
        }
        assert(!video_paths(vs.drop_last()).contains(vs.last().path)) by {
            if video_paths(vs.drop_last()).contains(vs.last().path) {
                let k = choose|k: int| 0 <= k < video_paths(vs.drop_last()).len() && video_paths(vs.drop_last())[k] == vs.last().path;
                assert(video_paths(vs)[k] == video_paths(vs)[vs.len() - 1]);
            }
        }
        assert(video_paths(p.push(vs.last())) =~= video_paths(p).push(vs.last().path));
        crate::diff::lemma_push_contains(video_paths(p), vs.last().path);
        assert(video_paths(vs)[vs.len() - 1] == vs.last().path);
        assert forall|q: Seq<char>| video_paths(surviving_videos(vs, roots, by_path)).contains(q) implies video_paths(vs).contains(q) by {
            if video_paths(surviving_videos(vs, roots, by_path)).contains(q) && q != vs.last().path {
                assert(video_paths(p).contains(q));
            }
        }
    }
}

/// Splits the catalog's videos into those removed and those kept.
fn partition_videos(vs: &Vec<OsVideo>, roots: &Vec<Vec<char>>, by_path: &Vec<String>, use_path: bool) -> (r: (Vec<OsVideo>, Vec<OsVideo>))
    requires
        use_path ==> crate::classify::str_views(by_path@) == crate::text::views(roots@),
    ensures
        views_of_videos(r.0@) == removed_videos(views_of_videos(vs@), crate::text::views(roots@), use_path),
        views_of_videos(r.1@) == surviving_videos(views_of_videos(vs@), crate::text::views(roots@), use_path),
{
    let ghost all = views_of_videos(vs@);
    let ghost rs = crate::text::views(roots@);
    let mut gone: Vec<OsVideo> = Vec::new();
    let mut kept: Vec<OsVideo> = Vec::new();
    let mut i: usize = 0;
    while i < vs.len()
        invariant
            i <= vs.len(),
            all == views_of_videos(vs@),
            rs == crate::text::views(roots@),
            use_path ==> crate::classify::str_views(by_path@) == rs,
            views_of_videos(gone@) == removed_videos(all.subrange(0, i as int), rs, use_path),
            views_of_videos(kept@) == surviving_videos(all.subrange(0, i as int), rs, use_path),
        decreases vs.len() - i,
    {
        let ghost pre = all.subrange(0, i + 1);
        assert(pre.drop_last() =~= all.subrange(0, i as int));
        assert(pre.last() == vs@[i as int]@);
        let v = &vs[i];
        let hit = (use_path && contains_str(by_path, &v.path)) || under_any_exec(&v.main_folder_path, roots);
        let ghost g0 = views_of_videos(gone@);
        let ghost k0 = views_of_videos(kept@);
        if hit {
            gone.push(v.duplicate());
            assert(views_of_videos(gone@) =~= g0.push(vs@[i as int]@));
        } else {
            kept.push(v.duplicate());
            assert(views_of_videos(kept@) =~= k0.push(vs@[i as int]@));
        }
        i += 1;
    }
    assert(all.subrange(0, vs.len() as int) =~= all);
    (gone, kept)
}

fn cover_paths(vs: &Vec<OsVideo>) -> (r: Vec<String>)
    ensures
        crate::classify::str_views(r@) == covers(views_of_videos(vs@)),
{
    let ghost all = views_of_videos(vs@);
    let mut out: Vec<String> = Vec::new();
    let mut i: usize = 0;
    while i < vs.len()
        invariant
            i <= vs.len(),
            all == views_of_videos(vs@),
            crate::classify::str_views(out@) == covers(all.subrange(0, i as int)),
        decreases vs.len() - i,
    {
        let ghost pre = all.subrange(0, i + 1);
        assert(pre.drop_last() =~= all.subrange(0, i as int));
        assert(pre.last() == vs@[i as int]@);
        let ghost o0 = crate::classify::str_views(out@);
        match &vs[i].cover_img_path {
            Some(c) => {
                out.push(c.clone());
                assert(crate::classify::str_views(out@) =~= o0.push(c@));
            },
            None => {},
        }
        i += 1;
    }
    assert(all.subrange(0, vs.len() as int) =~= all);
    out
}

fn video_path_list(vs: &Vec<OsVideo>) -> (r: Vec<String>)
    ensures
        crate::classify::str_views(r@) == video_paths(views_of_videos(vs@)),
{
    let mut out: Vec<String> = Vec::new();
    let mut i: usize = 0;
    while i < vs.len()
        invariant
            i <= vs.len(),
            crate::classify::str_views(out@) == video_paths(views_of_videos(vs@)).subrange(0, i as int),
        decreases vs.len() - i,
    {
        let ghost o0 = crate::classify::str_views(out@);
        out.push(vs[i].path.clone());
        assert(crate::classify::str_views(out@) =~= o0.push(vs@[i as int].path@));
        assert(crate::classify::str_views(out@) =~= video_paths(views_of_videos(vs@)).subrange(0, i + 1));
        i += 1;
    }
    assert(video_paths(views_of_videos(vs@)).subrange(0, vs.len() as int) =~= video_paths(views_of_videos(vs@)));
    out
}

impl Catalog {
    /// Keeps the given folders and videos, clears every last-watched
    /// reference that names a removed video, and replaces the store.
    fn replace_and_clear(&mut self, folders: Vec<OsFolder>, videos: Vec<OsVideo>, gone: &Vec<String>)
        requires
            folder_paths(views_of_folders(folders@)).no_duplicates(),
            video_paths(views_of_videos(videos@)).no_duplicates(),
        ensures
            final(self).wf(),
            final(self).folder_views() == views_of_folders(folders@).map_values(|f: FolderView| cleared_folder(f, crate::classify::str_views(gone@))),
            final(self).video_views() == views_of_videos(videos@),
            users_cleared(old(self).users@, final(self).users@, crate::classify::str_views(gone@)),
    {
        let ghost g = crate::classify::str_views(gone@);
        let mut fs: Vec<OsFolder> = Vec::new();
        let mut i: usize = 0;
        while i < folders.len()
            invariant
                i <= folders.len(),
                g == crate::classify::str_views(gone@),
                views_of_folders(fs@) == views_of_folders(folders@).subrange(0, i as int).map_values(|f: FolderView| cleared_folder(f, g)),
            decreases folders.len() - i,
        {
            let mut f = folders[i].duplicate();
            f.last_watched_video = clear_ref(&folders[i].last_watched_video, gone);
            let ghost f0 = views_of_folders(fs@);
            fs.push(f);
            assert(views_of_folders(fs@) =~= f0.push(cleared_folder(folders@[i as int]@, g)));
            assert(views_of_folders(fs@) =~= views_of_folders(folders@).subrange(0, i + 1).map_values(|f: FolderView| cleared_folder(f, g)));
            i += 1;
        }
        assert(views_of_folders(folders@).subrange(0, folders.len() as int) =~= views_of_folders(folders@));
        assert(folder_paths(views_of_folders(fs@)) =~= folder_paths(views_of_folders(folders@)));
        let users = clear_user_refs(&self.users, gone);
        self.users = users;
        self.folders = fs;
        self.videos = videos;
    }
}

/// `new` is `old` after deleting the folders `roots`: each root, every folder
/// whose parent path starts with a root, and every video whose folder path
/// starts with a root; last-watched references to removed videos are cleared.
pub open spec fn folders_deleted(old: Catalog, new: Catalog, roots: Seq<Seq<char>>) -> bool {
    let gone = video_paths(removed_videos(old.video_views(), roots, false));
    &&& new.wf()
    &&& new.folder_views() == surviving_folders(old.folder_views(), roots).map_values(
        |f: FolderView| cleared_folder(f, gone),
    )
    &&& new.video_views() == surviving_videos(old.video_views(), roots, false)
    &&& users_cleared(old.users@, new.users@, gone)
}

/// `new` is `old` after deleting the videos `roots`: each of them and every
/// video whose folder path starts with one; last-watched references to
/// removed videos are cleared.
pub open spec fn videos_deleted(old: Catalog, new: Catalog, roots: Seq<Seq<char>>) -> bool {
    let gone = video_paths(removed_videos(old.video_views(), roots, true));
    &&& new.wf()
    &&& new.folder_views() == old.folder_views().map_values(|f: FolderView| cleared_folder(f, gone))
    &&& new.video_views() == surviving_videos(old.video_views(), roots, true)
    &&& users_cleared(old.users@, new.users@, gone)
}

/// The frames directory of a folder, under the application directory.
pub open spec fn frames_dir(app_dir: Seq<char>, title: Seq<char>) -> Seq<char> {
    join(join(app_dir, "frames"@), title)
}

pub open spec fn frames_dirs(app_dir: Seq<char>, fs: Seq<FolderView>) -> Seq<Seq<char>> {
    fs.map_values(|f: FolderView| frames_dir(app_dir, f.title))
}

/// Deletes folders in one step: each folder, every folder whose parent path
/// starts with its path, and every video whose folder path starts with its
/// path; last-watched references to removed videos are cleared. Returns the
/// frames directories of the deleted folders, for removal from disk.
pub fn delete_os_folders(catalog: &mut Catalog, os_folders: Vec<OsFolder>, app_data_dir: &String) -> (r: Vec<String>)
    requires
        old(catalog).wf(),
    ensures
        folders_deleted(*old(catalog), *final(catalog), folder_paths(views_of_folders(os_folders@))),
        crate::classify::str_views(r@) == frames_dirs(app_data_dir@, views_of_folders(os_folders@)),
{
    let ghost fsv = views_of_folders(os_folders@);
    let mut roots: Vec<Vec<char>> = Vec::new();
    let mut dirs: Vec<String> = Vec::new();
    let frames = join_path(app_data_dir.as_str(), "frames");
    let mut i: usize = 0;
    while i < os_folders.len()
        invariant
            i <= os_folders.len(),
            fsv == views_of_folders(os_folders@),
            frames@ == join(app_data_dir@, "frames"@),
            crate::text::views(roots@) == folder_paths(fsv).subrange(0, i as int),
            crate::classify::str_views(dirs@) == frames_dirs(app_data_dir@, fsv).subrange(0, i as int),
        decreases os_folders.len() - i,
    {
        let ghost r0 = crate::text::views(roots@);
        let ghost d0 = crate::classify::str_views(dirs@);
        roots.push(chars_of(os_folders[i].path.as_str()));
        dirs.push(join_path(frames.as_str(), os_folders[i].title.as_str()));
        assert(crate::text::views(roots@) =~= r0.push(os_folders@[i as int].path@));
        assert(crate::classify::str_views(dirs@) =~= d0.push(join(join(app_data_dir@, "frames"@), os_folders@[i as int].title@)));
        assert(crate::text::views(roots@) =~= folder_paths(fsv).subrange(0, i + 1));
        assert(crate::classify::str_views(dirs@) =~= frames_dirs(app_data_dir@, fsv).subrange(0, i + 1));
        i += 1;
    }
    assert(folder_paths(fsv).subrange(0, os_folders.len() as int) =~= folder_paths(fsv));
    assert(frames_dirs(app_data_dir@, fsv).subrange(0, os_folders.len() as int) =~= frames_dirs(app_data_dir@, fsv));
    let ghost rs = crate::text::views(roots@);
    let ghost ofv = catalog.folder_views();
    let mut kept_folders: Vec<OsFolder> = Vec::new();
    let mut j: usize = 0;
    while j < catalog.folders.len()
        invariant
            j <= catalog.folders.len(),
            ofv == catalog.folder_views(),
            rs == crate::text::views(roots@),
            views_of_folders(kept_folders@) == surviving_folders(ofv.subrange(0, j as int), rs),
        decreases catalog.folders.len() - j,
    {
        let ghost pre = ofv.subrange(0, j + 1);
        assert(pre.drop_last() =~= ofv.subrange(0, j as int));
        assert(pre.last() == catalog.folders@[j as int]@);
        let f = &catalog.folders[j];
        let is_root = {
            let fp = chars_of(f.path.as_str());
            let mut found = false;
            let mut k: usize = 0;
            while k < roots.len()
                invariant
                    k <= roots.len(),
                    fp@ == f.path@,
                    rs == crate::text::views(roots@),
                    found == rs.subrange(0, k as int).contains(f.path@),
                decreases roots.len() - k,
            {
                proof {
                    assert(rs.subrange(0, k + 1) =~= rs.subrange(0, k as int).push(rs[k as int]));
                    crate::diff::lemma_push_contains(rs.subrange(0, k as int), rs[k as int]);
                    assert(rs[k as int] == roots@[k as int]@);
                }
                let same = roots[k].len() == fp.len() && occurs_at_exec(&fp, &roots[k], 0);
                proof {
                    if same {
                        assert(fp@.subrange(0, fp@.len() as int) =~= fp@);
                    }
                    if roots@[k as int]@ == fp@ {
                        assert(fp@.subrange(0, fp@.len() as int) =~= fp@);
                    }
                }
                found = found || same;
                k += 1;
            }
            assert(rs.subrange(0, roots.len() as int) =~= rs);
            found
        };
        let under = match &f.parent_path {
            Some(pp) => under_any_exec(pp, &roots),
            None => false,
        };
        let ghost k0 = views_of_folders(kept_folders@);
        if !(is_root || under) {
            kept_folders.push(f.duplicate());
            assert(views_of_folders(kept_folders@) =~= k0.push(catalog.folders@[j as int]@));
        }
        j += 1;
    }
    assert(ofv.subrange(0, catalog.folders.len() as int) =~= ofv);
    let no_paths: Vec<String> = Vec::new();
    let (gone_vids, kept_vids) = partition_videos(&catalog.videos, &roots, &no_paths, false);
    let gone = video_path_list(&gone_vids);
    proof {
        lemma_surviving_folders_unique(ofv, rs);
        lemma_surviving_videos_unique(catalog.video_views(), rs, false);
    }
    catalog.replace_and_clear(kept_folders, kept_vids, &gone);
    dirs
}

/// Deletes videos in one step: each video, and every video whose folder
/// path starts with its path; last-watched references to removed videos are
/// cleared. Returns the cover images of the given and the removed videos, for
/// removal from disk.
pub fn delete_os_videos(catalog: &mut Catalog, os_videos: Vec<OsVideo>) -> (r: Vec<String>)
    requires
        old(catalog).wf(),
    ensures
        videos_deleted(*old(catalog), *final(catalog), video_paths(views_of_videos(os_videos@))),
        crate::classify::str_views(r@) == covers(views_of_videos(os_videos@)) + covers(
            removed_videos(old(catalog).video_views(), video_paths(views_of_videos(os_videos@)), true),
        ),
{
    let given = video_path_list(&os_videos);
    let mut roots: Vec<Vec<char>> = Vec::new();
    let mut i: usize = 0;
    while i < given.len()
        invariant
            i <= given.len(),
            crate::text::views(roots@) == crate::classify::str_views(given@).subrange(0, i as int),
        decreases given.len() - i,
    {
        let ghost r0 = crate::text::views(roots@);
        roots.push(chars_of(given[i].as_str()));
        assert(crate::text::views(roots@) =~= r0.push(given@[i as int]@));
        assert(crate::text::views(roots@) =~= crate::classify::str_views(given@).subrange(0, i + 1));
        i += 1;
    }
    assert(crate::classify::str_views(given@).subrange(0, given.len() as int) =~= crate::classify::str_views(given@));
    let (gone_vids, kept_vids) = partition_videos(&catalog.videos, &roots, &given, true);
    let gone = video_path_list(&gone_vids);
    let mut files = cover_paths(&os_videos);
    let mut more = cover_paths(&gone_vids);
    let ghost a = crate::classify::str_views(files@);
    let ghost b = crate::classify::str_views(more@);
    files.append(&mut more);
    assert(crate::classify::str_views(files@) =~= a + b);
    let folders = {
        let mut fs: Vec<OsFolder> = Vec::new();
        let mut j: usize = 0;
        while j < catalog.folders.len()
            invariant
                j <= catalog.folders.len(),
                views_of_folders(fs@) == catalog.folder_views().subrange(0, j as int),
            decreases catalog.folders.len() - j,
        {
            let ghost f0 = views_of_folders(fs@);
            fs.push(catalog.folders[j].duplicate());
            assert(views_of_folders(fs@) =~= f0.push(catalog.folders@[j as int]@));
            assert(views_of_folders(fs@) =~= catalog.folder_views().subrange(0, j + 1));
            j += 1;
        }
        assert(catalog.folder_views().subrange(0, catalog.folders.len() as int) =~= catalog.folder_views());
        fs
    };
    proof {
        lemma_surviving_videos_unique(catalog.video_views(), crate::text::views(roots@), true);
    }
    catalog.replace_and_clear(folders, kept_vids, &gone);
    files
}

impl OsFolder {
    /// The directory that holds the frames extracted for this folder.
    pub fn get_appdata_frames_folder(&self, app_data_dir: &str) -> (r: String)
        ensures
            r@ == frames_dir(app_data_dir@, self.title@),
    {
        let frames = join_path(app_data_dir, "frames");
        join_path(frames.as_str(), self.title.as_str())
    }
}

/// Deletes the folders, then the videos, that vanished from disk. Returns
/// the frames directories and the cover images to remove from disk.
pub fn delete_stale_entries(catalog: &mut Catalog, old_dirs: Vec<OsFolder>, old_vids: Vec<OsVideo>, app_data_dir: &String) -> (r: (Vec<String>, Vec<String>))
    requires
        old(catalog).wf(),
    ensures
        final(catalog).wf(),
        exists|mid: Catalog|
            folders_deleted(*old(catalog), mid, folder_paths(views_of_folders(old_dirs@)))
                && #[trigger] videos_deleted(mid, *final(catalog), video_paths(views_of_videos(old_vids@))),
        crate::classify::str_views(r.0@) == frames_dirs(app_data_dir@, views_of_folders(old_dirs@)),
{
    let dirs = delete_os_folders(catalog, old_dirs, app_data_dir);
    let ghost mid = *catalog;
    let files = delete_os_videos(catalog, old_vids);
    assert(videos_deleted(mid, *catalog, video_paths(views_of_videos(old_vids@))));
    (dirs, files)
}

} // verus!
