//! Reads of the catalog: folders and videos by owner, parent or folder, in
//! a requested order; and the local user.
use vstd::prelude::*;
use chrono::{Datelike, Timelike};
use crate::text::{chars_of, starts_with, occurs_at_exec, sub_vec, string_of};
use crate::model::{
    OsVideo, OsFolder, User, Settings, MpvSettings, VideoView, FolderView, views_of_videos,
    views_of_folders,
};
use crate::episode::{EpisodePattern, episode_key, order_by, ordered_by, sort_videos_by, stable_sorted_by};
use crate::catalog::{Catalog, DatabaseError, SortTypeError};

verus! {

/// The orders in which records can be listed.
#[derive(Clone, Copy, Debug, PartialEq, Eq, Structural)]
pub enum SortType {
    /// The store's order.
    NoSort,
    /// By episode number of the title.
    EpisodeTitleRegex,
    /// Most recently updated first.
    Updated,
}

pub(crate) fn text_eq(a: &str, b: &str) -> (r: bool)
    ensures
        r == (a@ == b@),
{
    let x = chars_of(a);
    let y = chars_of(b);
    if x.len() != y.len() {
        return false;
    }
    let r = occurs_at_exec(&x, &y, 0);
    proof {
        assert(x@.subrange(0, y@.len() as int) =~= x@);
    }
    r
}

/// The name of each order.
pub open spec fn sort_type_named(s: Seq<char>) -> Option<SortType> {
    if s == "none"@ {
        Some(SortType::NoSort)
    } else if s == "episode_title_regex"@ {
        Some(SortType::EpisodeTitleRegex)
    } else if s == "updated"@ {
        Some(SortType::Updated)
    } else {
        None
    }
}

impl SortType {
    /// Reads an order's name.
    pub fn from_str(s: &str) -> (r: Result<SortType, SortTypeError>)
        ensures
            match r {
                Ok(t) => sort_type_named(s@) == Some(t),
                Err(SortTypeError::FromStr(e)) => sort_type_named(s@) is None && e@ == s@,
            },
    {
        if text_eq(s, "none") {
            Ok(SortType::NoSort)
        } else if text_eq(s, "episode_title_regex") {
            Ok(SortType::EpisodeTitleRegex)
        } else if text_eq(s, "updated") {
            Ok(SortType::Updated)
        } else {
            Err(SortTypeError::FromStr(String::from_str(s)))
        }
    }
}

/// Relies on `chrono::NaiveDate::parse_from_str` with `%Y-%m-%d` and
/// `Datelike::num_days_from_ce`: the day number of the date the text names.
pub uninterp spec fn date_days(s: Seq<char>) -> Option<i32>;

/// Relies on `chrono::NaiveTime::parse_from_str` with `%H:%M` and
/// `Timelike::num_seconds_from_midnight`: the seconds since midnight of the
/// time the text names.
pub uninterp spec fn clock_secs(s: Seq<char>) -> Option<u32>;

#[verifier::external_body]
fn parse_date_days(s: &str) -> (r: Option<i32>)
    ensures
        r == date_days(s@),
{
    chrono::NaiveDate::parse_from_str(s, "%Y-%m-%d").ok().map(|d| d.num_days_from_ce())
}

#[verifier::external_body]
fn parse_clock_secs(s: &str) -> (r: Option<u32>)
    ensures
        r == clock_secs(s@),
        r matches Some(x) ==> x < 86400,
{
    chrono::NaiveTime::parse_from_str(s, "%H:%M").ok().map(|t| t.num_seconds_from_midnight())
}

/// Seconds since the start of the common era of a stored date (`2024-11-30`)
/// and time (`10:43pm`, whose last two characters are dropped).
pub open spec fn datetime_secs(date: Seq<char>, time: Seq<char>) -> Option<int> {
    if time.len() < 2 {
        None
    } else {
        match (date_days(date), clock_secs(time.subrange(0, time.len() - 2))) {
            (Some(d), Some(t)) => Some(d * 86400 + t),
            _ => None,
        }
    }
}

/// Reads a stored date and time.
pub fn get_naive_datetime(date: &str, time: &str) -> (r: Option<i64>)
    ensures
        match r {
            Some(x) => datetime_secs(date@, time@) == Some(x as int),
            None => datetime_secs(date@, time@) is None,
        },
{
    let tv = chars_of(time);
    if tv.len() < 2 {
        return None;
    }
    let clock = string_of(sub_vec(&tv, 0, tv.len() - 2).as_slice());
    match (parse_date_days(date), parse_clock_secs(clock.as_str())) {
        (Some(d), Some(t)) => Some(d as i64 * 86400 + t as i64),
        _ => None,
    }
}

/// The first second of 1970-01-01, counted as `datetime_secs` counts.
pub const EPOCH_SECS: i64 = 62135683200;

/// The key that lists the latest first; an unreadable stamp counts as the epoch.
pub open spec fn updated_key(date: Seq<char>, time: Seq<char>) -> u64 {
    let s = match datetime_secs(date, time) {
        Some(x) => x,
        None => EPOCH_SECS as int,
    };
    (i64::MAX - s) as u64
}

fn updated_key_exec(date: &str, time: &str) -> (r: u64)
    ensures
        r == updated_key(date@, time@),
{
    let s = match get_naive_datetime(date, time) {
        Some(x) => x,
        None => EPOCH_SECS,
    };
    (i64::MAX as i128 - s as i128) as u64
}

/// The sort key of a record's title and stamp under an order.
pub open spec fn record_key(t: SortType, title: Seq<char>, date: Seq<char>, time: Seq<char>) -> u64 {
    match t {
        SortType::NoSort => 0,
        SortType::EpisodeTitleRegex => episode_key(title) as u64,
        SortType::Updated => updated_key(date, time),
    }
}

fn record_key_exec(pattern: &EpisodePattern, t: SortType, title: &str, date: &str, time: &str) -> (r: u64)
    ensures
        r == record_key(t, title@, date@, time@),
{
    match t {
        SortType::NoSort => 0,
        SortType::EpisodeTitleRegex => pattern.episode_number(title) as u64,
        SortType::Updated => updated_key_exec(date, time),
    }
}

pub open spec fn video_sort_keys(t: SortType, vs: Seq<VideoView>) -> Seq<u64> {
    vs.map_values(|v: VideoView| record_key(t, v.title, v.update_date, v.update_time))
}

pub open spec fn folder_sort_keys(t: SortType, fs: Seq<FolderView>) -> Seq<u64> {
    fs.map_values(|f: FolderView| record_key(t, f.title, f.update_date, f.update_time))
}

/// `out` is `inp` sorted by `keys`, equal keys in their original order.
pub open spec fn folders_sorted_by(inp: Seq<FolderView>, out: Seq<FolderView>, keys: Seq<u64>) -> bool {
    &&& out.len() == inp.len()
    &&& keys.len() == inp.len()
    &&& exists|p: Seq<usize>| #[trigger] ordered_by(keys, p) && forall|k: int| 0 <= k < p.len() ==> out[k] == inp[#[trigger] p[k] as int]
}

fn sort_folders_by(folders: Vec<OsFolder>, keys: &Vec<u64>) -> (r: Vec<OsFolder>)
    requires
        keys@.len() == folders@.len(),
    ensures
        folders_sorted_by(views_of_folders(folders@), views_of_folders(r@), keys@),
{
    let order = order_by(keys);
    let mut out: Vec<OsFolder> = Vec::new();
    let mut k: usize = 0;
    while k < order.len()
        invariant
            k <= order.len(),
            ordered_by(keys@, order@),
            keys@.len() == folders@.len(),
            out@.len() == k,
            forall|q: int| 0 <= q < k ==> #[trigger] out@[q]@ == folders@[order@[q] as int]@,
        decreases order.len() - k,
    {
        out.push(folders[order[k]].duplicate());
        k += 1;
    }
    assert(forall|q: int| 0 <= q < order@.len() ==> views_of_folders(out@)[q] == views_of_folders(folders@)[#[trigger] order@[q] as int]);
    out
}

fn folder_keys(pattern: &EpisodePattern, t: SortType, fs: &Vec<OsFolder>) -> (r: Vec<u64>)
    ensures
        r@ == folder_sort_keys(t, views_of_folders(fs@)),
{
    let mut keys: Vec<u64> = Vec::new();
    let mut i: usize = 0;
    while i < fs.len()
        invariant
            i <= fs.len(),
            keys@ == folder_sort_keys(t, views_of_folders(fs@)).subrange(0, i as int),
        decreases fs.len() - i,
    {
        let f = &fs[i];
        keys.push(record_key_exec(pattern, t, f.title.as_str(), f.update_date.as_str(), f.update_time.as_str()));
        assert(keys@ =~= folder_sort_keys(t, views_of_folders(fs@)).subrange(0, i + 1));
        i += 1;
    }
    assert(folder_sort_keys(t, views_of_folders(fs@)).subrange(0, fs.len() as int) =~= folder_sort_keys(t, views_of_folders(fs@)));
    keys
}

fn video_keys_for(pattern: &EpisodePattern, t: SortType, vs: &Vec<OsVideo>) -> (r: Vec<u64>)
    ensures
        r@ == video_sort_keys(t, views_of_videos(vs@)),
{
    let mut keys: Vec<u64> = Vec::new();
    let mut i: usize = 0;
    while i < vs.len()
        invariant
            i <= vs.len(),
            keys@ == video_sort_keys(t, views_of_videos(vs@)).subrange(0, i as int),
        decreases vs.len() - i,
    {
        let v = &vs[i];
        keys.push(record_key_exec(pattern, t, v.title.as_str(), v.update_date.as_str(), v.update_time.as_str()));
        assert(keys@ =~= video_sort_keys(t, views_of_videos(vs@)).subrange(0, i + 1));
        i += 1;
    }
    assert(video_sort_keys(t, views_of_videos(vs@)).subrange(0, vs.len() as int) =~= video_sort_keys(t, views_of_videos(vs@)));
    keys
}

/// The videos stored for exactly the folder `p`, in store order.
pub open spec fn videos_in(vs: Seq<VideoView>, p: Seq<char>) -> Seq<VideoView>
    decreases vs.len(),
{
    if vs.len() == 0 {
        Seq::empty()
    } else if vs.last().main_folder_path == p {
        videos_in(vs.drop_last(), p).push(vs.last())
    } else {
        videos_in(vs.drop_last(), p)
    }
}

/// The library roots of the owners whose id starts with `user_id`.
pub open spec fn roots_of(fs: Seq<FolderView>, user_id: Seq<char>) -> Seq<FolderView>
    decreases fs.len(),
{
    if fs.len() == 0 {
        Seq::empty()
    } else if starts_with(fs.last().user_id, user_id) && fs.last().parent_path is None {
        roots_of(fs.drop_last(), user_id).push(fs.last())
    } else {
        roots_of(fs.drop_last(), user_id)
    }
}

/// The folders whose parent path starts with `p`.
pub open spec fn folders_under(fs: Seq<FolderView>, p: Seq<char>) -> Seq<FolderView>
    decreases fs.len(),
{
    if fs.len() == 0 {
        Seq::empty()
    } else if fs.last().parent_path matches Some(pp) && starts_with(pp, p) {
        folders_under(fs.drop_last(), p).push(fs.last())
    } else {
        folders_under(fs.drop_last(), p)
    }
}

/// The videos of one folder in the requested order; an error when there is
/// none, or when the order's name is unknown.
pub fn get_os_videos(catalog: &Catalog, pattern: &EpisodePattern, main_folder_path: &String, sort_type: &str) -> (r: Result<Vec<OsVideo>, DatabaseError>)
    ensures
        ({
            let found = videos_in(catalog.video_views(), main_folder_path@);
            match r {
                Ok(v) => found.len() > 0 && (sort_type_named(sort_type@) matches Some(t)
                    && stable_sorted_by(found, views_of_videos(v@), video_sort_keys(t, found))),
                Err(DatabaseError::OsVideosNotFound(_)) => found.len() == 0,
                Err(DatabaseError::SortType(_)) => found.len() > 0 && sort_type_named(sort_type@) is None,
                Err(_) => false,
            }
        }),
{
    let ghost all = catalog.video_views();
    let mut found: Vec<OsVideo> = Vec::new();
    let mut i: usize = 0;
    while i < catalog.videos.len()
        invariant
            i <= catalog.videos.len(),
            all == catalog.video_views(),
            views_of_videos(found@) == videos_in(all.subrange(0, i as int), main_folder_path@),
        decreases catalog.videos.len() - i,
    {
        let ghost pre = all.subrange(0, i + 1);
        assert(pre.drop_last() =~= all.subrange(0, i as int));
        assert(pre.last() == catalog.videos@[i as int]@);
        let ghost f0 = views_of_videos(found@);
        if catalog.videos[i].main_folder_path == *main_folder_path {
            found.push(catalog.videos[i].duplicate());
            assert(views_of_videos(found@) =~= f0.push(catalog.videos@[i as int]@));
        }
        i += 1;
    }
    assert(all.subrange(0, catalog.videos.len() as int) =~= all);
    if found.len() == 0 {
        return Err(DatabaseError::OsVideosNotFound(main_folder_path.clone()));
    }
    let t = match SortType::from_str(sort_type) {
        Ok(t) => t,
        Err(e) => return Err(DatabaseError::SortType(e)),
    };
    let keys = video_keys_for(pattern, t, &found);
    Ok(sort_videos_by(found, &keys))
}

/// The library roots of a user in the requested order; an error when the
/// order's name is unknown, or when there is none.
pub fn get_os_folders(catalog: &Catalog, pattern: &EpisodePattern, user_id: &String, sort_type: &str) -> (r: Result<Vec<OsFolder>, DatabaseError>)
    ensures
        ({
            let found = roots_of(catalog.folder_views(), user_id@);
            match r {
                Ok(v) => found.len() > 0 && (sort_type_named(sort_type@) matches Some(t)
                    && folders_sorted_by(found, views_of_folders(v@), folder_sort_keys(t, found))),
                Err(DatabaseError::SortType(_)) => sort_type_named(sort_type@) is None,
                Err(DatabaseError::OsFoldersNotFound(_)) => sort_type_named(sort_type@) is Some && found.len() == 0,
                Err(_) => false,
            }
        }),
{
    let ghost all = catalog.folder_views();
    let uid = chars_of(user_id.as_str());
    let mut found: Vec<OsFolder> = Vec::new();
    let mut i: usize = 0;
    while i < catalog.folders.len()
        invariant
            i <= catalog.folders.len(),
            all == catalog.folder_views(),
            uid@ == user_id@,
            views_of_folders(found@) == roots_of(all.subrange(0, i as int), user_id@),
        decreases catalog.folders.len() - i,
    {
        let ghost pre = all.subrange(0, i + 1);
        assert(pre.drop_last() =~= all.subrange(0, i as int));
        assert(pre.last() == catalog.folders@[i as int]@);
        let ghost f0 = views_of_folders(found@);
        let f = &catalog.folders[i];
        let owner = chars_of(f.user_id.as_str());
        if occurs_at_exec(&owner, &uid, 0) && f.parent_path.is_none() {
            found.push(f.duplicate());
            assert(views_of_folders(found@) =~= f0.push(catalog.folders@[i as int]@));
        }
        i += 1;
    }
    assert(all.subrange(0, catalog.folders.len() as int) =~= all);
    let t = match SortType::from_str(sort_type) {
        Ok(t) => t,
        Err(e) => return Err(DatabaseError::SortType(e)),
    };
    if found.len() == 0 {
        return Err(DatabaseError::OsFoldersNotFound(user_id.clone()));
    }
    let keys = folder_keys(pattern, t, &found);
    Ok(sort_folders_by(found, &keys))
}

/// The folders whose parent path starts with `parent_path`, in the requested
/// order; an error when the order's name is unknown, or when there is none.
pub fn get_os_folders_by_path(catalog: &Catalog, pattern: &EpisodePattern, parent_path: &String, sort_type: &str) -> (r: Result<Vec<OsFolder>, DatabaseError>)
    ensures
        ({
            let found = folders_under(catalog.folder_views(), parent_path@);
            match r {
                Ok(v) => found.len() > 0 && (sort_type_named(sort_type@) matches Some(t)
                    && folders_sorted_by(found, views_of_folders(v@), folder_sort_keys(t, found))),
                Err(DatabaseError::SortType(_)) => sort_type_named(sort_type@) is None,
                Err(DatabaseError::OsFoldersNotFound(_)) => sort_type_named(sort_type@) is Some && found.len() == 0,
                Err(_) => false,
            }
        }),
{
    let ghost all = catalog.folder_views();
    let pp = chars_of(parent_path.as_str());
    let mut found: Vec<OsFolder> = Vec::new();
    let mut i: usize = 0;
    while i < catalog.folders.len()
        invariant
            i <= catalog.folders.len(),
            all == catalog.folder_views(),
            pp@ == parent_path@,
            views_of_folders(found@) == folders_under(all.subrange(0, i as int), parent_path@),
        decreases catalog.folders.len() - i,
    {
        let ghost pre = all.subrange(0, i + 1);
        assert(pre.drop_last() =~= all.subrange(0, i as int));
        assert(pre.last() == catalog.folders@[i as int]@);
        let ghost f0 = views_of_folders(found@);
        let f = &catalog.folders[i];
        let hit = match &f.parent_path {
            Some(p) => {
                let pv = chars_of(p.as_str());
                occurs_at_exec(&pv, &pp, 0)
            },
            None => false,
        };
        if hit {
            found.push(f.duplicate());
            assert(views_of_folders(found@) =~= f0.push(catalog.folders@[i as int]@));
        }
        i += 1;
    }
    assert(all.subrange(0, catalog.folders.len() as int) =~= all);
    let t = match SortType::from_str(sort_type) {
        Ok(t) => t,
        Err(e) => return Err(DatabaseError::SortType(e)),
    };
    if found.len() == 0 {
        return Err(DatabaseError::OsFoldersNotFound(parent_path.clone()));
    }
    let keys = folder_keys(pattern, t, &found);
    Ok(sort_folders_by(found, &keys))
}

/// The folder stored under a path.
pub fn get_os_folder_by_path(catalog: &Catalog, folder_path: &String) -> (r: Result<OsFolder, DatabaseError>)
    ensures
        match r {
            Ok(f) => crate::catalog::folder_index(catalog.folder_views(), folder_path@) >= 0
                && f@ == catalog.folder_views()[crate::catalog::folder_index(catalog.folder_views(), folder_path@)],
            Err(e) => crate::catalog::folder_index(catalog.folder_views(), folder_path@) == -1
                && e is OsFoldersNotFound,
        },
{
    match catalog.find_folder(folder_path) {
        Some(i) => Ok(catalog.folders[i].duplicate()),
        None => Err(DatabaseError::OsFoldersNotFound(folder_path.clone())),
    }
}

/// Index of the user with id `id`, or -1.
pub open spec fn user_index(us: Seq<User>, id: Seq<char>) -> int
    decreases us.len(),
{
    if us.len() == 0 {
        -1
    } else if us.last().id@ == id {
        us.len() - 1
    } else {
        user_index(us.drop_last(), id)
    }
}

fn find_user(us: &Vec<User>, id: &str) -> (r: Option<usize>)
    ensures
        match r {
            Some(i) => user_index(us@, id@) == i as int && i < us@.len(),
            None => user_index(us@, id@) == -1,
        },
{
    let mut i: usize = us.len();
    assert(us@.subrange(0, us@.len() as int) =~= us@);
    while i > 0
        invariant
            i <= us.len(),
            user_index(us@, id@) == user_index(us@.subrange(0, i as int), id@),
        decreases i,
    {
        let ghost pre = us@.subrange(0, i as int);
        assert(pre.drop_last() =~= us@.subrange(0, i - 1));
        if text_eq(us[i - 1].id.as_str(), id) {
            return Some(i - 1);
        }
        i -= 1;
    }
    None
}

impl User {
    pub fn duplicate(&self) -> (r: Self)
        ensures
            r == *self,
    {
        User {
            id: self.id.clone(),
            username: self.username.clone(),
            settings: self.settings.duplicate(),
            last_watched_video: crate::model::copy_opt_video(&self.last_watched_video),
        }
    }
}

/// The user stored under an id.
pub fn get_user_by_id(catalog: &Catalog, user_id: &str) -> (r: Result<User, DatabaseError>)
    ensures
        match r {
            Ok(u) => user_index(catalog.users@, user_id@) >= 0 && u == catalog.users@[user_index(catalog.users@, user_id@)],
            Err(e) => user_index(catalog.users@, user_id@) == -1 && e is UserNotFound,
        },
{
    match find_user(&catalog.users, user_id) {
        Some(i) => Ok(catalog.users[i].duplicate()),
        None => Err(DatabaseError::UserNotFound(String::from_str(user_id))),
    }
}

/// The default user, whose id is `1`.
pub fn get_default_user(catalog: &Catalog) -> (r: Result<User, DatabaseError>)
    ensures
        match r {
            Ok(u) => user_index(catalog.users@, "1"@) >= 0 && u == catalog.users@[user_index(catalog.users@, "1"@)],
            Err(e) => user_index(catalog.users@, "1"@) == -1 && e is UserNotFound,
        },
{
    get_user_by_id(catalog, "1")
}

/// Writes a user record, replacing the one with the same id.
pub fn update_user(catalog: &mut Catalog, user: User)
    ensures
        final(catalog).folders == old(catalog).folders,
        final(catalog).videos == old(catalog).videos,
        ({
            let i = user_index(old(catalog).users@, user.id@);
            if i >= 0 {
                final(catalog).users@ == old(catalog).users@.update(i, user)
            } else {
                final(catalog).users@ == old(catalog).users@.push(user)
            }
        }),
{
    match find_user(&catalog.users, user.id.as_str()) {
        Some(i) => {
            catalog.users.set(i, user);
        },
        None => {
            catalog.users.push(user);
        },
    }
}

impl Settings {
    /// The default settings of the default user: no paths, autoplay on.
    pub fn default_settings(update_date: String, update_time: String) -> (r: Settings)
        ensures
            r.user_id@ == "1"@,
            r.mpv_settings.exe_path is None,
            r.mpv_settings.config_path is None,
            r.mpv_settings.plugins_path is None,
            r.mpv_settings.autoplay,
            r.update_date == update_date,
            r.update_time == update_time,
    {
        Settings {
            user_id: String::from_str("1"),
            mpv_settings: MpvSettings { exe_path: None, config_path: None, plugins_path: None, autoplay: true },
            update_date,
            update_time,
        }
    }
}

/// Writes the default user (id `1`, name `default`, default settings) and
/// returns it.
pub fn create_default_user(catalog: &mut Catalog, update_date: String, update_time: String) -> (r: User)
    ensures
        r.id@ == "1"@,
        r.username@ == "default"@,
        r.last_watched_video is None,
        r.settings.mpv_settings.autoplay,
        final(catalog).folders == old(catalog).folders,
        final(catalog).videos == old(catalog).videos,
        ({
            let i = user_index(old(catalog).users@, "1"@);
            if i >= 0 {
                final(catalog).users@ == old(catalog).users@.update(i, r)
            } else {
                final(catalog).users@ == old(catalog).users@.push(r)
            }
        }),
{
    let user = User {
        id: String::from_str("1"),
        username: String::from_str("default"),
        settings: Settings::default_settings(update_date, update_time),
        last_watched_video: None,
    };
    update_user(catalog, user.duplicate());
    user
}

} // verus!
