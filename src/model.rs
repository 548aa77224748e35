//! The catalog's records and their views as plain values.
use vstd::prelude::*;

verus! {

/// What was read of a file's metadata; times are whole seconds since the epoch.
#[derive(Clone, Copy, Debug, PartialEq, Eq, Structural)]
pub struct FileMetadata {
    pub created: Option<u64>,
    pub modified: Option<u64>,
    pub accessed: Option<u64>,
    pub size: Option<u64>,
}

pub open spec fn opt_view(o: Option<String>) -> Option<Seq<char>> {
    match o {
        Some(s) => Some(s@),
        None => None,
    }
}

pub fn copy_opt(o: &Option<String>) -> (r: Option<String>)
    ensures
        r == *o,
{
    match o {
        Some(s) => Some(s.clone()),
        None => None,
    }
}

/// One playable file of the catalog, keyed by its path.
#[derive(Clone, Debug)]
pub struct OsVideo {
    pub user_id: String,
    /// Path of the folder that holds the file.
    pub main_folder_path: String,
    pub path: String,
    pub title: String,
    pub cover_img_path: Option<String>,
    pub watched: bool,
    /// In seconds.
    pub duration: u64,
    /// In seconds.
    pub position: u64,
    pub metadata: Option<FileMetadata>,
    pub update_date: String,
    pub update_time: String,
}

pub struct VideoView {
    pub user_id: Seq<char>,
    pub main_folder_path: Seq<char>,
    pub path: Seq<char>,
    pub title: Seq<char>,
    pub cover_img_path: Option<Seq<char>>,
    pub watched: bool,
    pub duration: u64,
    pub position: u64,
    pub metadata: Option<FileMetadata>,
    pub update_date: Seq<char>,
    pub update_time: Seq<char>,
}

impl View for OsVideo {
    type V = VideoView;

    open spec fn view(&self) -> VideoView {
        VideoView {
            user_id: self.user_id@,
            main_folder_path: self.main_folder_path@,
            path: self.path@,
            title: self.title@,
            cover_img_path: opt_view(self.cover_img_path),
            watched: self.watched,
            duration: self.duration,
            position: self.position,
            metadata: self.metadata,
            update_date: self.update_date@,
            update_time: self.update_time@,
        }
    }
}

pub open spec fn opt_video_view(o: Option<OsVideo>) -> Option<VideoView> {
    match o {
        Some(v) => Some(v@),
        None => None,
    }
}

impl OsVideo {
    /// A field-by-field copy.
    pub fn duplicate(&self) -> (r: Self)
        ensures
            r == *self,
    {
        OsVideo {
            user_id: self.user_id.clone(),
            main_folder_path: self.main_folder_path.clone(),
            path: self.path.clone(),
            title: self.title.clone(),
            cover_img_path: copy_opt(&self.cover_img_path),
            watched: self.watched,
            duration: self.duration,
            position: self.position,
            metadata: self.metadata,
            update_date: self.update_date.clone(),
            update_time: self.update_time.clone(),
        }
    }
}

pub fn copy_opt_video(o: &Option<OsVideo>) -> (r: Option<OsVideo>)
    ensures
        r == *o,
{
    match o {
        Some(v) => Some(v.duplicate()),
        None => None,
    }
}

/// One directory of the catalog, keyed by its path.
#[derive(Clone, Debug)]
pub struct OsFolder {
    pub user_id: String,
    pub path: String,
    pub title: String,
    /// Absent for a library root.
    pub parent_path: Option<String>,
    pub last_watched_video: Option<OsVideo>,
    pub cover_img_path: Option<String>,
    pub update_date: String,
    pub update_time: String,
}

pub struct FolderView {
    pub user_id: Seq<char>,
    pub path: Seq<char>,
    pub title: Seq<char>,
    pub parent_path: Option<Seq<char>>,
    pub last_watched_video: Option<VideoView>,
    pub cover_img_path: Option<Seq<char>>,
    pub update_date: Seq<char>,
    pub update_time: Seq<char>,
}

impl View for OsFolder {
    type V = FolderView;

    open spec fn view(&self) -> FolderView {
        FolderView {
            user_id: self.user_id@,
            path: self.path@,
            title: self.title@,
            parent_path: opt_view(self.parent_path),
            last_watched_video: opt_video_view(self.last_watched_video),
            cover_img_path: opt_view(self.cover_img_path),
            update_date: self.update_date@,
            update_time: self.update_time@,
        }
    }
}

impl OsFolder {
    /// A field-by-field copy.
    pub fn duplicate(&self) -> (r: Self)
        ensures
            r == *self,
    {
        OsFolder {
            user_id: self.user_id.clone(),
            path: self.path.clone(),
            title: self.title.clone(),
            parent_path: copy_opt(&self.parent_path),
            last_watched_video: copy_opt_video(&self.last_watched_video),
            cover_img_path: copy_opt(&self.cover_img_path),
            update_date: self.update_date.clone(),
            update_time: self.update_time.clone(),
        }
    }
}

/// The player's settings.
#[derive(Clone, Debug)]
pub struct MpvSettings {
    pub exe_path: Option<String>,
    pub config_path: Option<String>,
    pub plugins_path: Option<String>,
    pub autoplay: bool,
}

#[derive(Clone, Debug)]
pub struct Settings {
    pub user_id: String,
    pub mpv_settings: MpvSettings,
    pub update_date: String,
    pub update_time: String,
}

/// The local user.
#[derive(Clone, Debug)]
pub struct User {
    pub id: String,
    pub username: String,
    pub settings: Settings,
    pub last_watched_video: Option<OsVideo>,
}

pub open spec fn views_of_videos(v: Seq<OsVideo>) -> Seq<VideoView> {
    v.map_values(|x: OsVideo| x@)
}

pub open spec fn views_of_folders(v: Seq<OsFolder>) -> Seq<FolderView> {
    v.map_values(|x: OsFolder| x@)
}

} // verus!

verus! {

/// What the diff engine found: nothing, or the changed child-folder and
/// video paths with the records that vanished from disk.
#[derive(Debug)]
pub enum StaleEntries {
    Found {
        dirs: Option<Vec<String>>,
        videos: Option<Vec<String>>,
        deleted: Option<(Vec<OsFolder>, Vec<OsVideo>)>,
    },
    NoChanges,
}

impl StaleEntries {
    pub open spec fn is_nothing(&self) -> bool {
        match self {
            StaleEntries::Found { .. } => false,
            StaleEntries::NoChanges => true,
        }
    }

    /// Whether no difference was found.
    pub fn is_none(&self) -> (r: bool)
        ensures
            r == self.is_nothing(),
    {
        match self {
            StaleEntries::Found { .. } => false,
            StaleEntries::NoChanges => true,
        }
    }
}

/// What every record of one scan shares: its owner, its time stamp and the
/// application directory under which cover images are kept.
#[derive(Clone, Debug)]
pub struct ScanContext {
    pub user_id: String,
    pub update_date: String,
    pub update_time: String,
    pub app_data_dir: String,
}

} // verus!
