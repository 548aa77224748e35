//! Directory entries as the scanner sees them, and their classification.
use vstd::prelude::*;
use crate::text::chars_of;
use crate::paths::{extension, extension_of};
use crate::model::FileMetadata;

verus! {

/// A file found in a directory, with what could be read of its metadata.
#[derive(Clone, Debug)]
pub struct FsFile {
    pub path: String,
    pub metadata: Option<FileMetadata>,
}

/// A directory and what its listing held; `None` when it could not be listed.
#[derive(Debug)]
pub struct FsDir {
    pub path: String,
    pub entries: Option<Vec<FsEntry>>,
}

/// One entry of a listing.
#[derive(Debug)]
pub enum FsEntry {
    Dir(FsDir),
    File(FsFile),
}

/// How the scanner treats an entry.
#[derive(Clone, Copy, Debug, PartialEq, Eq, Structural)]
pub enum EntryKind {
    ChildFolder,
    MediaFile,
    Ignored,
}

/// The container formats of video and audio that the library catalogs.
pub open spec fn media_ext_list() -> Seq<Seq<char>> {
    seq![
        "mp4"@, "mkv"@, "webm"@, "avi"@, "mov"@, "flv"@, "wmv"@, "mpg"@, "mpeg"@, "m4v"@,
        "3gp"@, "ogg"@, "mxf"@, "ts"@, "vob"@, "m2ts"@, "mts"@, "asf"@, "rm"@, "rmvb"@,
        "divx"@, "dv"@, "f4v"@, "f4p"@, "f4a"@, "f4b"@, "hevc"@, "aac"@, "ac3"@, "aiff"@,
        "alac"@, "amr"@, "ape"@, "au"@, "dts"@, "flac"@, "m4a"@, "m4b"@, "mka"@, "mlp"@,
        "mp3"@, "oga"@, "opus"@, "ra"@, "tak"@, "truehd"@, "tta"@, "voc"@, "wav"@, "wma"@,
        "wv"@,
    ]
}

fn media_ext_vec() -> (r: Vec<&'static str>)
    ensures
        r@.map_values(|s: &'static str| s@) == media_ext_list(),
{
    let r = vec![
        "mp4", "mkv", "webm", "avi", "mov", "flv", "wmv", "mpg", "mpeg", "m4v",
        "3gp", "ogg", "mxf", "ts", "vob", "m2ts", "mts", "asf", "rm", "rmvb",
        "divx", "dv", "f4v", "f4p", "f4a", "f4b", "hevc", "aac", "ac3", "aiff",
        "alac", "amr", "ape", "au", "dts", "flac", "m4a", "m4b", "mka", "mlp",
        "mp3", "oga", "opus", "ra", "tak", "truehd", "tta", "voc", "wav", "wma",
        "wv",
    ];
    assert(r@.map_values(|s: &'static str| s@) =~= media_ext_list());
    r
}

/// Two characters equal up to ASCII case, the second being lower case.
pub open spec fn char_ci_eq(a: char, lower: char) -> bool {
    a == lower || ('A' <= a && a <= 'Z' && a as u32 + 32 == lower as u32)
}

/// `s` equals the lower-case `lower` up to ASCII case.
pub open spec fn ci_eq(s: Seq<char>, lower: Seq<char>) -> bool {
    s.len() == lower.len() && forall|i: int| 0 <= i < s.len() ==> char_ci_eq(#[trigger] s[i], lower[i])
}

/// Whether an extension names a catalogued format, ignoring ASCII case.
pub open spec fn is_media_ext(e: Seq<char>) -> bool {
    exists|i: int| 0 <= i < media_ext_list().len() && ci_eq(e, #[trigger] media_ext_list()[i])
}

pub(crate) fn ci_eq_exec(s: &Vec<char>, lower: &Vec<char>) -> (r: bool)
    ensures
        r == ci_eq(s@, lower@),
{
    if s.len() != lower.len() {
        return false;
    }
    let mut i: usize = 0;
    while i < s.len()
        invariant
            i <= s.len(),
            s.len() == lower.len(),
            forall|k: int| 0 <= k < i ==> char_ci_eq(#[trigger] s@[k], lower@[k]),
        decreases s.len() - i,
    {
        let a = s[i];
        let b = lower[i];
        if !(a == b || ('A' <= a && a <= 'Z' && a as u32 + 32 == b as u32)) {
            return false;
        }
        i += 1;
    }
    true
}

/// Whether an extension names a catalogued video or audio format.
pub fn is_media_extension(e: &str) -> (r: bool)
    ensures
        r == is_media_ext(e@),
{
    let list = media_ext_vec();
    let ev = chars_of(e);
    let mut i: usize = 0;
    while i < list.len()
        invariant
            i <= list.len(),
            list@.map_values(|s: &'static str| s@) == media_ext_list(),
            ev@ == e@,
            forall|k: int| 0 <= k < i ==> !ci_eq(e@, #[trigger] media_ext_list()[k]),
        decreases list.len() - i,
    {
        let lv = chars_of(list[i]);
        assert(media_ext_list()[i as int] == list@[i as int]@);
        if ci_eq_exec(&ev, &lv) {
            return true;
        }
        i += 1;
    }
    false
}

/// The kind of an entry: directories are child folders; files whose
/// extension names a catalogued format are media; the rest is ignored.
pub open spec fn kind_of(e: FsEntry) -> EntryKind {
    match e {
        FsEntry::Dir(_) => EntryKind::ChildFolder,
        FsEntry::File(f) => match extension(f.path@) {
            Some(x) => if is_media_ext(x) {
                EntryKind::MediaFile
            } else {
                EntryKind::Ignored
            },
            None => EntryKind::Ignored,
        },
    }
}

/// Classifies one directory entry.
pub fn classify_entry(e: &FsEntry) -> (r: EntryKind)
    ensures
        r == kind_of(*e),
{
    match e {
        FsEntry::Dir(_) => EntryKind::ChildFolder,
        FsEntry::File(f) => match extension_of(f.path.as_str()) {
            Some(x) => if is_media_extension(x.as_str()) {
                EntryKind::MediaFile
            } else {
                EntryKind::Ignored
            },
            None => EntryKind::Ignored,
        },
    }
}

pub open spec fn entry_path(e: FsEntry) -> Seq<char> {
    match e {
        FsEntry::Dir(d) => d.path@,
        FsEntry::File(f) => f.path@,
    }
}

/// The paths of the child folders of a listing, in listing order.
pub open spec fn child_folder_paths(es: Seq<FsEntry>) -> Seq<Seq<char>>
    decreases es.len(),
{
    if es.len() == 0 {
        Seq::empty()
    } else {
        let p = child_folder_paths(es.drop_last());
        if kind_of(es.last()) == EntryKind::ChildFolder {
            p.push(entry_path(es.last()))
        } else {
            p
        }
    }
}

/// The paths of the media files of a listing, in listing order.
pub open spec fn media_file_paths(es: Seq<FsEntry>) -> Seq<Seq<char>>
    decreases es.len(),
{
    if es.len() == 0 {
        Seq::empty()
    } else {
        let p = media_file_paths(es.drop_last());
        if kind_of(es.last()) == EntryKind::MediaFile {
            p.push(entry_path(es.last()))
        } else {
            p
        }
    }
}

pub open spec fn str_views(v: Seq<String>) -> Seq<Seq<char>> {
    v.map_values(|s: String| s@)
}

/// Splits a listing into the paths of its child folders and of its media
/// files, each in listing order.
pub fn read_dir_helper(entries: &Vec<FsEntry>) -> (r: (Vec<String>, Vec<String>))
    ensures
        str_views(r.0@) == child_folder_paths(entries@),
        str_views(r.1@) == media_file_paths(entries@),
{
    let mut dirs: Vec<String> = Vec::new();
    let mut vids: Vec<String> = Vec::new();
    let mut i: usize = 0;
    while i < entries.len()
        invariant
            i <= entries.len(),
            str_views(dirs@) == child_folder_paths(entries@.subrange(0, i as int)),
            str_views(vids@) == media_file_paths(entries@.subrange(0, i as int)),
        decreases entries.len() - i,
    {
        let ghost pre = entries@.subrange(0, i + 1);
        assert(pre.drop_last() =~= entries@.subrange(0, i as int));
        assert(pre.last() == entries@[i as int]);
        let e = &entries[i];
        let k = classify_entry(e);
        let p = match e {
            FsEntry::Dir(d) => d.path.clone(),
            FsEntry::File(f) => f.path.clone(),
        };
        if k == EntryKind::ChildFolder {
            let ghost before = str_views(dirs@);
            dirs.push(p);
            assert(str_views(dirs@) =~= before.push(p@));
        } else if k == EntryKind::MediaFile {
            let ghost before = str_views(vids@);
            vids.push(p);
            assert(str_views(vids@) =~= before.push(p@));
        }
        i += 1;
    }
    assert(entries@.subrange(0, entries.len() as int) =~= entries@);
    (dirs, vids)
}

} // verus!
