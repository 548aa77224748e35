//! Properties of the engine that relate its functions, proved over their contracts.
use vstd::prelude::*;
use crate::model::{OsFolder, OsVideo, StaleEntries, VideoView, FolderView};
use crate::classify::{FsEntry, child_folder_paths, media_file_paths};
use crate::episode::{stable_sorted_by, sort_witness, video_keys, episode_key};
use crate::diff::{
    DiskState, stale_entries_of, nothing_changed, gone_folders, gone_videos, present_folder_paths,
    present_videos, last_index, stale_meta, video_changes, dir_changes, };
use crate::catalog::{folder_paths, video_paths, cleared, covers};
use crate::sync::scan_filter;

verus! {

/// Videos sorted by the walker ascend by episode number, and videos with
/// equal numbers keep their listing order.
pub proof fn law_walk_orders_videos(own_in: Seq<VideoView>, own: Seq<VideoView>)
    requires
        stable_sorted_by(own_in, own, video_keys(own_in)),
    ensures
        forall|k: int, l: int|
            0 <= k < l < own.len() ==> episode_key(#[trigger] own[k].title) <= episode_key(
                #[trigger] own[l].title,
            ),
        exists|p: Seq<int>|
            p.len() == own.len() && (forall|k: int| 0 <= k < own.len() ==> own[k] == own_in[#[trigger] p[k]])
                && (forall|k: int, l: int|
                0 <= k < l < own.len() && episode_key(own[k].title) == episode_key(own[l].title)
                    ==> #[trigger] p[k] < #[trigger] p[l]),
{
    let keys = video_keys(own_in);
    let p = choose|p: Seq<int>| sort_witness(own_in, own, keys, p);
    assert forall|k: int, l: int| 0 <= k < l < own.len() implies episode_key(
        #[trigger] own[k].title,
    ) <= episode_key(#[trigger] own[l].title) by {
        assert(keys[p[k]] == episode_key(own_in[p[k]].title) as u64);
        assert(keys[p[l]] == episode_key(own_in[p[l]].title) as u64);
        assert(keys[p[k]] < keys[p[l]] || (keys[p[k]] == keys[p[l]] && p[k] < p[l]));
    }
    assert forall|k: int, l: int|
        0 <= k < l < own.len() && episode_key(own[k].title) == episode_key(own[l].title)
            implies #[trigger] p[k] < #[trigger] p[l] by {
        assert(keys[p[k]] == episode_key(own_in[p[k]].title) as u64);
        assert(keys[p[l]] == episode_key(own_in[p[l]].title) as u64);
        assert(keys[p[k]] < keys[p[l]] || (keys[p[k]] == keys[p[l]] && p[k] < p[l]));
    }
}

/// Without a snapshot the diff engine reports no differences, and the walk
/// that follows keeps every entry.
pub proof fn law_fresh_scan_walks_everything(es: Seq<FsEntry>, disk: DiskState, st: StaleEntries, filter: StaleEntries)
    requires
        stale_entries_of(es, None::<Vec<OsFolder>>, None::<Vec<OsVideo>>, disk, st),
        scan_filter(filter, es, None::<Vec<OsFolder>>, None::<Vec<OsVideo>>, disk),
    ensures
        st.is_nothing(),
        crate::walk::dir_filter(filter) is None,
        crate::walk::video_filter(filter) is None,
{
}

proof fn lemma_all_present_folders(od: Seq<FolderView>, disk: DiskState)
    requires
        forall|i: int| 0 <= i < od.len() ==> disk.meta(#[trigger] od[i].path) is Some,
    ensures
        gone_folders(od, disk).len() == 0,
        present_folder_paths(od, disk) == folder_paths(od),
    decreases od.len(),
{
    if od.len() > 0 {
        assert(disk.meta(od[od.len() - 1].path) is Some);
        lemma_all_present_folders(od.drop_last(), disk);
        assert(folder_paths(od) =~= folder_paths(od.drop_last()).push(od.last().path));
    } else {
        assert(folder_paths(od) =~= Seq::<Seq<char>>::empty());
    }
}

proof fn lemma_all_present_videos(ov: Seq<VideoView>, disk: DiskState)
    requires
        forall|i: int| 0 <= i < ov.len() ==> disk.meta(#[trigger] ov[i].path) is Some,
    ensures
        gone_videos(ov, disk).len() == 0,
        present_videos(ov, disk) == ov,
    decreases ov.len(),
{
    if ov.len() > 0 {
        assert(disk.meta(ov[ov.len() - 1].path) is Some);
        lemma_all_present_videos(ov.drop_last(), disk);
        assert(ov.drop_last().push(ov.last()) =~= ov);
    }
}

proof fn lemma_last_index_contains(ov: Seq<VideoView>, p: Seq<char>)
    ensures
        last_index(ov, p) >= 0 <==> video_paths(ov).contains(p),
        last_index(ov, p) >= 0 ==> last_index(ov, p) < ov.len() && ov[last_index(ov, p)].path == p,
    decreases ov.len(),
{
    if ov.len() > 0 {
        lemma_last_index_contains(ov.drop_last(), p);
        assert(video_paths(ov) =~= video_paths(ov.drop_last()).push(ov.last().path));
        crate::diff::lemma_push_contains(video_paths(ov.drop_last()), ov.last().path);
    } else {
        assert(video_paths(ov) =~= Seq::<Seq<char>>::empty());
    }
}

/// Re-scanning an unchanged directory with the first scan's records of its
/// direct child folders and media files as the snapshot finds no change, so
/// the synchronization reports that nothing changed.
pub proof fn law_rescan_unchanged(es: Seq<FsEntry>, od: Seq<FolderView>, ov: Seq<VideoView>, disk: DiskState)
    requires
        forall|i: int| 0 <= i < od.len() ==> disk.meta(#[trigger] od[i].path) is Some,
        forall|i: int|
            0 <= i < ov.len() ==> (#[trigger] ov[i]).metadata is Some && disk.meta(ov[i].path)
                == ov[i].metadata,
        forall|p: Seq<char>| folder_paths(od).contains(p) <==> child_folder_paths(es).contains(p),
        forall|p: Seq<char>| video_paths(ov).contains(p) <==> media_file_paths(es).contains(p),
    ensures
        nothing_changed(es, od, ov, disk),
{
    lemma_all_present_folders(od, disk);
    assert forall|i: int| 0 <= i < ov.len() implies disk.meta(#[trigger] ov[i].path) is Some by {
        assert(ov[i].metadata is Some);
    }
    lemma_all_present_videos(ov, disk);
    assert(dir_changes(es, od, disk) =~= Set::empty());
    assert forall|p: Seq<char>| !video_changes(es, ov, disk).contains(p) by {
        lemma_last_index_contains(ov, p);
        let new = media_file_paths(es);
        if new.contains(p) {
            let li = last_index(ov, p);
            assert(li >= 0);
            assert(ov[li].path == p);
            assert(ov[li].metadata is Some);
            assert(disk.meta(p) == ov[li].metadata);
            assert(!stale_meta(ov[li].metadata, disk.meta(p)));
        }
    }
    assert(video_changes(es, ov, disk) =~= Set::empty());
}

/// A cataloged video whose file is gone from disk is among the deleted videos.
pub proof fn law_vanished_video_is_deleted(ov: Seq<VideoView>, disk: DiskState, i: int)
    requires
        0 <= i < ov.len(),
        disk.meta(ov[i].path) is None,
    ensures
        gone_videos(ov, disk).contains(ov[i]),
    decreases ov.len(),
{
    if i == ov.len() - 1 {
        assert(gone_videos(ov, disk).last() == ov[i]);
    } else {
        law_vanished_video_is_deleted(ov.drop_last(), disk, i);
        let g = gone_videos(ov.drop_last(), disk);
        let k = choose|k: int| 0 <= k < g.len() && g[k] == ov[i];
        if disk.meta(ov.last().path) is None {
            assert(gone_videos(ov, disk)[k] == ov[i]);
        }
    }
}

/// After a deletion no last-watched reference names a deleted video.
pub proof fn law_deleted_reference_cleared(lw: Option<VideoView>, gone: Seq<Seq<char>>)
    ensures
        cleared(lw, gone) matches Some(v) ==> !gone.contains(v.path),
        lw matches Some(v) && gone.contains(v.path) ==> cleared(lw, gone) is None,
{
}

/// The cover image of every deleted video is among the files to remove.
pub proof fn law_deleted_cover_listed(vs: Seq<VideoView>, i: int)
    requires
        0 <= i < vs.len(),
        vs[i].cover_img_path is Some,
    ensures
        covers(vs).contains(vs[i].cover_img_path->0),
    decreases vs.len(),
{
    if i == vs.len() - 1 {
        assert(covers(vs).last() == vs[i].cover_img_path->0);
    } else {
        law_deleted_cover_listed(vs.drop_last(), i);
        let c = covers(vs.drop_last());
        let k = choose|k: int| 0 <= k < c.len() && c[k] == vs[i].cover_img_path->0;
        if vs.last().cover_img_path is Some {
            assert(covers(vs)[k] == c[k]);
        } else {
            assert(covers(vs) == c);
        }
    }
}

proof fn lemma_present_from(ov: Seq<VideoView>, disk: DiskState)
    ensures
        forall|k: int| 0 <= k < present_videos(ov, disk).len() ==> ov.contains(#[trigger] present_videos(ov, disk)[k]),
        forall|k: int| 0 <= k < ov.len() && disk.meta(ov[k].path) is Some ==> present_videos(ov, disk).contains(#[trigger] ov[k]),
    decreases ov.len(),
{
    if ov.len() > 0 {
        lemma_present_from(ov.drop_last(), disk);
        let kept0 = present_videos(ov.drop_last(), disk);
        assert forall|k: int| 0 <= k < present_videos(ov, disk).len() implies ov.contains(#[trigger] present_videos(ov, disk)[k]) by {
            if k < kept0.len() {
                assert(present_videos(ov, disk)[k] == kept0[k]);
                let j = choose|j: int| 0 <= j < ov.drop_last().len() && ov.drop_last()[j] == kept0[k];
                assert(ov[j] == kept0[k]);
            } else {
                assert(present_videos(ov, disk)[k] == ov.last());
                assert(ov[ov.len() - 1] == ov.last());
            }
        }
        assert forall|k: int| 0 <= k < ov.len() && disk.meta(ov[k].path) is Some implies present_videos(ov, disk).contains(#[trigger] ov[k]) by {
            if k < ov.len() - 1 {
                assert(ov.drop_last()[k] == ov[k]);
                let j = choose|j: int| 0 <= j < kept0.len() && kept0[j] == ov[k];
                assert(present_videos(ov, disk)[j] == ov[k]);
            } else {
                assert(present_videos(ov, disk)[kept0.len() as int] == ov[k]);
            }
        }
    }
}

/// A cataloged video whose file now has another size is stale, whatever its
/// name and modification time.
pub proof fn law_resized_video_is_stale(es: Seq<FsEntry>, ov: Seq<VideoView>, disk: DiskState, i: int)
    requires
        0 <= i < ov.len(),
        video_paths(ov).no_duplicates(),
        media_file_paths(es).contains(ov[i].path),
        disk.meta(ov[i].path) is Some,
        ov[i].metadata is Some,
        (ov[i].metadata->0).size != (disk.meta(ov[i].path)->0).size,
    ensures
        video_changes(es, ov, disk).contains(ov[i].path),
{
    let p = ov[i].path;
    let pv = present_videos(ov, disk);
    lemma_present_from(ov, disk);
    assert(pv.contains(ov[i]));
    let j = choose|j: int| 0 <= j < pv.len() && pv[j] == ov[i];
    assert(video_paths(pv)[j] == p);
    lemma_last_index_contains(pv, p);
    let li = last_index(pv, p);
    assert(ov.contains(pv[li]));
    let m = choose|m: int| 0 <= m < ov.len() && ov[m] == pv[li];
    assert(video_paths(ov)[m] == video_paths(ov)[i]);
    assert(m == i);
}

/// A synchronization without a snapshot deletes nothing and walks the whole
/// folder, every entry kept.
pub proof fn law_fresh_sync_walks_everything(
    tree: crate::classify::FsDir,
    ctx: crate::model::ScanContext,
    parent_path: Option<String>,
    disk: DiskState,
    old_c: crate::catalog::Catalog,
    new_c: crate::catalog::Catalog,
    folders: Seq<OsFolder>,
    videos: Seq<OsVideo>,
)
    requires
        crate::sync::scanned(tree, ctx, parent_path, None::<Vec<OsFolder>>, None::<Vec<OsVideo>>, disk, old_c, new_c, folders, videos),
    ensures
        new_c == old_c,
        forall|n: nat|
            #[trigger] crate::walk::walked_deep(
                tree,
                StaleEntries::NoChanges,
                crate::walk::recorded_parent(tree, parent_path),
                ctx,
                (folders.last()@, crate::model::views_of_folders(folders.drop_last()), crate::model::views_of_videos(videos)),
                n,
            ),
{
    let st = choose|st: StaleEntries|
        #[trigger] scan_filter(st, tree.entries->0@, None::<Vec<OsFolder>>, None::<Vec<OsVideo>>, disk) && forall|n: nat|
            #[trigger] crate::walk::walked_deep(
                tree,
                st,
                crate::walk::recorded_parent(tree, parent_path),
                ctx,
                (folders.last()@, crate::model::views_of_folders(folders.drop_last()), crate::model::views_of_videos(videos)),
                n,
            );
    assert(st == StaleEntries::NoChanges);
}

} // verus!
