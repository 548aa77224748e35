//! Natural episode order: the episode number read from a title, and a stable
//! sort of sibling videos by it.
use vstd::prelude::*;
use rayon::slice::ParallelSliceMut;
use crate::text::{chars_of};
use crate::timestamp::{parse_u64, parse_u64_spec};
use crate::model::{OsVideo, VideoView};

verus! {

#[verifier::external_type_specification]
#[verifier::external_body]
pub struct ExRegex(regex::Regex);

/// The episode-number pattern: an optional season marker or localized
/// episode/chapter/volume marker, then one to three digits followed by a CJK
/// marker, a separator or the end of the text. Case is ignored.
pub const EPISODE_PATTERN: &'static str = "(?i)(?:S\\d{1,2}[-\\s]*|(?:第|EP?|Episode|Ch|Chapter|Vol|Volume|#)?\\s*)?(\\d{1,3})(?:話|巻|章|節|[._\\-\\s]|$)";

/// Relies on `regex::Regex::captures` with `EPISODE_PATTERN`: the text of the
/// last capture group of the leftmost match, which depends on the title alone.
pub uninterp spec fn episode_capture(title: Seq<char>) -> Option<Seq<char>>;

/// Relies on `regex::Regex::new`: compiles the pattern, or fails.
#[verifier::external_body]
fn compile_regex(pattern: &str) -> (r: Option<regex::Regex>) {
    regex::Regex::new(pattern).ok()
}

/// The compiled episode-number pattern.
pub struct EpisodePattern {
    re: regex::Regex,
}

impl EpisodePattern {
    /// Compiles `EPISODE_PATTERN`.
    pub fn new() -> (r: Option<Self>) {
        match compile_regex(EPISODE_PATTERN) {
            Some(re) => Some(EpisodePattern { re }),
            None => None,
        }
    }

    /// Relies on `regex::Regex::captures` and `Captures::get`: the text of the
    /// last group of the leftmost match of `EPISODE_PATTERN`, the only pattern
    /// this type holds.
    #[verifier::external_body]
    fn capture(&self, title: &str) -> (r: Option<String>)
        ensures
            match r {
                Some(s) => episode_capture(title@) == Some(s@),
                None => episode_capture(title@) is None,
            },
    {
        self.re.captures(title).and_then(|caps| caps.get(caps.len() - 1)).map(
            |m| m.as_str().to_string(),
        )
    }

    /// The episode number of a title; 0 when it has none.
    pub fn episode_number(&self, title: &str) -> (r: u32)
        ensures
            r == episode_key(title@),
    {
        match self.capture(title) {
            Some(c) => episode_number_of_capture(&c),
            None => 0,
        }
    }
}

/// A captured digit string read as `u32::from_str` reads it; 0 when it is none.
pub open spec fn capture_number(c: Seq<char>) -> u32 {
    match parse_u64_spec(c) {
        Ok(v) => if v <= u32::MAX {
            v as u32
        } else {
            0
        },
        Err(_) => 0,
    }
}

/// The sort key of a title.
pub open spec fn episode_key(title: Seq<char>) -> u32 {
    match episode_capture(title) {
        Some(c) => capture_number(c),
        None => 0,
    }
}

/// Reads the digits that the pattern captured.
pub fn episode_number_of_capture(c: &String) -> (r: u32)
    ensures
        r == capture_number(c@),
{
    let v = chars_of(c.as_str());
    match parse_u64(&v) {
        Ok(n) => if n <= 4294967295 {
            n as u32
        } else {
            0
        },
        Err(_) => 0,
    }
}

/// Lexicographic order on (key, index) pairs.
pub open spec fn pair_le(a: (u64, usize), b: (u64, usize)) -> bool {
    a.0 < b.0 || (a.0 == b.0 && a.1 <= b.1)
}

/// Relies on rayon's `par_sort` for tuples: the same items, in ascending
/// lexicographic order.
#[verifier::external_body]
fn sort_pairs(v: &mut Vec<(u64, usize)>)
    ensures
        final(v)@.to_multiset() == old(v)@.to_multiset(),
        forall|i: int, j: int|
            0 <= i < j < final(v)@.len() ==> pair_le(#[trigger] final(v)@[i], #[trigger] final(v)@[j]),
{
    v.par_sort();
}

/// `out` is `inp` sorted by `key`, ties in their original order: `out[k]` is
/// `inp[p[k]]`, and the pairs (key, original index) strictly ascend.
pub open spec fn stable_sorted_by(inp: Seq<VideoView>, out: Seq<VideoView>, keys: Seq<u64>) -> bool {
    &&& out.len() == inp.len()
    &&& keys.len() == inp.len()
    &&& exists|p: Seq<int>| #[trigger] sort_witness(inp, out, keys, p)
}

pub open spec fn sort_witness(inp: Seq<VideoView>, out: Seq<VideoView>, keys: Seq<u64>, p: Seq<int>) -> bool {
    &&& p.len() == out.len()
    &&& forall|k: int| 0 <= k < p.len() ==> 0 <= #[trigger] p[k] < inp.len() && out[k] == inp[p[k]]
    &&& forall|k: int, l: int|
        0 <= k < l < p.len() ==> keys[#[trigger] p[k]] < keys[#[trigger] p[l]] || (keys[p[k]]
            == keys[p[l]] && p[k] < p[l])
}

pub open spec fn video_keys(v: Seq<VideoView>) -> Seq<u64> {
    v.map_values(|x: VideoView| episode_key(x.title) as u64)
}

/// `p` lists the indices of `keys` ordered by (key, index): a permutation
/// in which keys ascend and equal keys keep their order.
pub open spec fn ordered_by(keys: Seq<u64>, p: Seq<usize>) -> bool {
    &&& p.len() == keys.len()
    &&& forall|k: int| 0 <= k < p.len() ==> (#[trigger] p[k] as int) < keys.len()
    &&& forall|k: int, l: int|
        0 <= k < l < p.len() ==> keys[#[trigger] p[k] as int] < keys[#[trigger] p[l] as int] || (
        keys[p[k] as int] == keys[p[l] as int] && p[k] < p[l])
}

/// The order of `keys` by (key, index).
pub fn order_by(keys: &Vec<u64>) -> (r: Vec<usize>)
    ensures
        ordered_by(keys@, r@),
{
    let ghost ks = keys@;
    let mut pairs: Vec<(u64, usize)> = Vec::new();
    let mut i: usize = 0;
    while i < keys.len()
        invariant
            i <= keys.len(),
            ks == keys@,
            pairs@.len() == i,
            forall|k: int| 0 <= k < i ==> #[trigger] pairs@[k] == (ks[k], k as usize),
        decreases keys.len() - i,
    {
        pairs.push((keys[i], i));
        i += 1;
    }
    proof {
        assert(pairs@.no_duplicates()) by {
            assert forall|a: int, b: int| 0 <= a < pairs@.len() && 0 <= b < pairs@.len() && a != b implies pairs@[a] != pairs@[b] by {
                assert(pairs@[a].1 == a as usize);
                assert(pairs@[b].1 == b as usize);
            }
        }
        pairs@.lemma_multiset_has_no_duplicates();
    }
    let ghost before = pairs@;
    sort_pairs(&mut pairs);
    proof {
        broadcast use vstd::seq_lib::group_to_multiset_ensures;
        assert forall|x: (u64, usize)| pairs@.to_multiset().contains(x) implies pairs@.to_multiset().count(x) == 1 by {
        }
        pairs@.lemma_multiset_has_no_duplicates_conv();
        assert(pairs@.to_multiset().len() == pairs@.len());
        assert(before.to_multiset().len() == before.len());
        assert forall|k: int| 0 <= k < pairs@.len() implies before.contains(#[trigger] pairs@[k]) by {
            assert(pairs@.to_multiset().count(pairs@[k]) > 0);
        }
    }
    let mut out: Vec<usize> = Vec::new();
    let mut k: usize = 0;
    while k < pairs.len()
        invariant
            k <= pairs.len(),
            pairs@.len() == ks.len(),
            before.len() == ks.len(),
            out@.len() == k,
            forall|q: int| 0 <= q < pairs@.len() ==> before.contains(#[trigger] pairs@[q]),
            forall|q: int| 0 <= q < before.len() ==> #[trigger] before[q] == (ks[q], q as usize),
            forall|q: int| 0 <= q < k ==> #[trigger] out@[q] == pairs@[q].1,
        decreases pairs.len() - k,
    {
        out.push(pairs[k].1);
        k += 1;
    }
    proof {
        assert forall|q: int| 0 <= q < out@.len() implies (#[trigger] out@[q] as int) < ks.len() && pairs@[q] == (ks[out@[q] as int], out@[q]) by {
            let w = choose|w: int| 0 <= w < before.len() && before[w] == pairs@[q];
            assert(before[w] == (ks[w], w as usize));
        }
        assert forall|a: int, b: int| 0 <= a < b < out@.len() implies ks[#[trigger] out@[a] as int] < ks[#[trigger] out@[b] as int] || (ks[out@[a] as int] == ks[out@[b] as int] && out@[a] < out@[b]) by {
            assert(pairs@[a] == (ks[out@[a] as int], out@[a]));
            assert(pairs@[b] == (ks[out@[b] as int], out@[b]));
            assert(pair_le(pairs@[a], pairs@[b]));
            assert(pairs@[a] != pairs@[b]);
        }
    }
    out
}

/// Sorts videos by the given keys, keeping the order of equal keys.
pub fn sort_videos_by(videos: Vec<OsVideo>, keys: &Vec<u64>) -> (r: Vec<OsVideo>)
    requires
        keys@.len() == videos@.len(),
    ensures
        stable_sorted_by(crate::model::views_of_videos(videos@), crate::model::views_of_videos(r@), keys@),
{
    let ghost inp = crate::model::views_of_videos(videos@);
    let order = order_by(keys);
    let mut out: Vec<OsVideo> = Vec::new();
    let mut k: usize = 0;
    while k < order.len()
        invariant
            k <= order.len(),
            ordered_by(keys@, order@),
            keys@.len() == videos@.len(),
            inp == crate::model::views_of_videos(videos@),
            out@.len() == k,
            forall|q: int| 0 <= q < k ==> #[trigger] out@[q]@ == inp[order@[q] as int],
        decreases order.len() - k,
    {
        let idx = order[k];
        out.push(videos[idx].duplicate());
        k += 1;
    }
    proof {
        let p = Seq::new(out@.len(), |q: int| order@[q] as int);
        let outv = crate::model::views_of_videos(out@);
        assert forall|q: int| 0 <= q < p.len() implies 0 <= #[trigger] p[q] < inp.len() && outv[q] == inp[p[q]] by {
            assert((order@[q] as int) < keys@.len());
        }
        assert forall|a: int, b: int| 0 <= a < b < p.len() implies keys@[#[trigger] p[a]] < keys@[#[trigger] p[b]] || (keys@[p[a]] == keys@[p[b]] && p[a] < p[b]) by {
            assert(keys@[order@[a] as int] < keys@[order@[b] as int] || (keys@[order@[a] as int] == keys@[order@[b] as int] && order@[a] < order@[b]));
        }
        assert(sort_witness(inp, outv, keys@, p));
    }
    out
}

/// Sorts sibling videos by episode number, keeping listing order among equal numbers.
pub fn sort_videos(pattern: &EpisodePattern, videos: Vec<OsVideo>) -> (r: Vec<OsVideo>)
    ensures
        stable_sorted_by(
            crate::model::views_of_videos(videos@),
            crate::model::views_of_videos(r@),
            video_keys(crate::model::views_of_videos(videos@)),
        ),
{
    let ghost inp = crate::model::views_of_videos(videos@);
    let mut keys: Vec<u64> = Vec::new();
    let mut i: usize = 0;
    while i < videos.len()
        invariant
            i <= videos.len(),
            inp == crate::model::views_of_videos(videos@),
            keys@ == video_keys(inp).subrange(0, i as int),
        decreases videos.len() - i,
    {
        let key = pattern.episode_number(videos[i].title.as_str());
        keys.push(key as u64);
        assert(keys@ =~= video_keys(inp).subrange(0, i + 1));
        i += 1;
    }
    assert(video_keys(inp).subrange(0, videos.len() as int) =~= video_keys(inp));
    sort_videos_by(videos, &keys)
}

} // verus!
