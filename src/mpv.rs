//! What the player reports on exit: one section per played file, each with
//! the file's path and the last `AV:` status line.
use vstd::prelude::*;
use vstd::utf8::{valid_utf8, decode_utf8};
use crate::text::{
    chars_of, string_of, split_char, split_chars, views, trim, trim_chars, occurs_at,
    occurs_at_exec, sub_vec, lemma_split_char_len,
};
use crate::timestamp::{MpvStdoutError, StdoutErrorView, seconds_of, timestamp_seconds};
use crate::paths::{with_separators, normalize_path_with};

verus! {

/// Errors of starting the player or of reading its report.
#[derive(Debug)]
pub enum MpvError {
    AbsolutePathNotFound(String),
    SudoPATHNotFound,
    IoError(String),
    WebviewWindowNotFound(String),
    OsVideoNotFound(String),
    InvalidPathName(String),
    DatabaseError(crate::catalog::DatabaseError),
    StdOutError(MpvStdoutError),
}

/// Which of the two playback timestamps a value is.
#[derive(Clone, Copy, Debug, PartialEq, Eq, Structural)]
pub enum TimestampType {
    Duration,
    Position,
}

/// What the player reported of one played file.
#[derive(Clone, Debug)]
pub struct MpvPlaybackData {
    /// Path of the file played.
    pub last_video_path: String,
    /// Last position reached, in seconds.
    pub last_video_position: u64,
    /// Total duration, in seconds.
    pub last_video_duration: u64,
}

pub struct PlaybackView {
    pub path: Seq<char>,
    pub position: u64,
    pub duration: u64,
}

impl View for MpvPlaybackData {
    type V = PlaybackView;

    open spec fn view(&self) -> PlaybackView {
        PlaybackView {
            path: self.last_video_path@,
            position: self.last_video_position,
            duration: self.last_video_duration,
        }
    }
}

/// Agreement of an executable result with a result stated over views.
pub open spec fn same_result<T>(r: Result<T, MpvStdoutError>, s: Result<T, StdoutErrorView>) -> bool {
    match (r, s) {
        (Ok(a), Ok(b)) => a == b,
        (Err(a), Err(b)) => a@ == b,
        _ => false,
    }
}

impl MpvPlaybackData {
    /// No path, and both timestamps zero.
    pub fn new() -> (r: Self)
        ensures
            r@.path.len() == 0,
            r.last_video_position == 0,
            r.last_video_duration == 0,
    {
        MpvPlaybackData {
            last_video_path: String::new(),
            last_video_position: 0,
            last_video_duration: 0,
        }
    }

    /// Whole seconds of a `HH:MM:SS[.fraction]` timestamp.
    pub fn get_duration(ts: String) -> (r: Result<u64, MpvStdoutError>)
        ensures
            same_result(r, seconds_of(ts@)),
    {
        timestamp_seconds(&ts)
    }

    /// Reads a timestamp and stores it as the position or the duration.
    pub fn update_timestamp(&mut self, ts_type: TimestampType, ts: String) -> (r: Result<
        u64,
        MpvStdoutError,
    >)
        ensures
            same_result(r, seconds_of(ts@)),
            final(self).last_video_path == old(self).last_video_path,
            match r {
                Ok(v) => match ts_type {
                    TimestampType::Position => final(self).last_video_position == v
                        && final(self).last_video_duration == old(self).last_video_duration,
                    TimestampType::Duration => final(self).last_video_duration == v
                        && final(self).last_video_position == old(self).last_video_position,
                },
                Err(_) => final(self).last_video_position == old(self).last_video_position
                    && final(self).last_video_duration == old(self).last_video_duration,
            },
    {
        let v = timestamp_seconds(&ts)?;
        match ts_type {
            TimestampType::Position => self.last_video_position = v,
            TimestampType::Duration => self.last_video_duration = v,
        }
        Ok(v)
    }
}

/// A line without the `\r` that preceded its `\n`.
pub open spec fn strip_cr(l: Seq<char>) -> Seq<char> {
    if l.len() > 0 && l.last() == '\r' {
        l.drop_last()
    } else {
        l
    }
}

/// The lines of `s` as `str::lines` gives them: split at `\n`, a `\r`
/// before a `\n` dropped, no empty line after a final `\n`.
pub open spec fn lines_of(s: Seq<char>) -> Seq<Seq<char>> {
    let p = split_char(s, '\n');
    let body = p.drop_last().map_values(|l: Seq<char>| strip_cr(l));
    if p.last().len() == 0 {
        body
    } else {
        body.push(p.last())
    }
}

pub fn lines_exec(s: &Vec<char>) -> (r: Vec<Vec<char>>)
    ensures
        views(r@) == lines_of(s@),
{
    let parts = split_chars(s, '\n');
    proof {
        lemma_split_char_len(s@, '\n');
    }
    let ghost p = split_char(s@, '\n');
    let mut out: Vec<Vec<char>> = Vec::new();
    let mut i: usize = 0;
    let n = parts.len();
    while i + 1 < n
        invariant
            n == parts.len(),
            n >= 1,
            i + 1 <= n,
            views(parts@) == p,
            views(out@) == p.subrange(0, i as int).map_values(|l: Seq<char>| strip_cr(l)),
        decreases n - i,
    {
        let l = &parts[i];
        assert(views(parts@)[i as int] == l@);
        let k = l.len();
        let item = if k > 0 && l[k - 1] == '\r' {
            sub_vec(l, 0, k - 1)
        } else {
            l.clone()
        };
        assert(item@ == strip_cr(l@)) by {
            if k > 0 && l@.last() == '\r' {
                assert(l@.subrange(0, k - 1) =~= l@.drop_last());
            }
        }
        let ghost before = views(out@);
        out.push(item);
        assert(views(out@) =~= before.push(item@));
        assert(p[i as int] == l@);
        assert(views(out@) =~= p.subrange(0, i + 1).map_values(|l: Seq<char>| strip_cr(l)));
        i += 1;
    }
    assert(p.subrange(0, i as int) =~= p.drop_last());
    let last = &parts[n - 1];
    assert(views(parts@)[n - 1] == last@);
    if last.len() != 0 {
        out.push(last.clone());
        assert(views(out@) =~= lines_of(s@));
    }
    out
}

/// Whether `s` starts with `p`, and what follows it.
pub open spec fn after_prefix(s: Seq<char>, p: Seq<char>) -> Option<Seq<char>> {
    if occurs_at(s, p, 0) {
        Some(s.subrange(p.len() as int, s.len() as int))
    } else {
        None
    }
}

fn strip_prefix_exec(s: &Vec<char>, p: &Vec<char>) -> (r: Option<Vec<char>>)
    ensures
        match r {
            Some(v) => after_prefix(s@, p@) == Some(v@),
            None => after_prefix(s@, p@) is None,
        },
{
    if occurs_at_exec(s, p, 0) {
        Some(sub_vec(s, p.len(), s.len()))
    } else {
        None
    }
}

/// The text of the first line that starts with `Playing: `, after that prefix.
pub open spec fn first_playing(lines: Seq<Seq<char>>) -> Option<Seq<char>>
    decreases lines.len(),
{
    if lines.len() == 0 {
        None
    } else {
        match after_prefix(lines[0], "Playing: "@) {
            Some(rest) => Some(rest),
            None => first_playing(lines.drop_first()),
        }
    }
}

/// The text of `s` before its first `c` (all of it if there is none), if `c` occurs.
pub open spec fn before_char(s: Seq<char>, c: char) -> Option<Seq<char>> {
    if s.contains(c) {
        Some(split_char(s, c)[0])
    } else {
        None
    }
}

/// The position and duration texts of an `AV: <pos> / <dur> (<pct>%)` status line.
pub open spec fn av_fields(line: Seq<char>) -> Option<(Seq<char>, Seq<char>)> {
    match after_prefix(line, "AV: "@) {
        Some(rest) => {
            let parts = split_char(rest, '/');
            if parts.len() >= 2 {
                match before_char(trim(parts[1]), '(') {
                    Some(d) => Some((trim(parts[0]), trim(d))),
                    None => None,
                }
            } else {
                None
            }
        },
        None => None,
    }
}

/// The fields of the last line that is a complete `AV:` status line.
pub open spec fn last_av(lines: Seq<Seq<char>>) -> Option<(Seq<char>, Seq<char>)>
    decreases lines.len(),
{
    if lines.len() == 0 {
        None
    } else {
        match av_fields(lines.last()) {
            Some(f) => Some(f),
            None => last_av(lines.drop_last()),
        }
    }
}

/// The report of one section, with paths written with `sep`: the timestamps
/// of the last status line are read first, then the path must be present;
/// without a status line both timestamps are ten minutes.
pub open spec fn section_of(sect: Seq<char>, sep: char) -> Result<PlaybackView, StdoutErrorView> {
    let lines = lines_of(sect);
    let times: Result<(u64, u64), StdoutErrorView> = match last_av(lines) {
        Some((p, d)) => match seconds_of(p) {
            Err(e) => Err(e),
            Ok(pv) => match seconds_of(d) {
                Err(e) => Err(e),
                Ok(dv) => Ok((pv, dv)),
            },
        },
        None => Ok((600u64, 600u64)),
    };
    match times {
        Err(e) => Err(e),
        Ok((pv, dv)) => match first_playing(lines) {
            None => Err(StdoutErrorView::MissingVideoTitle(sect)),
            Some(path) => Ok(PlaybackView { path: with_separators(path, sep), position: pv, duration: dv }),
        },
    }
}

fn contains_exec(s: &Vec<char>, c: char) -> (r: bool)
    ensures
        r == s@.contains(c),
{
    let mut i: usize = 0;
    while i < s.len()
        invariant
            i <= s.len(),
            forall|k: int| 0 <= k < i ==> s@[k] != c,
        decreases s.len() - i,
    {
        if s[i] == c {
            assert(s@[i as int] == c);
            return true;
        }
        i += 1;
    }
    false
}

fn av_fields_exec(line: &Vec<char>) -> (r: Option<(Vec<char>, Vec<char>)>)
    ensures
        match r {
            Some((a, b)) => av_fields(line@) == Some((a@, b@)),
            None => av_fields(line@) is None,
        },
{
    let pre = chars_of("AV: ");
    match strip_prefix_exec(line, &pre) {
        Some(rest) => {
            let parts = split_chars(&rest, '/');
            assert(views(parts@).len() == parts@.len());
            if parts.len() >= 2 {
                assert(views(parts@)[0] == parts@[0]@);
                assert(views(parts@)[1] == parts@[1]@);
                let second = trim_chars(&parts[1]);
                if contains_exec(&second, '(') {
                    let pieces = split_chars(&second, '(');
                    proof {
                        lemma_split_char_len(second@, '(');
                        assert(views(pieces@)[0] == pieces@[0]@);
                    }
                    let a = trim_chars(&parts[0]);
                    let b = trim_chars(&pieces[0]);
                    Some((a, b))
                } else {
                    None
                }
            } else {
                None
            }
        },
        None => None,
    }
}

fn first_playing_exec(lines: &Vec<Vec<char>>) -> (r: Option<Vec<char>>)
    ensures
        match r {
            Some(v) => first_playing(views(lines@)) == Some(v@),
            None => first_playing(views(lines@)) is None,
        },
{
    let ghost ls = views(lines@);
    let playing = chars_of("Playing: ");
    let mut i: usize = 0;
    assert(ls.subrange(0, ls.len() as int) =~= ls);
    while i < lines.len()
        invariant
            i <= lines.len(),
            ls == views(lines@),
            playing@ == "Playing: "@,
            first_playing(ls) == first_playing(ls.subrange(i as int, ls.len() as int)),
        decreases lines.len() - i,
    {
        let ghost tail = ls.subrange(i as int, ls.len() as int);
        assert(tail[0] == lines@[i as int]@);
        assert(tail.drop_first() =~= ls.subrange(i + 1, ls.len() as int));
        match strip_prefix_exec(&lines[i], &playing) {
            Some(rest) => {
                assert(first_playing(tail) == Some(rest@));
                return Some(rest);
            },
            None => {
                assert(first_playing(tail) == first_playing(tail.drop_first()));
            },
        }
        i += 1;
    }
    assert(ls.subrange(lines.len() as int, ls.len() as int).len() == 0);
    None
}

fn last_av_exec(lines: &Vec<Vec<char>>) -> (r: Option<(Vec<char>, Vec<char>)>)
    ensures
        match r {
            Some((p, d)) => last_av(views(lines@)) == Some((p@, d@)),
            None => last_av(views(lines@)) is None,
        },
{
    let ghost ls = views(lines@);
    let mut j: usize = lines.len();
    assert(ls.subrange(0, ls.len() as int) =~= ls);
    while j > 0
        invariant
            j <= lines.len(),
            ls == views(lines@),
            last_av(ls) == last_av(ls.subrange(0, j as int)),
        decreases j,
    {
        let ghost head = ls.subrange(0, j as int);
        assert(head.last() == lines@[j - 1]@);
        assert(head.drop_last() =~= ls.subrange(0, j - 1));
        match av_fields_exec(&lines[j - 1]) {
            Some((p, d)) => {
                assert(last_av(head) == Some((p@, d@)));
                return Some((p, d));
            },
            None => {
                assert(last_av(head) == last_av(head.drop_last()));
            },
        }
        j -= 1;
    }
    assert(ls.subrange(0, 0).len() == 0);
    None
}

/// Reads one section of the player's report, writing its path with `sep`.
pub fn handle_mpv_stdout_section_with(sect: String, sep: char) -> (r: Result<
    MpvPlaybackData,
    MpvStdoutError,
>)
    ensures
        match (r, section_of(sect@, sep)) {
            (Ok(a), Ok(b)) => a@ == b,
            (Err(a), Err(b)) => a@ == b,
            _ => false,
        },
{
    let chars = chars_of(sect.as_str());
    let lines = lines_exec(&chars);
    let path = first_playing_exec(&lines);
    let mut data = MpvPlaybackData::new();
    match last_av_exec(&lines) {
        Some((p, d)) => {
            data.update_timestamp(TimestampType::Position, string_of(p.as_slice()))?;
            data.update_timestamp(TimestampType::Duration, string_of(d.as_slice()))?;
        },
        None => {
            data.last_video_position = 600;
            data.last_video_duration = 600;
        },
    }
    match path {
        Some(p) => {
            let ps = string_of(p.as_slice());
            data.last_video_path = normalize_path_with(ps.as_str(), sep);
            Ok(data)
        },
        None => Err(MpvStdoutError::MissingVideoTitle(sect)),
    }
}

/// The pieces of `s` between the non-overlapping occurrences of `pat`,
/// found left to right from position `i`, the current piece starting at `start`.
pub open spec fn split_str_from(s: Seq<char>, pat: Seq<char>, i: int, start: int) -> Seq<
    Seq<char>,
>
    decreases s.len() - i,
{
    if pat.len() == 0 || i < 0 || i + pat.len() > s.len() {
        seq![s.subrange(start, s.len() as int)]
    } else if occurs_at(s, pat, i) {
        seq![s.subrange(start, i)] + split_str_from(s, pat, i + pat.len(), i + pat.len())
    } else {
        split_str_from(s, pat, i + 1, start)
    }
}

/// The pieces of `s` between the occurrences of `pat`, as `str::split` gives them.
pub open spec fn split_str(s: Seq<char>, pat: Seq<char>) -> Seq<Seq<char>> {
    split_str_from(s, pat, 0, 0)
}

pub fn split_str_exec(s: &Vec<char>, pat: &Vec<char>) -> (r: Vec<Vec<char>>)
    requires
        pat.len() > 0,
    ensures
        views(r@) == split_str(s@, pat@),
{
    let mut parts: Vec<Vec<char>> = Vec::new();
    let mut i: usize = 0;
    let mut start: usize = 0;
    while i <= s.len() && pat.len() <= s.len() - i
        invariant
            pat.len() > 0,
            start <= i,
            i <= s.len(),
            views(parts@) + split_str_from(s@, pat@, i as int, start as int) == split_str(s@, pat@),
        decreases s.len() - i,
    {
        if occurs_at_exec(s, pat, i) {
            let piece = sub_vec(s, start, i);
            let ghost before = views(parts@);
            parts.push(piece);
            assert(views(parts@) =~= before.push(piece@));
            let ghost rest = split_str_from(s@, pat@, (i + pat.len()) as int, (i + pat.len()) as int);
            assert(before + (seq![piece@] + rest) =~= before.push(piece@) + rest);
            i = i + pat.len();
            start = i;
        } else {
            i += 1;
        }
    }
    let last = sub_vec(s, start, s.len());
    let ghost before = views(parts@);
    parts.push(last);
    assert(views(parts@) =~= before.push(last@));
    assert(before + seq![last@] =~= before.push(last@));
    parts
}

/// The sections of the player's report: each occurrence of `Playing` starts
/// one, which holds that word and the trimmed text up to the next occurrence.
pub open spec fn sections_of(s: Seq<char>) -> Seq<Seq<char>> {
    split_str(s, "Playing"@).drop_first().map_values(|p: Seq<char>| "Playing"@ + trim(p))
}

/// Every section read in order; the first that fails gives the error.
pub open spec fn sections_result(secs: Seq<Seq<char>>, sep: char) -> Result<
    Seq<PlaybackView>,
    StdoutErrorView,
>
    decreases secs.len(),
{
    if secs.len() == 0 {
        Ok(Seq::empty())
    } else {
        match sections_result(secs.drop_last(), sep) {
            Err(e) => Err(e),
            Ok(v) => match section_of(secs.last(), sep) {
                Err(e) => Err(e),
                Ok(x) => Ok(v.push(x)),
            },
        }
    }
}

/// The whole report read from the player's output bytes.
pub open spec fn report_of(bytes: Seq<u8>, sep: char) -> Result<Seq<PlaybackView>, StdoutErrorView> {
    if !valid_utf8(bytes) {
        Err(StdoutErrorView::Utf8Error)
    } else {
        sections_result(sections_of(decode_utf8(bytes)), sep)
    }
}

pub open spec fn playback_views(v: Seq<MpvPlaybackData>) -> Seq<PlaybackView> {
    v.map_values(|d: MpvPlaybackData| d@)
}

/// Relies on `String::from_utf8`: text exactly for valid UTF-8, holding the
/// decoded characters; otherwise the decoder's message.
#[verifier::external_body]
fn utf8_text(bytes: Vec<u8>) -> (r: Result<String, String>)
    ensures
        r is Ok <==> valid_utf8(bytes@),
        r matches Ok(s) ==> s@ == decode_utf8(bytes@),
{
    String::from_utf8(bytes).map_err(|e| e.to_string())
}

/// Reads the player's report, writing paths with `sep`.
pub fn parse_mpv_stdout_with(stdout: Vec<u8>, sep: char) -> (r: Result<
    Vec<MpvPlaybackData>,
    MpvStdoutError,
>)
    ensures
        match (r, report_of(stdout@, sep)) {
            (Ok(a), Ok(b)) => playback_views(a@) == b,
            (Err(a), Err(b)) => a@ == b,
            _ => false,
        },
{
    let ghost bytes = stdout@;
    let text = match utf8_text(stdout) {
        Ok(t) => t,
        Err(m) => return Err(MpvStdoutError::Utf8Error(m)),
    };
    let chars = chars_of(text.as_str());
    let word = chars_of("Playing");
    proof {
        reveal_strlit("Playing");
    }
    let pieces = split_str_exec(&chars, &word);
    let ghost secs = sections_of(chars@);
    let mut out: Vec<MpvPlaybackData> = Vec::new();
    let mut i: usize = 1;
    proof {
        assert(split_str_from(chars@, word@, 0, 0).len() >= 1) by {
            lemma_split_str_len(chars@, word@, 0, 0);
        }
        assert(secs.subrange(0, 0).len() == 0);
        assert(playback_views(out@) =~= Seq::<PlaybackView>::empty());
    }
    while i < pieces.len()
        invariant
            1 <= i <= pieces.len(),
            views(pieces@) == split_str(chars@, word@),
            word@ == "Playing"@,
            secs == sections_of(chars@),
            secs.len() == pieces.len() - 1,
            report_of(bytes, sep) == sections_result(secs, sep),
            bytes == stdout@,
            sections_result(secs.subrange(0, i - 1), sep) == Ok::<
                Seq<PlaybackView>,
                StdoutErrorView,
            >(playback_views(out@)),
        decreases pieces.len() - i,
    {
        let t = trim_chars(&pieces[i]);
        let mut sect = word.clone();
        let mut k: usize = 0;
        let ghost w = word@;
        while k < t.len()
            invariant
                k <= t.len(),
                sect@ == w + t@.subrange(0, k as int),
            decreases t.len() - k,
        {
            sect.push(t[k]);
            k += 1;
        }
        assert(t@.subrange(0, t.len() as int) =~= t@);
        assert(views(pieces@)[i as int] == pieces@[i as int]@);
        assert(sect@ == secs[i - 1]);
        let ghost prefix = secs.subrange(0, i as int);
        assert(prefix.drop_last() =~= secs.subrange(0, i - 1));
        let item = match handle_mpv_stdout_section_with(string_of(sect.as_slice()), sep) {
            Ok(x) => x,
            Err(e) => {
                proof {
                    assert(prefix.last() == secs[i - 1]);
                    assert(sections_result(prefix, sep) == Err::<Seq<PlaybackView>, StdoutErrorView>(e@));
                    lemma_sections_err(secs, i as int, sep);
                    assert(sections_result(secs, sep) == Err::<Seq<PlaybackView>, StdoutErrorView>(e@));
                    assert(report_of(bytes, sep) == Err::<Seq<PlaybackView>, StdoutErrorView>(e@));
                }
                return Err(e);
            },
        };
        let ghost before = playback_views(out@);
        out.push(item);
        assert(playback_views(out@) =~= before.push(item@));
        i += 1;
    }
    assert(secs.subrange(0, secs.len() as int) =~= secs);
    Ok(out)
}

proof fn lemma_sections_err(secs: Seq<Seq<char>>, k: int, sep: char)
    requires
        0 <= k <= secs.len(),
        sections_result(secs.subrange(0, k), sep) is Err,
    ensures
        sections_result(secs, sep) == sections_result(secs.subrange(0, k), sep),
    decreases secs.len(),
{
    if secs.len() == k {
        assert(secs.subrange(0, k) =~= secs);
    } else {
        assert(secs.drop_last().subrange(0, k) =~= secs.subrange(0, k));
        lemma_sections_err(secs.drop_last(), k, sep);
    }
}

proof fn lemma_split_str_len(s: Seq<char>, pat: Seq<char>, i: int, start: int)
    ensures
        split_str_from(s, pat, i, start).len() >= 1,
    decreases s.len() - i,
{
    if pat.len() == 0 || i < 0 || i + pat.len() > s.len() {
    } else if occurs_at(s, pat, i) {
        lemma_split_str_len(s, pat, i + pat.len(), i + pat.len());
    } else {
        lemma_split_str_len(s, pat, i + 1, start);
    }
}

/// Reads the player's report, writing paths with the platform's separator.
pub fn parse_mpv_stdout(stdout: Vec<u8>) -> (r: Result<Vec<MpvPlaybackData>, MpvStdoutError>)
    ensures
        match (r, report_of(stdout@, '/')) {
            (Ok(a), Ok(b)) => playback_views(a@) == b,
            (Err(a), Err(b)) => a@ == b,
            _ => false,
        } || match (r, report_of(stdout@, '\\')) {
            (Ok(a), Ok(b)) => playback_views(a@) == b,
            (Err(a), Err(b)) => a@ == b,
            _ => false,
        },
{
    parse_mpv_stdout_with(stdout, crate::paths::main_separator())
}

} // verus!
