//! Planning an export: which files are written, their names, the dubbed
//! tracks of each segment, the concat list and merge command, and the
//! error message of a failed FFmpeg run.

use vstd::prelude::*;
use crate::text::{
    contains, dec, forward_slashes, join, views, zpad, push_dec, push_zpad, join_strings,
    push_forward_slashes, str_contains,
};
use crate::export::AudioTrack;

verus! {

/// How an export proceeds once the side subtitle file (if any) is written.
#[derive(Clone, Copy, Debug, PartialEq, Eq, Structural)]
pub enum ExportFlow {
    /// No segments: only the subtitle file is produced.
    SubtitlesOnly,
    /// One segment written straight to the output path.
    SingleFile,
    /// Each segment cut to a temporary file, then copied next to the output
    /// as `<stem>_001.<ext>`, `<stem>_002.<ext>`, ...
    SeparateFiles,
    /// Each segment cut to a temporary file, then all concatenated.
    Merged,
}

/// Export flow: subtitles only when there are no segments but subtitles
/// that are not burned in; a single file for one unmerged segment;
/// separate files when not merging; otherwise a merge.
pub open spec fn export_flow_spec(segment_count: nat, has_subtitles: bool, burn_subtitles: bool, merge: bool) -> ExportFlow {
    if segment_count == 0 && has_subtitles && !burn_subtitles {
        ExportFlow::SubtitlesOnly
    } else if segment_count == 1 && !merge {
        ExportFlow::SingleFile
    } else if !merge {
        ExportFlow::SeparateFiles
    } else {
        ExportFlow::Merged
    }
}

/// Decides the export flow (see `export_flow_spec`).
pub fn export_flow(segment_count: usize, has_subtitles: bool, burn_subtitles: bool, merge: bool) -> (f: ExportFlow)
    ensures
        f == export_flow_spec(segment_count as nat, has_subtitles, burn_subtitles, merge),
{
    if segment_count == 0 && has_subtitles && !burn_subtitles {
        ExportFlow::SubtitlesOnly
    } else if segment_count == 1 && !merge {
        ExportFlow::SingleFile
    } else if !merge {
        ExportFlow::SeparateFiles
    } else {
        ExportFlow::Merged
    }
}

/// A subtitle file is written beside the video exactly when there are
/// subtitles and they are not burned into the picture.
pub fn writes_subtitle_file(has_subtitles: bool, burn_subtitles: bool) -> (r: bool)
    ensures
        r == (has_subtitles && !burn_subtitles),
{
    has_subtitles && !burn_subtitles
}

/// Segments go to temporary files when merging or when there are several.
pub fn segment_goes_to_temp_file(merge: bool, segment_count: usize) -> (r: bool)
    ensures
        r == (merge || segment_count > 1),
{
    merge || segment_count > 1
}

/// Name of the temporary file of segment `index`: `segment_0007.mp4`.
pub fn segment_file_name(index: usize) -> (r: String)
    ensures
        r@ == "segment_"@ + zpad(index as nat, 4) + ".mp4"@,
{
    let mut s = "segment_".to_owned();
    push_zpad(&mut s, index as u64, 4);
    s.push_str(".mp4");
    s
}

/// Name of the temporary subtitle file of segment `index`: `sub_7.srt`.
pub fn segment_subtitle_file_name(index: usize) -> (r: String)
    ensures
        r@ == "sub_"@ + dec(index as nat) + ".srt"@,
{
    let mut s = "sub_".to_owned();
    push_dec(&mut s, index as u64);
    s.push_str(".srt");
    s
}

/// `<stem>_<number, at least three digits>.<ext>`, e.g. `clip_001.mp4`.
pub fn numbered_file_name(stem: &str, number: usize, ext: &str) -> (r: String)
    ensures
        r@ == stem@ + "_"@ + zpad(number as nat, 3) + "."@ + ext@,
{
    let mut s = stem.to_owned();
    s.push_str("_");
    push_zpad(&mut s, number as u64, 3);
    s.push_str(".");
    s.push_str(ext);
    s
}

/// The dubbed tracks that belong to a segment, in order.
pub open spec fn segment_tracks(tracks: Seq<AudioTrack>, segment_id: Seq<char>) -> Seq<AudioTrack>
    decreases tracks.len(),
{
    if tracks.len() == 0 {
        Seq::empty()
    } else {
        let rest = segment_tracks(tracks.drop_last(), segment_id);
        if tracks.last().segment_id@ == segment_id {
            rest.push(tracks.last())
        } else {
            rest
        }
    }
}

/// References to the tracks whose segment id is `segment_id`.
pub fn tracks_for_segment<'a>(tracks: &'a [AudioTrack], segment_id: &String) -> (r: Vec<&'a AudioTrack>)
    ensures
        r@.map_values(|t: &AudioTrack| *t) == segment_tracks(tracks@, segment_id@),
{
    let mut r: Vec<&'a AudioTrack> = Vec::new();
    let mut i: usize = 0;
    assert(tracks@.take(0) =~= Seq::<AudioTrack>::empty());
    while i < tracks.len()
        invariant
            i <= tracks@.len(),
            r@.map_values(|t: &AudioTrack| *t) == segment_tracks(tracks@.take(i as int), segment_id@),
        decreases tracks@.len() - i,
    {
        let t = &tracks[i];
        let ghost before = r@;
        assert(tracks@.take((i + 1) as int).drop_last() =~= tracks@.take(i as int));
        if t.segment_id == *segment_id {
            r.push(t);
            assert(r@.map_values(|t: &AudioTrack| *t) =~= before.map_values(|t: &AudioTrack| *t).push(tracks@[i as int]));
        }
        i = i + 1;
    }
    assert(tracks@.take(tracks@.len() as int) =~= tracks@);
    r
}

/// One concat-list line per file, with backslashes turned into '/'.
pub open spec fn concat_lines(files: Seq<Seq<char>>) -> Seq<Seq<char>> {
    files.map_values(|f: Seq<char>| "file '"@ + forward_slashes(f) + "'"@)
}

/// Contents of the FFmpeg concat list for the segment files, in order.
pub fn concat_list(files: &Vec<String>) -> (r: String)
    ensures
        r@ == join(concat_lines(views(files@)), "\n"@),
{
    let mut lines: Vec<String> = Vec::new();
    let mut i: usize = 0;
    while i < files.len()
        invariant
            i <= files@.len(),
            views(lines@) == concat_lines(views(files@)).take(i as int),
        decreases files@.len() - i,
    {
        let mut line = "file '".to_owned();
        push_forward_slashes(&mut line, files[i].as_str());
        line.push_str("'");
        assert(line@ =~= "file '"@ + forward_slashes(files@[i as int]@) + "'"@);
        assert(views(files@)[i as int] == files@[i as int]@);
        assert(concat_lines(views(files@))[i as int] == "file '"@ + forward_slashes(files@[i as int]@) + "'"@);
        let ghost before = views(lines@);
        lines.push(line);
        assert(views(lines@) =~= before.push("file '"@ + forward_slashes(files@[i as int]@) + "'"@));
        assert(views(lines@) =~= concat_lines(views(files@)).take((i + 1) as int));
        i = i + 1;
    }
    assert(concat_lines(views(files@)).take(files@.len() as int) =~= concat_lines(views(files@)));
    join_strings(&lines, "\n")
}

/// Arguments of the FFmpeg run that concatenates the segment files listed
/// in `list_path` into `output_path` without re-encoding.
pub fn merge_args(list_path: &str, output_path: &str) -> (r: Vec<String>)
    ensures
        views(r@) == seq!["-y"@, "-f"@, "concat"@, "-safe"@, "0"@, "-i"@, list_path@, "-c"@, "copy"@, output_path@],
{
    let mut r: Vec<String> = Vec::new();
    r.push("-y".to_owned());
    r.push("-f".to_owned());
    r.push("concat".to_owned());
    r.push("-safe".to_owned());
    r.push("0".to_owned());
    r.push("-i".to_owned());
    r.push(list_path.to_owned());
    r.push("-c".to_owned());
    r.push("copy".to_owned());
    r.push(output_path.to_owned());
    assert(views(r@) =~= seq!["-y"@, "-f"@, "concat"@, "-safe"@, "0"@, "-i"@, list_path@, "-c"@, "copy"@, output_path@]);
    r
}

/// Progress message while segment `index` (counted from zero) of `total`
/// is being cut.
pub fn cutting_message(index: usize, total: usize) -> (r: String)
    requires
        index < usize::MAX,
    ensures
        r@ == "Cutting segment "@ + dec((index + 1) as nat) + " of "@ + dec(total as nat),
{
    let mut r = "Cutting segment ".to_owned();
    push_dec(&mut r, (index + 1) as u64);
    r.push_str(" of ");
    push_dec(&mut r, total as u64);
    r
}

/// Final message of an export into separate files.
pub fn separate_files_message(total: usize) -> (r: String)
    ensures
        r@ == "Exported "@ + dec(total as nat) + " separate files"@,
{
    let mut r = "Exported ".to_owned();
    push_dec(&mut r, total as u64);
    r.push_str(" separate files");
    r
}

/// A line that reports a problem: it mentions "Error", "error" or "Invalid".
pub open spec fn is_error_line(l: Seq<char>) -> bool {
    contains(l, "Error"@) || contains(l, "error"@) || contains(l, "Invalid"@)
}

/// The lines that report a problem, in order.
pub open spec fn error_lines(lines: Seq<Seq<char>>) -> Seq<Seq<char>>
    decreases lines.len(),
{
    if lines.len() == 0 {
        Seq::empty()
    } else {
        let rest = error_lines(lines.drop_last());
        if is_error_line(lines.last()) { rest.push(lines.last()) } else { rest }
    }
}

/// At most the first `n` elements.
pub open spec fn first_n<T>(s: Seq<T>, n: nat) -> Seq<T> {
    if s.len() <= n { s } else { s.take(n as int) }
}

/// The gist of FFmpeg's error output: its first three problem lines, or,
/// when none, its first ten lines, joined with " | ".
pub open spec fn failure_summary(lines: Seq<Seq<char>>) -> Seq<char> {
    let errors = error_lines(lines);
    if errors.len() == 0 {
        join(first_n(lines, 10), " | "@)
    } else {
        join(first_n(errors, 3), " | "@)
    }
}

/// The error reported when FFmpeg fails on segment `index` (counted from
/// zero), given the lines it wrote to its error output.
pub fn ffmpeg_failure_message(index: usize, stderr_lines: &Vec<String>) -> (r: String)
    requires
        index < usize::MAX,
    ensures
        r@ == "FFmpeg failed on segment "@ + dec((index + 1) as nat) + ": "@ + failure_summary(views(stderr_lines@)),
{
    let ghost lv = views(stderr_lines@);
    let mut errors: Vec<String> = Vec::new();
    let mut first: Vec<String> = Vec::new();
    let mut i: usize = 0;
    assert(lv.take(0) =~= Seq::<Seq<char>>::empty());
    while i < stderr_lines.len()
        invariant
            i <= stderr_lines@.len(),
            lv == views(stderr_lines@),
            views(errors@) == first_n(error_lines(lv.take(i as int)), 3),
            views(first@) == first_n(lv.take(i as int), 10),
        decreases stderr_lines@.len() - i,
    {
        let line = stderr_lines[i].as_str();
        assert(lv.take((i + 1) as int).drop_last() =~= lv.take(i as int));
        let is_err = str_contains(line, "Error") || str_contains(line, "error") || str_contains(line, "Invalid");
        proof {
            lemma_first_n_push(error_lines(lv.take(i as int)), lv[i as int], 3);
            lemma_first_n_push(lv.take(i as int), lv[i as int], 10);
            assert(lv.take((i + 1) as int) =~= lv.take(i as int).push(lv[i as int]));
        }
        if is_err && errors.len() < 3 {
            errors.push(stderr_lines[i].clone());
        }
        if first.len() < 10 {
            first.push(stderr_lines[i].clone());
        }
        assert(views(errors@) =~= first_n(error_lines(lv.take((i + 1) as int)), 3));
        assert(views(first@) =~= first_n(lv.take((i + 1) as int), 10));
        i = i + 1;
    }
    assert(lv.take(stderr_lines@.len() as int) =~= lv);
    let summary = if errors.len() == 0 {
        proof {
            lemma_first_n_empty(error_lines(lv), 3);
        }
        join_strings(&first, " | ")
    } else {
        join_strings(&errors, " | ")
    };
    let mut r = "FFmpeg failed on segment ".to_owned();
    push_dec(&mut r, (index + 1) as u64);
    r.push_str(": ");
    r.push_str(summary.as_str());
    r
}

proof fn lemma_first_n_push<T>(s: Seq<T>, x: T, n: nat)
    ensures
        first_n(s.push(x), n) == (if first_n(s, n).len() < n { first_n(s, n).push(x) } else { first_n(s, n) }),
{
    if s.len() < n {
        assert(first_n(s.push(x), n) =~= s.push(x));
    } else {
        assert(s.push(x).take(n as int) =~= s.take(n as int));
    }
}

proof fn lemma_first_n_empty<T>(s: Seq<T>, n: nat)
    requires
        n > 0,
        first_n(s, n).len() == 0,
    ensures
        s.len() == 0,
{
}


/// One segment exported without merging always goes straight to the chosen
/// output file, whatever the subtitle settings; several unmerged segments
/// become separate files; any merge with segments is a merge; only an
/// export without segments of subtitles kept beside the video is a subtitle
/// file alone.
pub proof fn law_export_flow_follows_segments(segment_count: nat, has_subtitles: bool, burn_subtitles: bool, merge: bool)
    ensures
        segment_count == 1 && !merge ==> export_flow_spec(segment_count, has_subtitles, burn_subtitles, merge)
            == ExportFlow::SingleFile,
        segment_count > 1 && !merge ==> export_flow_spec(segment_count, has_subtitles, burn_subtitles, merge)
            == ExportFlow::SeparateFiles,
        segment_count > 0 && merge ==> export_flow_spec(segment_count, has_subtitles, burn_subtitles, merge)
            == ExportFlow::Merged,
        (export_flow_spec(segment_count, has_subtitles, burn_subtitles, merge) == ExportFlow::SubtitlesOnly)
            <==> (segment_count == 0 && has_subtitles && !burn_subtitles),
{
}

} // verus!
