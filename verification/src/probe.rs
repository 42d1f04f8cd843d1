//! Reading what ffprobe and ffmpeg report: stream information, the frame
//! rate fraction, and the `time=` progress field.

use vstd::prelude::*;
use crate::text::{chars_of, occurs_at, views};

verus! {

/// The fields of one ffprobe stream that the editor reads.
pub struct ProbeStream {
    pub codec_type: Option<String>,
    pub codec_name: Option<String>,
    pub width: Option<u64>,
    pub height: Option<u64>,
    pub r_frame_rate: Option<String>,
}

/// The parts of ffprobe's JSON report that the editor reads: the stream
/// list (absent when `streams` is not an array) and the container's
/// duration text.
pub struct ProbeOutput {
    pub streams: Option<Vec<ProbeStream>>,
    pub format_duration: Option<String>,
}

/// A probed video before its duration and frame-rate texts are evaluated.
pub struct ProbedVideo {
    pub path: String,
    pub duration: Option<String>,
    pub width: u32,
    pub height: u32,
    pub codec: String,
    pub frame_rate: String,
}

/// Reads the first video stream of a probe report: dimensions (0 when
/// absent, truncated to 32 bits), codec ("unknown" when absent) and frame
/// rate fraction ("0/1" when absent); fails with "No video stream found"
/// when the report lists no stream.
pub fn video_from_probe(path: &str, probe: &ProbeOutput) -> (r: Result<ProbedVideo, String>)
    ensures
        match r {
            Ok(v) => {
                &&& probe.streams matches Some(s) && s@.len() > 0
                &&& v.path@ == path@
                &&& v.duration == probe.format_duration
                &&& v.width == (match probe.streams.unwrap()@[0].width { Some(w) => w, None => 0 }) as u32
                &&& v.height == (match probe.streams.unwrap()@[0].height { Some(h) => h, None => 0 }) as u32
                &&& v.codec@ == (match probe.streams.unwrap()@[0].codec_name { Some(c) => c@, None => "unknown"@ })
                &&& v.frame_rate@ == (match probe.streams.unwrap()@[0].r_frame_rate { Some(f) => f@, None => "0/1"@ })
            },
            Err(e) => {
                &&& !(probe.streams matches Some(s) && s@.len() > 0)
                &&& e@ == "No video stream found"@
            },
        },
{
    match &probe.streams {
        Some(streams) => {
            if streams.len() == 0 {
                return Err("No video stream found".to_owned());
            }
            let stream = &streams[0];
            let width: u64 = match stream.width { Some(w) => w, None => 0 };
            let height: u64 = match stream.height { Some(h) => h, None => 0 };
            let codec = match &stream.codec_name { Some(c) => c.clone(), None => "unknown".to_owned() };
            let frame_rate = match &stream.r_frame_rate { Some(f) => f.clone(), None => "0/1".to_owned() };
            let duration = match &probe.format_duration { Some(d) => Some(d.clone()), None => None };
            Ok(ProbedVideo {
                path: path.to_owned(),
                duration,
                width: width as u32,
                height: height as u32,
                codec,
                frame_rate,
            })
        },
        None => Err("No video stream found".to_owned()),
    }
}

/// The report's first stream is an audio stream.
pub open spec fn first_stream_is_audio(probe: ProbeOutput) -> bool {
    probe.streams matches Some(s) && s@.len() > 0 && (s@[0].codec_type matches Some(t) && t@ == "audio"@)
}

/// Checks that the report's first stream is audio; fails with
/// "No audio stream found" otherwise.
pub fn audio_stream_check(probe: &ProbeOutput) -> (r: Result<(), String>)
    ensures
        r is Ok <==> first_stream_is_audio(*probe),
        r matches Err(e) ==> e@ == "No audio stream found"@,
{
    if let Some(streams) = &probe.streams {
        if streams.len() > 0 {
            if let Some(t) = &streams[0].codec_type {
                let audio = "audio".to_owned();
                if *t == audio {
                    return Ok(());
                }
            }
        }
    }
    Err("No audio stream found".to_owned())
}

/// Whether the report lists at least one stream.
pub fn has_any_stream(probe: &ProbeOutput) -> (r: bool)
    ensures
        r == (probe.streams matches Some(s) && s@.len() > 0),
{
    match &probe.streams {
        Some(s) => s.len() > 0,
        None => false,
    }
}

/// The pieces of `s` between occurrences of `sep` (one piece for a string
/// without `sep`, and a single empty piece for the empty string).
pub open spec fn split_on(s: Seq<char>, sep: char) -> Seq<Seq<char>>
    decreases s.len(),
{
    if s.len() == 0 {
        seq![Seq::empty()]
    } else {
        let p = split_on(s.drop_last(), sep);
        if s.last() == sep {
            p.push(Seq::empty())
        } else {
            p.update(p.len() - 1, p.last().push(s.last()))
        }
    }
}

/// The pieces of `s` between occurrences of `sep`.
pub fn split_chars(s: &Vec<char>, sep: char) -> (r: Vec<Vec<char>>)
    ensures
        r@.map_values(|p: Vec<char>| p@) == split_on(s@, sep),
{
    let mut r: Vec<Vec<char>> = Vec::new();
    r.push(Vec::new());
    let mut i: usize = 0;
    assert(s@.take(0) =~= Seq::<char>::empty());
    assert(r@.map_values(|p: Vec<char>| p@) =~= split_on(s@.take(0), sep));
    while i < s.len()
        invariant
            i <= s@.len(),
            r@.len() >= 1,
            r@.map_values(|p: Vec<char>| p@) == split_on(s@.take(i as int), sep),
        decreases s@.len() - i,
    {
        let c = s[i];
        let ghost before = r@.map_values(|p: Vec<char>| p@);
        assert(s@.take((i + 1) as int).drop_last() =~= s@.take(i as int));
        if c == sep {
            r.push(Vec::new());
            assert(r@.map_values(|p: Vec<char>| p@) =~= before.push(Seq::empty()));
        } else {
            let last = r.len() - 1;
            let mut piece = r.pop().unwrap();
            piece.push(c);
            r.push(piece);
            assert(r@.map_values(|p: Vec<char>| p@) =~= before.update(last as int, before[last as int].push(c)));
        }
        i = i + 1;
    }
    assert(s@.take(s@.len() as int) =~= s@);
    r
}

fn string_of(v: &Vec<char>) -> (r: String)
    ensures
        r@ == v@,
{
    let mut r = String::new();
    let mut i: usize = 0;
    while i < v.len()
        invariant
            i <= v@.len(),
            r@ == v@.take(i as int),
        decreases v@.len() - i,
    {
        r.push(v[i]);
        assert(r@ =~= v@.take((i + 1) as int));
        i = i + 1;
    }
    assert(v@.take(v@.len() as int) =~= v@);
    r
}

/// The numerator and denominator texts of a frame rate such as
/// "30000/1001": `Some` exactly when the text has one '/'.
pub fn split_frame_rate(rate: &str) -> (r: Option<(String, String)>)
    ensures
        match r {
            Some((n, d)) => split_on(rate@, '/').len() == 2 && n@ == split_on(rate@, '/')[0]
                && d@ == split_on(rate@, '/')[1],
            None => split_on(rate@, '/').len() != 2,
        },
{
    let cs = chars_of(rate);
    let parts = split_chars(&cs, '/');
    if parts.len() == 2 {
        Some((string_of(&parts[0]), string_of(&parts[1])))
    } else {
        None
    }
}

/// The first position at or after `i` where `pat` occurs in `s`.
pub open spec fn find_from(s: Seq<char>, pat: Seq<char>, i: int) -> Option<int>
    decreases s.len() + 1 - i,
{
    if i < 0 || i + pat.len() > s.len() {
        None
    } else if occurs_at(s, pat, i) {
        Some(i)
    } else {
        find_from(s, pat, i + 1)
    }
}

/// The text after the first "time=" up to the next space (or the end).
pub open spec fn time_field(line: Seq<char>) -> Option<Seq<char>> {
    match find_from(line, "time="@, 0) {
        Some(i) => {
            let rest = line.skip(i + 5);
            match find_from(rest, seq![' '], 0) {
                Some(e) => Some(rest.take(e)),
                None => Some(rest),
            }
        },
        None => None,
    }
}

/// The hours, minutes and seconds texts of the progress time that ffmpeg
/// prints as `time=HH:MM:SS.ss`: `Some` exactly when the line has a
/// "time=" field made of three ':'-separated parts.
pub open spec fn time_fields_spec(line: Seq<char>) -> Option<(Seq<char>, Seq<char>, Seq<char>)> {
    match time_field(line) {
        Some(f) => {
            let parts = split_on(f, ':');
            if parts.len() == 3 { Some((parts[0], parts[1], parts[2])) } else { None }
        },
        None => None,
    }
}

/// Finds `pat` in `s` at or after `from`.
fn find_chars(s: &Vec<char>, pat: &Vec<char>, from: usize) -> (r: Option<usize>)
    requires
        from <= s@.len(),
    ensures
        match r {
            Some(i) => find_from(s@, pat@, from as int) == Some(i as int) && i + pat@.len() <= s@.len(),
            None => find_from(s@, pat@, from as int) is None,
        },
    decreases s@.len() - from,
{
    let n = s.len();
    if pat.len() > s.len() - from {
        return None;
    }
    let mut k: usize = 0;
    let mut ok = true;
    while k < pat.len()
        invariant
            n == s@.len(),
            from + pat@.len() <= s@.len(),
            k <= pat@.len(),
            ok <==> (forall|j: int| 0 <= j < k ==> s@[from + j] == pat@[j]),
        decreases pat@.len() - k,
    {
        if s[from + k] != pat[k] {
            ok = false;
        }
        k = k + 1;
    }
    proof {
        if ok {
            assert(s@.subrange(from as int, from + pat@.len()) =~= pat@);
        } else {
            let j = choose|j: int| 0 <= j < pat@.len() && s@[from + j] != pat@[j];
            assert(s@.subrange(from as int, from + pat@.len())[j] != pat@[j]);
        }
    }
    if ok {
        Some(from)
    } else if from < s.len() {
        find_chars(s, pat, from + 1)
    } else {
        None
    }
}

/// Extracts the hours, minutes and seconds texts of ffmpeg's `time=` field
/// (see `time_fields_spec`).
pub fn ffmpeg_time_fields(line: &str) -> (r: Option<(String, String, String)>)
    ensures
        match r {
            Some((h, m, s)) => time_fields_spec(line@) == Some((h@, m@, s@)),
            None => time_fields_spec(line@) is None,
        },
{
    let cs = chars_of(line);
    let key = chars_of("time=");
    proof {
        reveal_strlit("time=");
    }
    assert(key@.len() == 5);
    let idx = match find_chars(&cs, &key, 0) {
        Some(i) => i,
        None => return None,
    };
    let mut rest: Vec<char> = Vec::new();
    let n = cs.len();
    assert(idx + 5 <= n);
    let mut j: usize = idx + 5;
    while j < cs.len()
        invariant
            idx + 5 <= j <= cs@.len(),
            rest@ == cs@.subrange(idx + 5, j as int),
        decreases cs@.len() - j,
    {
        rest.push(cs[j]);
        assert(rest@ =~= cs@.subrange(idx + 5, (j + 1) as int));
        j = j + 1;
    }
    assert(rest@ =~= cs@.skip(idx + 5));
    let space: Vec<char> = vec![' '];
    assert(space@ =~= seq![' ']);
    let field: Vec<char> = match find_chars(&rest, &space, 0) {
        Some(e) => {
            let mut f: Vec<char> = Vec::new();
            let mut k: usize = 0;
            while k < e
                invariant
                    k <= e,
                    e <= rest@.len(),
                    f@ == rest@.take(k as int),
                decreases e - k,
            {
                f.push(rest[k]);
                assert(f@ =~= rest@.take((k + 1) as int));
                k = k + 1;
            }
            f
        },
        None => rest,
    };
    assert(time_field(line@) == Some(field@));
    let parts = split_chars(&field, ':');
    if parts.len() == 3 {
        assert(parts@.map_values(|p: Vec<char>| p@)[0] == parts@[0]@);
        assert(parts@.map_values(|p: Vec<char>| p@)[1] == parts@[1]@);
        assert(parts@.map_values(|p: Vec<char>| p@)[2] == parts@[2]@);
        Some((string_of(&parts[0]), string_of(&parts[1]), string_of(&parts[2])))
    } else {
        None
    }
}

/// ffprobe arguments that report the container and the first stream
/// selected by `streams` ("v:0" for video, "a:0" for audio) as JSON.
pub fn probe_args(streams: &str, path: &str) -> (r: Vec<String>)
    ensures
        views(r@) == seq!["-v"@, "quiet"@, "-print_format"@, "json"@, "-show_format"@,
            "-show_streams"@, "-select_streams"@, streams@, path@],
{
    let mut r: Vec<String> = Vec::new();
    r.push("-v".to_owned());
    r.push("quiet".to_owned());
    r.push("-print_format".to_owned());
    r.push("json".to_owned());
    r.push("-show_format".to_owned());
    r.push("-show_streams".to_owned());
    r.push("-select_streams".to_owned());
    r.push(streams.to_owned());
    r.push(path.to_owned());
    assert(views(r@) =~= seq!["-v"@, "quiet"@, "-print_format"@, "json"@, "-show_format"@,
        "-show_streams"@, "-select_streams"@, streams@, path@]);
    r
}

/// ffprobe arguments that list all audio streams as JSON.
pub fn audio_streams_probe_args(path: &str) -> (r: Vec<String>)
    ensures
        views(r@) == seq!["-v"@, "quiet"@, "-print_format"@, "json"@, "-show_streams"@,
            "-select_streams"@, "a"@, path@],
{
    let mut r: Vec<String> = Vec::new();
    r.push("-v".to_owned());
    r.push("quiet".to_owned());
    r.push("-print_format".to_owned());
    r.push("json".to_owned());
    r.push("-show_streams".to_owned());
    r.push("-select_streams".to_owned());
    r.push("a".to_owned());
    r.push(path.to_owned());
    assert(views(r@) =~= seq!["-v"@, "quiet"@, "-print_format"@, "json"@, "-show_streams"@,
        "-select_streams"@, "a"@, path@]);
    r
}

} // verus!
