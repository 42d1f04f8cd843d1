//! Segments and subtitles on the video timeline, subtitle clipping and
//! remapping for exported files, and SRT rendering. Times are integer
//! milliseconds.

use vstd::prelude::*;
use crate::text::{dec, zpad, views, push_dec, push_zpad, chars_of};

verus! {

/// Largest magnitude of a time in milliseconds (2^60 - 1, about 36 million
/// years); sums of three such values fit in an `i64`.
pub const MAX_MS: i64 = 1_152_921_504_606_846_975;

/// A time in milliseconds within `MAX_MS` of zero.
pub open spec fn ms_ok(t: i64) -> bool {
    -MAX_MS <= t <= MAX_MS
}

/// A kept part of the input video, from `start` to `end` (milliseconds).
pub struct Segment {
    pub id: String,
    pub start: i64,
    pub end: i64,
}

/// A subtitle shown from `start` to `end` (milliseconds).
pub struct Subtitle {
    pub start: i64,
    pub end: i64,
    pub text: String,
}

/// The larger of two integers.
pub open spec fn max_int(a: int, b: int) -> int {
    if a > b { a } else { b }
}

/// The smaller of two integers.
pub open spec fn min_int(a: int, b: int) -> int {
    if a < b { a } else { b }
}

/// Hours, minutes, seconds and milliseconds of a non-negative time in SRT
/// form `HH:MM:SS,mmm`; negative times show as zero and the hour count
/// saturates at `u32::MAX`.
pub open spec fn srt_time(ms: int) -> Seq<char> {
    let m = if ms < 0 { 0 } else { ms };
    let hours = min_int(m / 3_600_000, 4_294_967_295);
    zpad(hours as nat, 2) + ":"@ + zpad(((m % 3_600_000) / 60_000) as nat, 2) + ":"@
        + zpad(((m % 60_000) / 1000) as nat, 2) + ","@ + zpad((m % 1000) as nat, 3)
}

/// Formats a time in milliseconds as an SRT timestamp (`HH:MM:SS,mmm`).
pub fn format_time_srt(ms: i64) -> (r: String)
    ensures
        r@ == srt_time(ms as int),
{
    let m: u64 = if ms < 0 { 0 } else { ms as u64 };
    let hours: u64 = if m / 3_600_000 < 4_294_967_295 { m / 3_600_000 } else { 4_294_967_295 };
    let mut s = String::new();
    push_zpad(&mut s, hours, 2);
    s.push_str(":");
    push_zpad(&mut s, (m % 3_600_000) / 60_000, 2);
    s.push_str(":");
    push_zpad(&mut s, (m % 60_000) / 1000, 2);
    s.push_str(",");
    push_zpad(&mut s, m % 1000, 3);
    assert(s@ =~= srt_time(ms as int));
    s
}

/// One numbered SRT entry: index, time range, text, blank line.
pub open spec fn srt_entry(number: nat, sub: Subtitle) -> Seq<char> {
    dec(number) + "\n"@ + srt_time(sub.start as int) + " --> "@ + srt_time(sub.end as int) + "\n"@
        + sub.text@ + "\n\n"@
}

/// An SRT document with the subtitles numbered from 1 in order.
pub open spec fn srt_document(subs: Seq<Subtitle>) -> Seq<char>
    decreases subs.len(),
{
    if subs.len() == 0 {
        Seq::empty()
    } else {
        srt_document(subs.drop_last()) + srt_entry(subs.len(), subs.last())
    }
}

fn push_srt_entry(s: &mut String, number: u64, sub: &Subtitle)
    ensures
        final(s)@ == old(s)@ + srt_entry(number as nat, *sub),
{
    let ghost before = s@;
    push_dec(s, number);
    s.push_str("\n");
    s.push_str(format_time_srt(sub.start).as_str());
    s.push_str(" --> ");
    s.push_str(format_time_srt(sub.end).as_str());
    s.push_str("\n");
    s.push_str(sub.text.as_str());
    s.push_str("\n\n");
    assert(s@ =~= before + srt_entry(number as nat, *sub));
}

/// Renders subtitles as the contents of an SRT file.
pub fn srt_content(subtitles: &[Subtitle]) -> (r: String)
    ensures
        r@ == srt_document(subtitles@),
{
    let mut s = String::new();
    let mut i: usize = 0;
    assert(subtitles@.take(0) =~= Seq::<Subtitle>::empty());
    while i < subtitles.len()
        invariant
            i <= subtitles@.len(),
            s@ == srt_document(subtitles@.take(i as int)),
        decreases subtitles@.len() - i,
    {
        let ghost before = s@;
        push_srt_entry(&mut s, (i + 1) as u64, &subtitles[i]);
        assert(subtitles@.take((i + 1) as int).drop_last() =~= subtitles@.take(i as int));
        assert(s@ =~= before + srt_entry((i + 1) as nat, subtitles@[i as int]));
        i = i + 1;
    }
    assert(subtitles@.take(subtitles@.len() as int) =~= subtitles@);
    s
}

/// The part of `sub` inside the segment `seg_start..seg_end`, moved so
/// that the segment starts at `offset` (times below zero become zero);
/// `None` when nothing of it is inside.
pub open spec fn clip_subtitle(sub: Subtitle, seg_start: int, seg_end: int, offset: int) -> Option<Subtitle> {
    let clipped_start = min_int(max_int(sub.start as int, seg_start), seg_end);
    let clipped_end = max_int(min_int(sub.end as int, seg_end), seg_start);
    if clipped_end <= clipped_start {
        None
    } else {
        Some(Subtitle {
            start: max_int(clipped_start - seg_start + offset, 0) as i64,
            end: max_int(clipped_end - seg_start + offset, 0) as i64,
            text: sub.text,
        })
    }
}

/// The clipped and moved subtitles that overlap the segment, in order.
pub open spec fn clip_subtitles_spec(subs: Seq<Subtitle>, seg_start: int, seg_end: int, offset: int) -> Seq<Subtitle>
    decreases subs.len(),
{
    if subs.len() == 0 {
        Seq::empty()
    } else {
        let rest = clip_subtitles_spec(subs.drop_last(), seg_start, seg_end, offset);
        match clip_subtitle(subs.last(), seg_start, seg_end, offset) {
            Some(c) => rest.push(c),
            None => rest,
        }
    }
}

/// Times of a subtitle are within range.
pub open spec fn subtitle_ok(s: Subtitle) -> bool {
    ms_ok(s.start) && ms_ok(s.end)
}

/// Subtitles overlapping `seg_start..seg_end`, clipped to it and moved so
/// that the segment starts at `offset`.
pub fn clip_subtitles(subtitles: &[Subtitle], seg_start: i64, seg_end: i64, offset: i64) -> (r: Vec<Subtitle>)
    requires
        forall|j: int| 0 <= j < subtitles@.len() ==> subtitle_ok(subtitles@[j]),
        ms_ok(seg_start),
        ms_ok(seg_end),
        ms_ok(offset),
    ensures
        r@ == clip_subtitles_spec(subtitles@, seg_start as int, seg_end as int, offset as int),
{
    let mut r: Vec<Subtitle> = Vec::new();
    let mut i: usize = 0;
    assert(subtitles@.take(0) =~= Seq::<Subtitle>::empty());
    while i < subtitles.len()
        invariant
            i <= subtitles@.len(),
            forall|j: int| 0 <= j < subtitles@.len() ==> subtitle_ok(subtitles@[j]),
            ms_ok(seg_start),
            ms_ok(seg_end),
            ms_ok(offset),
            r@ == clip_subtitles_spec(subtitles@.take(i as int), seg_start as int, seg_end as int, offset as int),
        decreases subtitles@.len() - i,
    {
        let sub = &subtitles[i];
        assert(subtitle_ok(subtitles@[i as int]));
        let lo = if sub.start > seg_start { sub.start } else { seg_start };
        let clipped_start = if lo < seg_end { lo } else { seg_end };
        let hi = if sub.end < seg_end { sub.end } else { seg_end };
        let clipped_end = if hi > seg_start { hi } else { seg_start };
        assert(subtitles@.take((i + 1) as int).drop_last() =~= subtitles@.take(i as int));
        if clipped_end > clipped_start {
            let a = clipped_start - seg_start + offset;
            let b = clipped_end - seg_start + offset;
            r.push(Subtitle {
                start: if a > 0 { a } else { 0 },
                end: if b > 0 { b } else { 0 },
                text: sub.text.clone(),
            });
        }
        i = i + 1;
    }
    assert(subtitles@.take(subtitles@.len() as int) =~= subtitles@);
    r
}

/// Total length of the first `k` segments (end minus start, summed).
pub open spec fn offset_before(segs: Seq<Segment>, k: int) -> int
    decreases k,
{
    if k <= 0 {
        0
    } else {
        offset_before(segs, k - 1) + (segs[k - 1].end - segs[k - 1].start)
    }
}

/// Subtitles placed on the merged timeline: for each segment in turn, the
/// subtitles overlapping it, clipped and moved by the length of all earlier
/// segments.
pub open spec fn remapped_subtitles(subs: Seq<Subtitle>, segs: Seq<Segment>) -> Seq<Subtitle>
    decreases segs.len(),
{
    if segs.len() == 0 {
        Seq::empty()
    } else {
        let k = segs.len() - 1;
        remapped_subtitles(subs, segs.drop_last()) + clip_subtitles_spec(
            subs,
            segs[k].start as int,
            segs[k].end as int,
            offset_before(segs, k),
        )
    }
}

/// `x` placed after every element of `s` whose start is not later than its own,
/// scanning from the back.
pub open spec fn insert_by_start(s: Seq<Subtitle>, x: Subtitle) -> Seq<Subtitle>
    decreases s.len(),
{
    if s.len() == 0 {
        seq![x]
    } else if s.last().start > x.start {
        insert_by_start(s.drop_last(), x).push(s.last())
    } else {
        s.push(x)
    }
}

/// Stable sort by start time: ordered by start, and subtitles with equal
/// starts keep their relative order.
pub open spec fn sort_by_start(s: Seq<Subtitle>) -> Seq<Subtitle>
    decreases s.len(),
{
    if s.len() == 0 {
        Seq::empty()
    } else {
        insert_by_start(sort_by_start(s.drop_last()), s.last())
    }
}

proof fn lemma_insert_at(s: Seq<Subtitle>, x: Subtitle, j: int)
    requires
        0 <= j <= s.len(),
        forall|k: int| j <= k < s.len() ==> s[k].start > x.start,
        j > 0 ==> s[j - 1].start <= x.start,
    ensures
        insert_by_start(s, x) == s.take(j) + seq![x] + s.skip(j),
    decreases s.len(),
{
    if s.len() == 0 {
        assert(s.take(j) + seq![x] + s.skip(j) =~= seq![x]);
    } else if s.last().start > x.start {
        lemma_insert_at(s.drop_last(), x, j);
        assert(s.drop_last().take(j) =~= s.take(j));
        assert(s.take(j) + seq![x] + s.skip(j) =~= (s.drop_last().take(j) + seq![x] + s.drop_last().skip(j)).push(s.last()));
    } else {
        assert(j == s.len());
        assert(s.take(j) + seq![x] + s.skip(j) =~= s.push(x));
    }
}

/// Sorts subtitles by start time, keeping the order of equal starts.
pub fn sort_subtitles_by_start(v: Vec<Subtitle>) -> (r: Vec<Subtitle>)
    ensures
        r@ == sort_by_start(v@),
{
    let mut r: Vec<Subtitle> = Vec::new();
    let mut rest = v;
    let ghost orig = rest@;
    let mut rev: Vec<Subtitle> = Vec::new();
    while rest.len() > 0
        invariant
            rev@ + rest@.reverse() == orig.reverse(),
        decreases rest.len(),
    {
        let x = rest.pop().unwrap();
        let ghost before = rest@;
        assert(rev@.push(x) + before.reverse() =~= rev@ + (before.push(x)).reverse());
        rev.push(x);
    }
    assert(rest@.reverse() =~= Seq::<Subtitle>::empty());
    assert(rev@ =~= orig.reverse());
    let n = rev.len();
    let mut i: usize = 0;
    assert(orig.take(0) =~= Seq::<Subtitle>::empty());
    while rev.len() > 0
        invariant
            i + rev.len() == n,
            n == orig.len(),
            rev@ =~= orig.skip(i as int).reverse(),
            r@ == sort_by_start(orig.take(i as int)),
        decreases rev.len(),
    {
        let x = rev.pop().unwrap();
        assert(x == orig[i as int]) by {
            assert(orig.skip(i as int).reverse().last() == orig.skip(i as int)[0]);
        }
        let mut j: usize = r.len();
        while j > 0 && r[j - 1].start > x.start
            invariant
                j <= r.len(),
                forall|k: int| j <= k < r.len() ==> r@[k].start > x.start,
            decreases j,
        {
            j = j - 1;
        }
        proof {
            lemma_insert_at(r@, x, j as int);
            assert(orig.take(i + 1).drop_last() =~= orig.take(i as int));
            assert(orig.take(i + 1).last() == x);
        }
        let ghost before = r@;
        r.insert(j, x);
        assert(r@ =~= before.take(j as int) + seq![x] + before.skip(j as int));
        assert(rev@ =~= orig.skip(i + 1).reverse());
        i = i + 1;
    }
    assert(orig.take(n as int) =~= orig);
    r
}

/// Offsets of all segment prefixes are within range.
pub open spec fn offsets_ok(segs: Seq<Segment>) -> bool {
    forall|k: int| 0 <= k <= segs.len() ==> -MAX_MS <= #[trigger] offset_before(segs, k) <= MAX_MS
}

/// Times of a segment are within range.
pub open spec fn segment_ok(s: Segment) -> bool {
    ms_ok(s.start) && ms_ok(s.end)
}

/// Subtitles remapped onto the timeline of the merged export (all segments
/// played back to back), sorted by start time.
pub fn remap_subtitles_for_merge(subtitles: &[Subtitle], segments: &[Segment]) -> (r: Vec<Subtitle>)
    requires
        forall|j: int| 0 <= j < subtitles@.len() ==> subtitle_ok(subtitles@[j]),
        forall|j: int| 0 <= j < segments@.len() ==> segment_ok(segments@[j]),
        offsets_ok(segments@),
    ensures
        r@ == sort_by_start(remapped_subtitles(subtitles@, segments@)),
{
    let mut remapped: Vec<Subtitle> = Vec::new();
    let mut offset: i64 = 0;
    let mut i: usize = 0;
    assert(segments@.take(0) =~= Seq::<Segment>::empty());
    while i < segments.len()
        invariant
            i <= segments@.len(),
            forall|j: int| 0 <= j < subtitles@.len() ==> subtitle_ok(subtitles@[j]),
            forall|j: int| 0 <= j < segments@.len() ==> segment_ok(segments@[j]),
            offsets_ok(segments@),
            offset == offset_before(segments@, i as int),
            remapped@ == remapped_subtitles(subtitles@, segments@.take(i as int)),
        decreases segments@.len() - i,
    {
        let seg = &segments[i];
        assert(segment_ok(segments@[i as int]));
        assert(-MAX_MS <= offset_before(segments@, i as int) <= MAX_MS);
        let mut clipped = clip_subtitles(subtitles, seg.start, seg.end, offset);
        let ghost before = remapped@;
        remapped.append(&mut clipped);
        proof {
            let t = segments@.take(i + 1);
            assert(t.drop_last() =~= segments@.take(i as int));
            assert forall|k: int| 0 <= k <= i implies offset_before(t, k) == offset_before(segments@, k) by {
                lemma_offset_prefix(segments@, i + 1, k);
            }
            lemma_offset_prefix(segments@, i + 1, i as int);
        }
        assert(-MAX_MS <= offset_before(segments@, i + 1) <= MAX_MS);
        offset = offset + (seg.end - seg.start);
        i = i + 1;
    }
    assert(segments@.take(segments@.len() as int) =~= segments@);
    sort_subtitles_by_start(remapped)
}

proof fn lemma_offset_prefix(segs: Seq<Segment>, n: int, k: int)
    requires
        0 <= k <= n <= segs.len(),
    ensures
        offset_before(segs.take(n), k) == offset_before(segs, k),
    decreases k,
{
    if k > 0 {
        lemma_offset_prefix(segs, n, k - 1);
    }
}

/// Subtitles sorted by start time.
pub open spec fn sorted_by_start(s: Seq<Subtitle>) -> bool {
    forall|i: int, j: int| 0 <= i <= j < s.len() ==> s[i].start <= s[j].start
}

proof fn lemma_insert_sorted(s: Seq<Subtitle>, x: Subtitle)
    requires
        sorted_by_start(s),
    ensures
        sorted_by_start(insert_by_start(s, x)),
        insert_by_start(s, x).len() == s.len() + 1,
        insert_by_start(s, x).to_multiset() == s.to_multiset().insert(x),
    decreases s.len(),
{
    broadcast use vstd::seq_lib::group_to_multiset_ensures;
    if s.len() == 0 {
        assert(insert_by_start(s, x) =~= seq![x]);
        assert(seq![x] =~= Seq::<Subtitle>::empty().push(x));
    } else if s.last().start > x.start {
        let r = insert_by_start(s.drop_last(), x);
        lemma_insert_sorted(s.drop_last(), x);
        assert(s.drop_last().push(s.last()) =~= s);
        assert forall|i: int, j: int| 0 <= i <= j < r.len() + 1 implies r.push(s.last())[i].start <= r.push(s.last())[j].start by {
            if j == r.len() && i < r.len() {
                // every element of r is either x or an element of s.drop_last()
                assert(r.to_multiset().count(r[i]) > 0);
                assert(r.to_multiset() == s.drop_last().to_multiset().insert(x));
                if r[i] != x {
                    assert(s.drop_last().to_multiset().count(r[i]) > 0);
                    assert(s.drop_last().contains(r[i]));
                    let k = choose|k: int| 0 <= k < s.drop_last().len() && s.drop_last()[k] == r[i];
                    assert(s[k].start <= s[s.len() - 1].start);
                }
            }
        }
    } else {
        assert forall|i: int, j: int| 0 <= i <= j < s.len() + 1 implies s.push(x)[i].start <= s.push(x)[j].start by {
            if j == s.len() && i < s.len() {
                assert(s[i].start <= s[s.len() - 1].start);
            }
        }
    }
}

/// Sorting by start yields subtitles ordered by start, the same ones with
/// the same multiplicities.
pub proof fn law_sort_by_start_sorts(s: Seq<Subtitle>)
    ensures
        sorted_by_start(sort_by_start(s)),
        sort_by_start(s).to_multiset() == s.to_multiset(),
    decreases s.len(),
{
    broadcast use vstd::seq_lib::group_to_multiset_ensures;
    if s.len() > 0 {
        law_sort_by_start_sorts(s.drop_last());
        lemma_insert_sorted(sort_by_start(s.drop_last()), s.last());
        assert(s.drop_last().push(s.last()) =~= s);
    }
}

/// Every subtitle clipped to a segment `seg_start..seg_end` and moved to
/// `offset` lies within `offset..offset + (seg_end - seg_start)` and ends
/// after it starts.
pub proof fn law_clipped_subtitles_fit_segment(subs: Seq<Subtitle>, seg_start: int, seg_end: int, offset: int)
    requires
        forall|j: int| 0 <= j < subs.len() ==> subtitle_ok(subs[j]),
        -MAX_MS <= seg_start <= seg_end <= MAX_MS,
        0 <= offset <= MAX_MS,
    ensures
        forall|k: int| 0 <= k < clip_subtitles_spec(subs, seg_start, seg_end, offset).len() ==> {
            let c = #[trigger] clip_subtitles_spec(subs, seg_start, seg_end, offset)[k];
            offset <= c.start < c.end <= offset + (seg_end - seg_start)
        },
    decreases subs.len(),
{
    if subs.len() > 0 {
        law_clipped_subtitles_fit_segment(subs.drop_last(), seg_start, seg_end, offset);
        let rest = clip_subtitles_spec(subs.drop_last(), seg_start, seg_end, offset);
        let sub = subs.last();
        assert(subtitle_ok(subs[subs.len() - 1]));
        match clip_subtitle(sub, seg_start, seg_end, offset) {
            Some(c) => {
                let cs = min_int(max_int(sub.start as int, seg_start), seg_end);
                let ce = max_int(min_int(sub.end as int, seg_end), seg_start);
                assert(seg_start <= cs <= seg_end);
                assert(seg_start <= ce <= seg_end);
                assert(c.start == cs - seg_start + offset);
                assert(c.end == ce - seg_start + offset);
                assert forall|k: int| 0 <= k < rest.push(c).len() implies {
                    let d = #[trigger] rest.push(c)[k];
                    offset <= d.start < d.end <= offset + (seg_end - seg_start)
                } by {
                    if k < rest.len() {
                        assert(rest.push(c)[k] == rest[k]);
                    }
                }
            },
            None => {},
        }
    }
}

proof fn lemma_offsets_grow(segs: Seq<Segment>, k: int, n: int)
    requires
        0 <= k <= n <= segs.len(),
        forall|j: int| 0 <= j < segs.len() ==> segs[j].start <= segs[j].end,
    ensures
        0 <= offset_before(segs, k) <= offset_before(segs, n),
    decreases n,
{
    if k < n {
        lemma_offsets_grow(segs, k, n - 1);
    } else if k > 0 {
        lemma_offsets_grow(segs, k - 1, k - 1);
    }
}

proof fn lemma_remapped_fit(subs: Seq<Subtitle>, segs: Seq<Segment>)
    requires
        forall|j: int| 0 <= j < subs.len() ==> subtitle_ok(subs[j]),
        forall|j: int| 0 <= j < segs.len() ==> segment_ok(segs[j]) && segs[j].start <= segs[j].end,
        offset_before(segs, segs.len() as int) <= MAX_MS,
    ensures
        forall|k: int| 0 <= k < remapped_subtitles(subs, segs).len() ==> {
            let c = #[trigger] remapped_subtitles(subs, segs)[k];
            0 <= c.start < c.end <= offset_before(segs, segs.len() as int)
        },
    decreases segs.len(),
{
    if segs.len() > 0 {
        let n = segs.len() - 1;
        let prev = segs.drop_last();
        assert(segs.take(n) =~= prev);
        lemma_offset_prefix(segs, n, n);
        lemma_offsets_grow(segs, n, n + 1);
        assert forall|j: int| 0 <= j < prev.len() implies segment_ok(prev[j]) && prev[j].start <= prev[j].end by {
            assert(prev[j] == segs[j]);
        }
        lemma_remapped_fit(subs, prev);
        let off = offset_before(segs, n);
        assert(segment_ok(segs[n]));
        law_clipped_subtitles_fit_segment(subs, segs[n].start as int, segs[n].end as int, off);
        let head = remapped_subtitles(subs, prev);
        let tail = clip_subtitles_spec(subs, segs[n].start as int, segs[n].end as int, off);
        assert(remapped_subtitles(subs, segs) == head + tail);
        assert forall|k: int| 0 <= k < (head + tail).len() implies {
            let c = #[trigger] (head + tail)[k];
            0 <= c.start < c.end <= offset_before(segs, segs.len() as int)
        } by {
            if k < head.len() {
                assert((head + tail)[k] == head[k]);
            } else {
                assert((head + tail)[k] == tail[k - head.len()]);
            }
        }
    }
}

/// With segments that end no earlier than they start and a total length
/// within range, every subtitle of the merged export starts at or after
/// zero, ends after it starts, and ends by the total length of the
/// segments.
pub proof fn law_merged_subtitles_fit_timeline(subs: Seq<Subtitle>, segs: Seq<Segment>)
    requires
        forall|j: int| 0 <= j < subs.len() ==> subtitle_ok(subs[j]),
        forall|j: int| 0 <= j < segs.len() ==> segment_ok(segs[j]) && segs[j].start <= segs[j].end,
        offset_before(segs, segs.len() as int) <= MAX_MS,
    ensures
        forall|k: int| 0 <= k < sort_by_start(remapped_subtitles(subs, segs)).len() ==> {
            let c = #[trigger] sort_by_start(remapped_subtitles(subs, segs))[k];
            0 <= c.start < c.end <= offset_before(segs, segs.len() as int)
        },
{
    broadcast use vstd::seq_lib::group_to_multiset_ensures;
    let total = offset_before(segs, segs.len() as int);
    let r = remapped_subtitles(subs, segs);
    lemma_remapped_fit(subs, segs);
    law_sort_by_start_sorts(r);
    let sorted = sort_by_start(r);
    assert forall|k: int| 0 <= k < sorted.len() implies {
        let c = #[trigger] sorted[k];
        0 <= c.start < c.end <= total
    } by {
        assert(sorted.contains(sorted[k]));
        assert(sorted.to_multiset().count(sorted[k]) > 0);
        assert(r.to_multiset().count(sorted[k]) > 0);
        assert(r.contains(sorted[k]));
        let i = choose|i: int| 0 <= i < r.len() && r[i] == sorted[k];
        assert(r[i] == sorted[k]);
    }
}

proof fn lemma_clip_contains(subs: Seq<Subtitle>, seg_start: int, seg_end: int, offset: int, i: int)
    requires
        0 <= i < subs.len(),
        clip_subtitle(subs[i], seg_start, seg_end, offset) is Some,
    ensures
        clip_subtitles_spec(subs, seg_start, seg_end, offset).contains(
            clip_subtitle(subs[i], seg_start, seg_end, offset)->0),
    decreases subs.len(),
{
    let c = clip_subtitle(subs[i], seg_start, seg_end, offset)->0;
    let rest = clip_subtitles_spec(subs.drop_last(), seg_start, seg_end, offset);
    if i == subs.len() - 1 {
        let r = rest.push(c);
        assert(r[r.len() - 1] == c);
    } else {
        assert(subs.drop_last()[i] == subs[i]);
        lemma_clip_contains(subs.drop_last(), seg_start, seg_end, offset, i);
        let j = choose|j: int| 0 <= j < rest.len() && rest[j] == c;
        match clip_subtitle(subs.last(), seg_start, seg_end, offset) {
            Some(d) => {
                assert(rest.push(d)[j] == c);
            },
            None => {},
        }
    }
}

proof fn lemma_remapped_prefix(subs: Seq<Subtitle>, segs: Seq<Segment>, n: int)
    requires
        0 <= n <= segs.len(),
    ensures
        remapped_subtitles(subs, segs).len() >= remapped_subtitles(subs, segs.take(n)).len(),
        forall|m: int| 0 <= m < remapped_subtitles(subs, segs.take(n)).len()
            ==> remapped_subtitles(subs, segs)[m] == #[trigger] remapped_subtitles(subs, segs.take(n))[m],
    decreases segs.len() - n,
{
    if n == segs.len() {
        assert(segs.take(n) =~= segs);
    } else {
        let prev = segs.drop_last();
        assert(prev.take(n) =~= segs.take(n));
        lemma_remapped_prefix(subs, prev, n);
    }
}

/// On the merged timeline each segment starts where the earlier ones end: a
/// subtitle lying inside segment `k` is placed at its distance from that
/// segment's start plus the summed length of the segments before it,
/// keeping its length and text.
pub proof fn law_merged_subtitle_position(subs: Seq<Subtitle>, segs: Seq<Segment>, k: int, i: int)
    requires
        forall|j: int| 0 <= j < subs.len() ==> subtitle_ok(subs[j]),
        forall|j: int| 0 <= j < segs.len() ==> segment_ok(segs[j]) && segs[j].start <= segs[j].end,
        offset_before(segs, segs.len() as int) <= MAX_MS,
        0 <= k < segs.len(),
        0 <= i < subs.len(),
        segs[k].start <= subs[i].start < subs[i].end <= segs[k].end,
    ensures
        sort_by_start(remapped_subtitles(subs, segs)).contains(Subtitle {
            start: (subs[i].start - segs[k].start + offset_before(segs, k)) as i64,
            end: (subs[i].end - segs[k].start + offset_before(segs, k)) as i64,
            text: subs[i].text,
        }),
{
    broadcast use vstd::seq_lib::group_to_multiset_ensures;
    let off = offset_before(segs, k);
    lemma_offsets_grow(segs, k, segs.len() as int);
    let sub = subs[i];
    let seg = segs[k];
    assert(subtitle_ok(sub));
    assert(segment_ok(seg));
    let want = Subtitle {
        start: (sub.start - seg.start + off) as i64,
        end: (sub.end - seg.start + off) as i64,
        text: sub.text,
    };
    assert(clip_subtitle(sub, seg.start as int, seg.end as int, off) == Some(want));
    lemma_clip_contains(subs, seg.start as int, seg.end as int, off, i);
    let t = segs.take(k + 1);
    assert(t.drop_last() =~= segs.take(k));
    assert(t[k] == seg);
    lemma_offset_prefix(segs, k + 1, k);
    let head = remapped_subtitles(subs, segs.take(k));
    let tail = clip_subtitles_spec(subs, seg.start as int, seg.end as int, off);
    assert(remapped_subtitles(subs, t) == head + tail);
    let j = choose|j: int| 0 <= j < tail.len() && tail[j] == want;
    assert((head + tail)[head.len() + j] == want);
    lemma_remapped_prefix(subs, segs, k + 1);
    let r = remapped_subtitles(subs, segs);
    assert(r[head.len() + j] == remapped_subtitles(subs, t)[head.len() + j]);
    assert(r.contains(want));
    law_sort_by_start_sorts(r);
    assert(r.to_multiset().count(want) > 0);
    assert(sort_by_start(r).to_multiset().count(want) > 0);
}

/// The digits of a millisecond remainder (1..=999) as a decimal fraction
/// without trailing zeros: 500 -> "5", 250 -> "25", 7 -> "007".
pub open spec fn frac_digits(r: nat) -> Seq<char> {
    if r % 100 == 0 {
        dec(r / 100)
    } else if r % 10 == 0 {
        zpad(r / 10, 2)
    } else {
        zpad(r, 3)
    }
}

/// A time in milliseconds written in seconds the shortest way: "2", "1.5",
/// "-0.25", "0.007".
pub open spec fn secs_display(ms: int) -> Seq<char> {
    let mag: nat = if ms < 0 { (-ms) as nat } else { ms as nat };
    let sign = if ms < 0 { seq!['-'] } else { Seq::<char>::empty() };
    if mag % 1000 == 0 {
        sign + dec(mag / 1000)
    } else {
        sign + dec(mag / 1000) + seq!['.'] + frac_digits(mag % 1000)
    }
}

fn push_secs_display(s: &mut String, ms: i64)
    ensures
        final(s)@ == old(s)@ + secs_display(ms as int),
{
    let ghost start = s@;
    if ms < 0 {
        s.push('-');
    }
    let mag: u64 = if ms == i64::MIN { 9_223_372_036_854_775_808u64 } else if ms < 0 { (-ms) as u64 } else { ms as u64 };
    push_dec(s, mag / 1000);
    let r = mag % 1000;
    if r != 0 {
        s.push('.');
        if r % 100 == 0 {
            push_dec(s, r / 100);
        } else if r % 10 == 0 {
            push_zpad(s, r / 10, 2);
        } else {
            push_zpad(s, r, 3);
        }
    }
    assert(s@ =~= start + secs_display(ms as int));
}

/// Unicode `White_Space` characters.
pub open spec fn is_unicode_whitespace(c: char) -> bool {
    let v = c as u32;
    ||| 0x09 <= v <= 0x0D
    ||| v == 0x20
    ||| v == 0x85
    ||| v == 0xA0
    ||| v == 0x1680
    ||| 0x2000 <= v <= 0x200A
    ||| v == 0x2028
    ||| v == 0x2029
    ||| v == 0x202F
    ||| v == 0x205F
    ||| v == 0x3000
}

fn whitespace(c: char) -> (r: bool)
    ensures
        r == is_unicode_whitespace(c),
{
    let v = c as u32;
    (0x09 <= v && v <= 0x0D) || v == 0x20 || v == 0x85 || v == 0xA0 || v == 0x1680
        || (0x2000 <= v && v <= 0x200A) || v == 0x2028 || v == 0x2029 || v == 0x202F
        || v == 0x205F || v == 0x3000
}

/// The text has no visible character (it is empty once trimmed).
pub open spec fn is_blank(t: Seq<char>) -> bool {
    forall|i: int| 0 <= i < t.len() ==> is_unicode_whitespace(#[trigger] t[i])
}

/// Whether a text is empty once whitespace is trimmed.
pub fn is_blank_text(t: &str) -> (r: bool)
    ensures
        r == is_blank(t@),
{
    let cs = chars_of(t);
    let mut i: usize = 0;
    while i < cs.len()
        invariant
            cs@ == t@,
            i <= cs.len(),
            forall|j: int| 0 <= j < i ==> is_unicode_whitespace(#[trigger] cs@[j]),
        decreases cs.len() - i,
    {
        if !whitespace(cs[i]) {
            return false;
        }
        i = i + 1;
    }
    true
}

/// What is wrong with subtitle number `i` (counted from zero), if
/// anything: a negative start, an end not after the start, or blank text,
/// checked in that order.
pub open spec fn subtitle_problem(i: nat, s: Subtitle) -> Option<Seq<char>> {
    let head = "Subtitle "@ + dec(i) + ": "@;
    if s.start < 0 {
        Some(head + "start ("@ + secs_display(s.start as int) + ") must be non-negative"@)
    } else if s.end <= s.start {
        Some(head + "end ("@ + secs_display(s.end as int) + ") must be greater than start ("@
            + secs_display(s.start as int) + ")"@)
    } else if is_blank(s.text@) {
        Some(head + "text must not be empty"@)
    } else {
        None
    }
}

/// The problem of the first faulty subtitle among `subs`, if any.
pub open spec fn first_subtitle_problem(subs: Seq<Subtitle>, from: nat) -> Option<Seq<char>>
    decreases subs.len() - from,
{
    if from >= subs.len() {
        None
    } else {
        match subtitle_problem(from, subs[from as int]) {
            Some(p) => Some(p),
            None => first_subtitle_problem(subs, from + 1),
        }
    }
}

/// Checks the subtitles of an export request: fails with the problem of the
/// first faulty subtitle (see `subtitle_problem`).
pub fn validate_subtitles(subtitles: &[Subtitle]) -> (r: Result<(), String>)
    ensures
        match r {
            Ok(()) => first_subtitle_problem(subtitles@, 0) is None,
            Err(e) => first_subtitle_problem(subtitles@, 0) == Some(e@),
        },
{
    let mut i: usize = 0;
    while i < subtitles.len()
        invariant
            i <= subtitles@.len(),
            first_subtitle_problem(subtitles@, 0) == first_subtitle_problem(subtitles@, i as nat),
        decreases subtitles@.len() - i,
    {
        let sub = &subtitles[i];
        let mut head = "Subtitle ".to_owned();
        push_dec(&mut head, i as u64);
        head.push_str(": ");
        if sub.start < 0 {
            let mut e = head;
            e.push_str("start (");
            push_secs_display(&mut e, sub.start);
            e.push_str(") must be non-negative");
            return Err(e);
        }
        if sub.end <= sub.start {
            let mut e = head;
            e.push_str("end (");
            push_secs_display(&mut e, sub.end);
            e.push_str(") must be greater than start (");
            push_secs_display(&mut e, sub.start);
            e.push_str(")");
            return Err(e);
        }
        if is_blank_text(sub.text.as_str()) {
            let mut e = head;
            e.push_str("text must not be empty");
            return Err(e);
        }
        i = i + 1;
    }
    Ok(())
}


/// The SRT documents written beside an export: with no segments, one with
/// the original times; when merging or exporting a single segment, one on
/// the merged timeline; otherwise one per segment, each segment starting
/// at zero.
pub open spec fn subtitle_documents(subs: Seq<Subtitle>, segs: Seq<Segment>, merge: bool) -> Seq<Seq<char>> {
    if segs.len() == 0 {
        seq![srt_document(subs)]
    } else if merge || segs.len() == 1 {
        seq![srt_document(sort_by_start(remapped_subtitles(subs, segs)))]
    } else {
        Seq::new(segs.len(), |i: int| srt_document(clip_subtitles_spec(subs, segs[i].start as int, segs[i].end as int, 0)))
    }
}

/// Renders the SRT documents written beside an export (see
/// `subtitle_documents`), in file order.
pub fn subtitle_documents_for_export(subtitles: &[Subtitle], segments: &[Segment], merge: bool) -> (r: Vec<String>)
    requires
        forall|j: int| 0 <= j < subtitles@.len() ==> subtitle_ok(subtitles@[j]),
        forall|j: int| 0 <= j < segments@.len() ==> segment_ok(segments@[j]),
        (merge || segments@.len() == 1) ==> offsets_ok(segments@),
    ensures
        views(r@) == subtitle_documents(subtitles@, segments@, merge),
{
    let mut r: Vec<String> = Vec::new();
    if segments.len() == 0 {
        r.push(srt_content(subtitles));
        assert(views(r@) =~= subtitle_documents(subtitles@, segments@, merge));
        return r;
    }
    if merge || segments.len() == 1 {
        let remapped = remap_subtitles_for_merge(subtitles, segments);
        r.push(srt_content(remapped.as_slice()));
        assert(views(r@) =~= subtitle_documents(subtitles@, segments@, merge));
        return r;
    }
    let ghost docs = subtitle_documents(subtitles@, segments@, merge);
    let mut i: usize = 0;
    while i < segments.len()
        invariant
            i <= segments@.len(),
            segments@.len() > 1,
            !merge,
            docs == subtitle_documents(subtitles@, segments@, merge),
            forall|j: int| 0 <= j < subtitles@.len() ==> subtitle_ok(subtitles@[j]),
            forall|j: int| 0 <= j < segments@.len() ==> segment_ok(segments@[j]),
            views(r@) == docs.take(i as int),
        decreases segments@.len() - i,
    {
        let seg = &segments[i];
        assert(segment_ok(segments@[i as int]));
        let clipped = clip_subtitles(subtitles, seg.start, seg.end, 0);
        let doc = srt_content(clipped.as_slice());
        let ghost before = views(r@);
        r.push(doc);
        assert(views(r@) =~= before.push(docs[i as int]));
        assert(views(r@) =~= docs.take((i + 1) as int));
        i = i + 1;
    }
    assert(docs.take(segments@.len() as int) =~= docs);
    r
}

} // verus!
