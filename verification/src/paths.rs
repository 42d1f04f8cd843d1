//! File paths inside FFmpeg filter graphs.

use vstd::prelude::*;
use crate::text::{chars_of, pair_free, lemma_pair_free_concat};

verus! {

/// A path separator normalised to '/'.
pub open spec fn normalize_separator(c: char) -> char {
    if c == '\\' { '/' } else { c }
}

/// A filter-graph metacharacter ('\\', '\'', '[', ']', ';') prefixed with a
/// backslash; any other character unchanged.
pub open spec fn escape_meta_char(c: char) -> Seq<char> {
    if c == '\\' || c == '\'' || c == '[' || c == ']' || c == ';' {
        seq!['\\', c]
    } else {
        seq![c]
    }
}

/// Every separator normalised to '/', then every metacharacter escaped.
pub open spec fn escape_meta(s: Seq<char>) -> Seq<char>
    decreases s.len(),
{
    if s.len() == 0 {
        Seq::empty()
    } else {
        escape_meta(s.drop_last()) + escape_meta_char(normalize_separator(s.last()))
    }
}

/// A path written for use inside a filter graph: separators normalised,
/// metacharacters escaped, and a drive-letter colon (a single-byte first
/// character followed by ':', as in "C:") escaped as "\\:" last, so that
/// its backslash is not escaped again.
pub open spec fn filter_path(path: Seq<char>) -> Seq<char> {
    let s = escape_meta(path);
    if s.len() >= 2 && (s[0] as u32) < 128 && s[1] == ':' {
        seq![s[0]] + seq!['\\', ':'] + s.skip(2)
    } else {
        s
    }
}

/// Escapes a file path for use inside an FFmpeg filter graph string.
pub fn escape_path_for_filter(path: &str) -> (r: String)
    ensures
        r@ == filter_path(path@),
{
    let cs = chars_of(path);
    let mut out: Vec<char> = Vec::new();
    let mut i: usize = 0;
    while i < cs.len()
        invariant
            cs@ == path@,
            i <= cs.len(),
            out@ == escape_meta(cs@.take(i as int)),
        decreases cs.len() - i,
    {
        let c = if cs[i] == '\\' { '/' } else { cs[i] };
        if c == '\\' || c == '\'' || c == '[' || c == ']' || c == ';' {
            out.push('\\');
        }
        out.push(c);
        assert(cs@.take((i + 1) as int).drop_last() =~= cs@.take(i as int));
        assert(out@ =~= escape_meta(cs@.take((i + 1) as int)));
        i = i + 1;
    }
    assert(cs@.take(cs.len() as int) =~= cs@);
    let ghost e = out@;
    let mut r = String::new();
    let drive = out.len() >= 2 && (out[0] as u32) < 128 && out[1] == ':';
    let mut j: usize = 0;
    if drive {
        r.push(out[0]);
        r.push('\\');
        r.push(':');
        j = 2;
    }
    let ghost prefix = r@;
    while j < out.len()
        invariant
            out@ == e,
            j <= out.len(),
            drive ==> j >= 2,
            !drive ==> prefix.len() == 0,
            r@ == prefix + e.subrange(if drive { 2 } else { 0 }, j as int),
        decreases out.len() - j,
    {
        r.push(out[j]);
        assert(r@ =~= prefix + e.subrange(if drive { 2 } else { 0 }, (j + 1) as int));
        j = j + 1;
    }
    assert(r@ =~= filter_path(path@));
    r
}


proof fn lemma_escape_meta_pair_free_ab(s: Seq<char>)
    ensures
        pair_free(escape_meta(s), 'a', ']'),
        escape_meta(s).len() > 0 ==> escape_meta(s)[0] != ']',
    decreases s.len(),
{
    if s.len() > 0 {
        lemma_escape_meta_pair_free_ab(s.drop_last());
        let e = escape_meta_char(normalize_separator(s.last()));
        assert(pair_free(e, 'a', ']'));
        lemma_pair_free_concat(escape_meta(s.drop_last()), e, 'a', ']');
        if escape_meta(s.drop_last()).len() > 0 {
            assert(escape_meta(s)[0] == escape_meta(s.drop_last())[0]);
        }
    }
}

/// An escaped path never has 'a' directly followed by ']': every ']' of the
/// path is escaped with a backslash.
pub proof fn lemma_filter_path_pair_free_ab(path: Seq<char>)
    ensures
        pair_free(filter_path(path), 'a', ']'),
        filter_path(path).len() > 0 ==> filter_path(path)[0] != ']',
{
    let s = escape_meta(path);
    lemma_escape_meta_pair_free_ab(path);
    if s.len() >= 2 && (s[0] as u32) < 128 && s[1] == ':' {
        let rest = s.skip(2);
        assert forall|i: int| 0 <= i < rest.len() - 1 implies !(#[trigger] rest[i] == 'a' && rest[i + 1] == ']') by {
            assert(rest[i] == s[i + 2] && rest[i + 1] == s[i + 3]);
        }
        assert(pair_free(seq![s[0]], 'a', ']'));
        assert(pair_free(seq!['\\', ':'], 'a', ']'));
        lemma_pair_free_concat(seq![s[0]], seq!['\\', ':'], 'a', ']');
        lemma_pair_free_concat(seq![s[0]] + seq!['\\', ':'], rest, 'a', ']');
    }
}

} // verus!
