//! Text building blocks: decimal and fixed-point number rendering, joining,
//! substring replacement, and character access for `str`.

use vstd::prelude::*;

verus! {

broadcast use vstd::string::group_string_axioms;

/// `String::push` appends one character.
pub assume_specification[ String::push ](s: &mut String, ch: char)
    ensures
        final(s)@ == old(s)@.push(ch),
;

/// `String::push_str` appends the characters of `string`.
pub assume_specification[ String::push_str ](s: &mut String, string: &str)
    ensures
        final(s)@ == old(s)@ + string@,
;

/// `10^8`, the fixed-point value of one: fixed-point values carry eight
/// decimal places, the integer `v` standing for `v / 10^8`.
pub const FIXED_ONE: i64 = 100_000_000;

/// The character of a decimal digit `d < 10`.
pub open spec fn digit_char(d: nat) -> char {
    if d == 0 { '0' } else if d == 1 { '1' } else if d == 2 { '2' } else if d == 3 { '3' }
    else if d == 4 { '4' } else if d == 5 { '5' } else if d == 6 { '6' } else if d == 7 { '7' }
    else if d == 8 { '8' } else { '9' }
}

/// Decimal digits of a natural number, without leading zeros ("0" for zero).
pub open spec fn dec(n: nat) -> Seq<char>
    decreases n,
{
    if n < 10 {
        seq![digit_char(n)]
    } else {
        dec(n / 10).push(digit_char(n % 10))
    }
}

/// Decimal rendering of an integer, with a leading '-' when negative.
pub open spec fn int_str(v: int) -> Seq<char> {
    if v < 0 {
        seq!['-'] + dec((-v) as nat)
    } else {
        dec(v as nat)
    }
}

/// `n` in decimal, left-padded with '0' to at least `width` characters.
pub open spec fn zpad(n: nat, width: nat) -> Seq<char> {
    let d = dec(n);
    if d.len() < width {
        Seq::new((width - d.len()) as nat, |i: int| '0') + d
    } else {
        d
    }
}

/// `10^n`.
pub open spec fn pow10(n: nat) -> nat
    decreases n,
{
    if n == 0 { 1 } else { 10 * pow10((n - 1) as nat) }
}

/// `m / d` rounded to the nearest integer; an exact tie goes to the even
/// neighbour, or to the odd one when `flip`.
pub open spec fn round_div_side(m: nat, d: nat, flip: bool) -> nat
    recommends
        d > 0,
{
    let q = m / d;
    let r = m % d;
    if 2 * r > d || (2 * r == d && ((q % 2 == 1) != flip)) { q + 1 } else { q }
}

/// `m / d` rounded to the nearest integer, ties to the even neighbour.
pub open spec fn round_div(m: nat, d: nat) -> nat
    recommends
        d > 0,
{
    round_div_side(m, d, false)
}

/// The fixed-point value `v / 10^8` written with exactly `prec` decimals,
/// with a '-' sign when `v < 0`. The magnitude is rounded to nearest; an
/// exact tie goes to the even last digit, or to the odd one when `flip`.
pub open spec fn fixed_side(v: int, prec: nat, flip: bool) -> Seq<char>
    recommends
        prec <= 8,
{
    let mag: nat = if v < 0 { (-v) as nat } else { v as nat };
    let q = round_div_side(mag, pow10((8 - prec) as nat), flip);
    let sign = if v < 0 { seq!['-'] } else { Seq::<char>::empty() };
    let whole = dec(q / pow10(prec));
    if prec == 0 {
        sign + whole
    } else {
        sign + whole + seq!['.'] + zpad(q % pow10(prec), prec)
    }
}

/// The fixed-point value `v / 10^8` written with exactly `prec` decimals
/// (rounded to nearest, ties to even), with a '-' sign when `v < 0`.
pub open spec fn fixed(v: int, prec: nat) -> Seq<char>
    recommends
        prec <= 8,
{
    fixed_side(v, prec, false)
}

/// Characters of a sequence of strings.
pub open spec fn views(v: Seq<String>) -> Seq<Seq<char>> {
    v.map_values(|s: String| s@)
}

/// The pieces joined with `sep` between consecutive pieces.
pub open spec fn join(parts: Seq<Seq<char>>, sep: Seq<char>) -> Seq<char>
    decreases parts.len(),
{
    if parts.len() == 0 {
        Seq::empty()
    } else if parts.len() == 1 {
        parts[0]
    } else {
        join(parts.drop_last(), sep) + sep + parts.last()
    }
}

/// Every non-overlapping occurrence of `pat`, scanning left to right,
/// replaced by `rep`.
pub open spec fn replace_all(s: Seq<char>, pat: Seq<char>, rep: Seq<char>) -> Seq<char>
    decreases s.len(),
{
    if pat.len() == 0 || s.len() < pat.len() {
        s
    } else if s.take(pat.len() as int) == pat {
        rep + replace_all(s.skip(pat.len() as int), pat, rep)
    } else {
        seq![s[0]] + replace_all(s.skip(1), pat, rep)
    }
}

fn digit(d: u64) -> (c: char)
    requires
        d < 10,
    ensures
        c == digit_char(d as nat),
{
    if d == 0 { '0' } else if d == 1 { '1' } else if d == 2 { '2' } else if d == 3 { '3' }
    else if d == 4 { '4' } else if d == 5 { '5' } else if d == 6 { '6' } else if d == 7 { '7' }
    else if d == 8 { '8' } else { '9' }
}

/// Appends the decimal digits of `n`.
pub fn push_dec(s: &mut String, n: u64)
    ensures
        final(s)@ == old(s)@ + dec(n as nat),
    decreases n,
{
    if n >= 10 {
        push_dec(s, n / 10);
    }
    s.push(digit(n % 10));
    assert(final(s)@ =~= old(s)@ + dec(n as nat));
}

/// Decimal digits of `n` as a new string.
pub fn dec_string(n: u64) -> (r: String)
    ensures
        r@ == dec(n as nat),
{
    let mut s = String::new();
    push_dec(&mut s, n);
    assert(s@ =~= dec(n as nat));
    s
}

fn count_digits(n: u64) -> (c: usize)
    ensures
        c as nat == dec(n as nat).len(),
        1 <= c <= 20,
    decreases n,
{
    if n < 10 {
        1
    } else {
        let c = count_digits(n / 10);
        assert(n / 10 < 10_000_000_000_000_000_000u64);
        proof {
            lemma_dec_len_bound(n as nat);
        }
        c + 1
    }
}

proof fn lemma_dec_len_bound(n: nat)
    requires
        n < 18_446_744_073_709_551_616,
    ensures
        dec(n).len() <= 20,
{
    assert(pow10(20) == 100_000_000_000_000_000_000) by {
        reveal_with_fuel(pow10, 21);
    }
    lemma_dec_len_monotone_bound(n, 20);
}

proof fn lemma_dec_len_monotone_bound(n: nat, k: nat)
    requires
        n < pow10(k),
        k >= 1,
    ensures
        dec(n).len() <= k,
    decreases k,
{
    if n >= 10 {
        assert(n / 10 < pow10((k - 1) as nat)) by (nonlinear_arith)
            requires
                n < pow10(k),
                pow10(k) == 10 * pow10((k - 1) as nat),
        ;
        if k == 1 {
            assert(pow10(1) == 10) by {
                reveal_with_fuel(pow10, 2);
            }
        } else {
            lemma_dec_len_monotone_bound(n / 10, (k - 1) as nat);
        }
    }
}

/// Appends `n` in decimal, left-padded with '0' to `width` characters.
pub fn push_zpad(s: &mut String, n: u64, width: usize)
    ensures
        final(s)@ == old(s)@ + zpad(n as nat, width as nat),
{
    let c = count_digits(n);
    if c < width {
        let mut i: usize = c;
        let ghost start = s@;
        while i < width
            invariant
                c <= i <= width,
                s@ == start + Seq::new((i - c) as nat, |j: int| '0'),
            decreases width - i,
        {
            s.push('0');
            i = i + 1;
            assert(s@ =~= start + Seq::new((i - c) as nat, |j: int| '0'));
        }
        push_dec(s, n);
        assert(s@ =~= start + zpad(n as nat, width as nat));
    } else {
        push_dec(s, n);
    }
}

/// Appends a signed integer in decimal.
pub fn push_int(s: &mut String, v: i64)
    ensures
        final(s)@ == old(s)@ + int_str(v as int),
{
    if v < 0 {
        s.push('-');
        let m: u64 = if v == i64::MIN { 9_223_372_036_854_775_808u64 } else { (-v) as u64 };
        push_dec(s, m);
        assert(final(s)@ =~= old(s)@ + int_str(v as int));
    } else {
        push_dec(s, v as u64);
    }
}

fn pow10_exec(n: u32) -> (r: u64)
    requires
        n <= 8,
    ensures
        r as nat == pow10(n as nat),
        1 <= r <= 100_000_000,
{
    reveal_with_fuel(pow10, 9);
    if n == 0 { 1 } else if n == 1 { 10 } else if n == 2 { 100 } else if n == 3 { 1000 }
    else if n == 4 { 10_000 } else if n == 5 { 100_000 } else if n == 6 { 1_000_000 }
    else if n == 7 { 10_000_000 } else { 100_000_000 }
}

/// Appends the fixed-point value `v / 10^8` with `prec` decimals, an exact
/// tie going to the odd last digit when `flip` (see `fixed_side`).
pub fn push_fixed_side(s: &mut String, v: i64, prec: u32, flip: bool)
    requires
        prec <= 8,
    ensures
        final(s)@ == old(s)@ + fixed_side(v as int, prec as nat, flip),
{
    let ghost start = s@;
    if v < 0 {
        s.push('-');
    }
    let mag: u64 = if v == i64::MIN { 9_223_372_036_854_775_808u64 } else if v < 0 { (-v) as u64 } else { v as u64 };
    let d = pow10_exec(8 - prec);
    let q0 = mag / d;
    let r = mag % d;
    let q: u64 = if (r > d - r) || (r == d - r && ((q0 % 2 == 1) != flip)) { q0 + 1 } else { q0 };
    assert(q as nat == round_div_side(mag as nat, pow10((8 - prec) as nat), flip));
    let p = pow10_exec(prec);
    push_dec(s, q / p);
    if prec > 0 {
        s.push('.');
        push_zpad(s, q % p, prec as usize);
    }
    assert(s@ =~= start + fixed_side(v as int, prec as nat, flip));
}

/// Appends the fixed-point value `v / 10^8` with `prec` decimals.
pub fn push_fixed(s: &mut String, v: i64, prec: u32)
    requires
        prec <= 8,
    ensures
        final(s)@ == old(s)@ + fixed(v as int, prec as nat),
{
    push_fixed_side(s, v, prec, false);
}

/// The characters of `s`, in order.
pub fn chars_of(s: &str) -> (v: Vec<char>)
    ensures
        v@ == s@,
{
    let mut v: Vec<char> = Vec::new();
    for c in it: s.chars()
        invariant
            v@ == it.seq().take(it.index()),
            it.seq() == s@,
    {
        v.push(c);
    }
    v
}

/// The pieces joined with `sep` between consecutive pieces.
pub fn join_strings(parts: &Vec<String>, sep: &str) -> (r: String)
    ensures
        r@ == join(views(parts@), sep@),
{
    let mut r = String::new();
    let ghost pv = views(parts@);
    let mut i: usize = 0;
    while i < parts.len()
        invariant
            i <= parts.len(),
            pv == views(parts@),
            r@ == join(pv.take(i as int), sep@),
        decreases parts.len() - i,
    {
        if i > 0 {
            r.push_str(sep);
        }
        r.push_str(parts[i].as_str());
        assert(pv.take((i + 1) as int).drop_last() =~= pv.take(i as int));
        i = i + 1;
    }
    assert(pv.take(parts.len() as int) =~= pv);
    r
}

proof fn lemma_replace_all_step(s: Seq<char>, pat: Seq<char>, rep: Seq<char>, i: int)
    requires
        pat.len() > 0,
        0 <= i,
        i + pat.len() <= s.len(),
    ensures
        s.skip(i).take(pat.len() as int) == pat ==> replace_all(s.skip(i), pat, rep)
            == rep + replace_all(s.skip(i + pat.len()), pat, rep),
        s.skip(i).take(pat.len() as int) != pat ==> replace_all(s.skip(i), pat, rep)
            == seq![s[i]] + replace_all(s.skip(i + 1), pat, rep),
{
    assert(s.skip(i).skip(pat.len() as int) =~= s.skip(i + pat.len()));
    assert(s.skip(i).skip(1) =~= s.skip(i + 1));
}

/// `s` with every non-overlapping occurrence of `pat` replaced by `rep`.
pub fn replace_str(s: &str, pat: &str, rep: &str) -> (r: String)
    requires
        pat@.len() > 0,
    ensures
        r@ == replace_all(s@, pat@, rep@),
{
    let sv = chars_of(s);
    let pv = chars_of(pat);
    let n = sv.len();
    let m = pv.len();
    let mut r = String::new();
    let mut i: usize = 0;
    assert(sv@.skip(0) =~= sv@);
    assert(r@ + sv@ =~= sv@);
    while i < n
        invariant
            sv@ == s@,
            pv@ == pat@,
            n == sv.len(),
            m == pv.len(),
            m > 0,
            i <= n,
            r@ + replace_all(sv@.skip(i as int), pv@, rep@) == replace_all(sv@, pv@, rep@),
        decreases n - i,
    {
        if n - i < m {
            assert(replace_all(sv@.skip(i as int), pv@, rep@) == sv@.skip(i as int));
            let ghost before = r@;
            while i < n
                invariant
                    sv@ == s@,
                    n == sv.len(),
                    i <= n,
                    r@ + sv@.skip(i as int) == replace_all(sv@, pv@, rep@),
                decreases n - i,
            {
                r.push(sv[i]);
                assert(sv@.skip(i as int) =~= seq![sv@[i as int]] + sv@.skip(i + 1));
                i = i + 1;
            }
            assert(sv@.skip(n as int) =~= Seq::<char>::empty());
            assert(r@ =~= replace_all(sv@, pv@, rep@));
            return r;
        }
        let mut k: usize = 0;
        let mut matched = true;
        while k < m
            invariant
                i + m <= n,
                n == sv.len(),
                m == pv.len(),
                k <= m,
                matched <==> (forall|j: int| 0 <= j < k ==> sv@[i + j] == pv@[j]),
            decreases m - k,
        {
            if sv[i + k] != pv[k] {
                matched = false;
            }
            k = k + 1;
        }
        proof {
            lemma_replace_all_step(sv@, pv@, rep@, i as int);
            if matched {
                assert(sv@.skip(i as int).take(m as int) =~= pv@);
            } else {
                let j = choose|j: int| 0 <= j < m && sv@[i + j] != pv@[j];
                assert(sv@.skip(i as int).take(m as int)[j] != pv@[j]);
            }
        }
        if matched {
            r.push_str(rep);
            assert(r@ + replace_all(sv@.skip(i + m), pv@, rep@) =~= replace_all(sv@, pv@, rep@));
            i = i + m;
        } else {
            r.push(sv[i]);
            assert(r@ + replace_all(sv@.skip(i + 1), pv@, rep@) =~= replace_all(sv@, pv@, rep@));
            i = i + 1;
        }
    }
    assert(sv@.skip(n as int) =~= Seq::<char>::empty());
    assert(r@ =~= replace_all(sv@, pv@, rep@));
    r
}

/// Whether two strings hold the same characters.
pub fn str_eq(a: &str, b: &str) -> (r: bool)
    ensures
        r == (a@ == b@),
{
    let av = chars_of(a);
    let bv = chars_of(b);
    if av.len() != bv.len() {
        return false;
    }
    let mut i: usize = 0;
    while i < av.len()
        invariant
            av@ == a@,
            bv@ == b@,
            av.len() == bv.len(),
            i <= av.len(),
            forall|j: int| 0 <= j < i ==> av@[j] == bv@[j],
        decreases av.len() - i,
    {
        if av[i] != bv[i] {
            return false;
        }
        i = i + 1;
    }
    assert(av@ =~= bv@);
    true
}

/// Seconds with three decimals for a duration or instant given in
/// milliseconds, e.g. 2000 ms -> "2.000" and -1500 ms -> "-1.500".
pub open spec fn secs3(ms: int) -> Seq<char> {
    let mag: nat = if ms < 0 { (-ms) as nat } else { ms as nat };
    let sign = if ms < 0 { seq!['-'] } else { Seq::<char>::empty() };
    sign + dec(mag / 1000) + seq!['.'] + zpad(mag % 1000, 3)
}

/// Appends milliseconds rendered as seconds with three decimals.
pub fn push_secs3(s: &mut String, ms: i64)
    ensures
        final(s)@ == old(s)@ + secs3(ms as int),
{
    let ghost start = s@;
    if ms < 0 {
        s.push('-');
    }
    let mag: u64 = if ms == i64::MIN { 9_223_372_036_854_775_808u64 } else if ms < 0 { (-ms) as u64 } else { ms as u64 };
    push_dec(s, mag / 1000);
    s.push('.');
    push_zpad(s, mag % 1000, 3);
    assert(s@ =~= start + secs3(ms as int));
}

/// Milliseconds as seconds with three decimals, as a new string.
pub fn secs3_string(ms: i64) -> (r: String)
    ensures
        r@ == secs3(ms as int),
{
    let mut s = String::new();
    push_secs3(&mut s, ms);
    assert(s@ =~= secs3(ms as int));
    s
}

/// '[' or ']'.
pub open spec fn is_bracket(c: char) -> bool {
    c == '[' || c == ']'
}

/// `s` without its leading brackets.
pub open spec fn trim_front_brackets(s: Seq<char>) -> Seq<char>
    decreases s.len(),
{
    if s.len() > 0 && is_bracket(s[0]) {
        trim_front_brackets(s.skip(1))
    } else {
        s
    }
}

/// `s` without its trailing brackets.
pub open spec fn trim_back_brackets(s: Seq<char>) -> Seq<char>
    decreases s.len(),
{
    if s.len() > 0 && is_bracket(s.last()) {
        trim_back_brackets(s.drop_last())
    } else {
        s
    }
}

/// `s` without the brackets at either end.
pub open spec fn trim_brackets(s: Seq<char>) -> Seq<char> {
    trim_back_brackets(trim_front_brackets(s))
}

proof fn lemma_trim_front_skip(s: Seq<char>, k: int)
    requires
        0 <= k <= s.len(),
        forall|j: int| 0 <= j < k ==> is_bracket(s[j]),
    ensures
        trim_front_brackets(s) == trim_front_brackets(s.skip(k)),
    decreases k,
{
    if k > 0 {
        assert(s.skip(1).skip(k - 1) =~= s.skip(k));
        lemma_trim_front_skip(s.skip(1), k - 1);
    } else {
        assert(s.skip(0) =~= s);
    }
}

proof fn lemma_trim_back_take(s: Seq<char>, k: int)
    requires
        0 <= k <= s.len(),
        forall|j: int| k <= j < s.len() ==> is_bracket(s[j]),
    ensures
        trim_back_brackets(s) == trim_back_brackets(s.take(k)),
    decreases s.len() - k,
{
    if k < s.len() {
        assert(s.drop_last().take(k) =~= s.take(k));
        lemma_trim_back_take(s.drop_last(), k);
    } else {
        assert(s.take(k) =~= s);
    }
}

/// `s` with the brackets at either end removed.
pub fn trim_bracket_chars(s: &str) -> (r: String)
    ensures
        r@ == trim_brackets(s@),
{
    let cs = chars_of(s);
    let n = cs.len();
    let mut i: usize = 0;
    while i < n && (cs[i] == '[' || cs[i] == ']')
        invariant
            cs@ == s@,
            n == cs.len(),
            i <= n,
            forall|j: int| 0 <= j < i ==> is_bracket(cs@[j]),
        decreases n - i,
    {
        i = i + 1;
    }
    proof {
        lemma_trim_front_skip(cs@, i as int);
    }
    let ghost front = cs@.skip(i as int);
    assert(trim_front_brackets(front) == front);
    let mut k: usize = n;
    while k > i && (cs[k - 1] == '[' || cs[k - 1] == ']')
        invariant
            cs@ == s@,
            n == cs.len(),
            i <= k <= n,
            forall|j: int| k <= j < n ==> is_bracket(cs@[j]),
        decreases k,
    {
        k = k - 1;
    }
    proof {
        lemma_trim_back_take(front, k - i);
        assert(front.take(k - i) =~= cs@.subrange(i as int, k as int));
        if k > i {
            assert(!is_bracket(cs@.subrange(i as int, k as int).last()));
        }
    }
    let mut r = String::new();
    let mut j: usize = i;
    while j < k
        invariant
            cs@ == s@,
            n == cs.len(),
            i <= j <= k <= n,
            r@ == cs@.subrange(i as int, j as int),
        decreases k - j,
    {
        r.push(cs[j]);
        assert(r@ =~= cs@.subrange(i as int, (j + 1) as int));
        j = j + 1;
    }
    r
}

/// `pat` occurs in `s` starting at `i`.
pub open spec fn occurs_at(s: Seq<char>, pat: Seq<char>, i: int) -> bool {
    0 <= i && i + pat.len() <= s.len() && s.subrange(i, i + pat.len()) == pat
}

/// `pat` occurs somewhere in `s`.
pub open spec fn contains(s: Seq<char>, pat: Seq<char>) -> bool {
    exists|i: int| occurs_at(s, pat, i)
}

/// A character of a written number: a digit, '-' or '.'.
pub open spec fn is_num_char(c: char) -> bool {
    ('0' <= c && c <= '9') || c == '-' || c == '.'
}

/// `s` holds only characters of written numbers.
pub open spec fn numeric(s: Seq<char>) -> bool {
    forall|i: int| 0 <= i < s.len() ==> is_num_char(#[trigger] s[i])
}

/// `s` never has `c1` directly followed by `c2`.
pub open spec fn pair_free(s: Seq<char>, c1: char, c2: char) -> bool {
    forall|i: int| 0 <= i < s.len() - 1 ==> !(#[trigger] s[i] == c1 && s[i + 1] == c2)
}

pub proof fn lemma_digit_char_numeric(d: nat)
    ensures
        is_num_char(digit_char(d)),
{
}

pub proof fn lemma_dec_numeric(n: nat)
    ensures
        numeric(dec(n)),
        dec(n).len() > 0,
    decreases n,
{
    lemma_digit_char_numeric(n % 10);
    lemma_digit_char_numeric(n);
    if n >= 10 {
        lemma_dec_numeric(n / 10);
        assert forall|i: int| 0 <= i < dec(n).len() implies is_num_char(#[trigger] dec(n)[i]) by {
            if i < dec(n / 10).len() {
                assert(dec(n)[i] == dec(n / 10)[i]);
            }
        }
    }
}

pub proof fn lemma_zpad_numeric(n: nat, width: nat)
    ensures
        numeric(zpad(n, width)),
{
    lemma_dec_numeric(n);
    let d = dec(n);
    if d.len() < width {
        let z = Seq::new((width - d.len()) as nat, |i: int| '0');
        assert forall|i: int| 0 <= i < (z + d).len() implies is_num_char(#[trigger] (z + d)[i]) by {
            if i >= z.len() {
                assert((z + d)[i] == d[i - z.len()]);
            }
        }
    }
}

pub proof fn lemma_int_str_numeric(v: int)
    ensures
        numeric(int_str(v)),
{
    if v < 0 {
        lemma_dec_numeric((-v) as nat);
        let d = dec((-v) as nat);
        assert forall|i: int| 0 <= i < (seq!['-'] + d).len() implies is_num_char(#[trigger] (seq!['-'] + d)[i]) by {
            if i >= 1 {
                assert((seq!['-'] + d)[i] == d[i - 1]);
            }
        }
    } else {
        lemma_dec_numeric(v as nat);
    }
}

pub proof fn lemma_fixed_side_numeric(v: int, prec: nat, flip: bool)
    ensures
        numeric(fixed_side(v, prec, flip)),
{
    let mag: nat = if v < 0 { (-v) as nat } else { v as nat };
    let q = round_div_side(mag, pow10((8 - prec) as nat), flip);
    let sign = if v < 0 { seq!['-'] } else { Seq::<char>::empty() };
    let whole = dec(q / pow10(prec));
    lemma_dec_numeric(q / pow10(prec));
    lemma_zpad_numeric(q % pow10(prec), prec);
    let frac = zpad(q % pow10(prec), prec);
    let r = fixed_side(v, prec, flip);
    assert forall|i: int| 0 <= i < r.len() implies is_num_char(#[trigger] r[i]) by {
        if prec == 0 {
            assert(r == sign + whole);
            if i >= sign.len() {
                assert(r[i] == whole[i - sign.len()]);
            }
        } else {
            assert(r == sign + whole + seq!['.'] + frac);
            if i < sign.len() {
            } else if i < sign.len() + whole.len() {
                assert(r[i] == whole[i - sign.len()]);
            } else if i == sign.len() + whole.len() {
            } else {
                assert(r[i] == frac[i - sign.len() - whole.len() - 1]);
            }
        }
    }
}

pub proof fn lemma_numeric_pair_free(s: Seq<char>, c1: char, c2: char)
    requires
        numeric(s),
        !is_num_char(c1),
    ensures
        pair_free(s, c1, c2),
{
}

pub proof fn lemma_pair_free_concat(a: Seq<char>, b: Seq<char>, c1: char, c2: char)
    requires
        pair_free(a, c1, c2),
        pair_free(b, c1, c2),
        a.len() == 0 || b.len() == 0 || a.last() != c1 || b[0] != c2,
    ensures
        pair_free(a + b, c1, c2),
{
    assert forall|i: int| 0 <= i < (a + b).len() - 1 implies !(#[trigger] (a + b)[i] == c1 && (a + b)[i + 1] == c2) by {
        if i < a.len() - 1 {
            assert((a + b)[i] == a[i] && (a + b)[i + 1] == a[i + 1]);
        } else if i == a.len() - 1 {
            assert((a + b)[i] == a.last() && (a + b)[i + 1] == b[0]);
        } else {
            assert((a + b)[i] == b[i - a.len()] && (a + b)[i + 1] == b[i + 1 - a.len()]);
        }
    }
}

pub proof fn lemma_secs3_numeric(ms: int)
    ensures
        numeric(secs3(ms)),
        secs3(ms).len() > 0,
{
    let mag: nat = if ms < 0 { (-ms) as nat } else { ms as nat };
    let sign = if ms < 0 { seq!['-'] } else { Seq::<char>::empty() };
    let whole = dec(mag / 1000);
    let frac = zpad(mag % 1000, 3);
    lemma_dec_numeric(mag / 1000);
    lemma_zpad_numeric(mag % 1000, 3);
    let r = secs3(ms);
    assert(r == sign + whole + seq!['.'] + frac);
    assert forall|i: int| 0 <= i < r.len() implies is_num_char(#[trigger] r[i]) by {
        if i < sign.len() {
        } else if i < sign.len() + whole.len() {
            assert(r[i] == whole[i - sign.len()]);
        } else if i == sign.len() + whole.len() {
        } else {
            assert(r[i] == frac[i - sign.len() - whole.len() - 1]);
        }
    }
}

/// The decimal digits of a positive number start with a non-zero digit.
pub proof fn lemma_dec_first_nonzero(n: nat)
    requires
        n >= 1,
    ensures
        dec(n).len() > 0,
        dec(n)[0] != '0',
    decreases n,
{
    lemma_dec_numeric(n);
    if n >= 10 {
        lemma_dec_first_nonzero(n / 10);
        assert(dec(n)[0] == dec(n / 10)[0]);
    }
}

/// A text that never has `pat[k]` followed by `pat[k + 1]` does not hold `pat`.
pub proof fn lemma_pair_free_avoids(s: Seq<char>, pat: Seq<char>, k: int)
    requires
        0 <= k < pat.len() - 1,
        pair_free(s, pat[k], pat[k + 1]),
    ensures
        !contains(s, pat),
{
    if contains(s, pat) {
        let i = choose|i: int| occurs_at(s, pat, i);
        assert(s.subrange(i, i + pat.len())[k] == s[i + k]);
        assert(s.subrange(i, i + pat.len())[k + 1] == s[i + k + 1]);
    }
}

/// A pattern without the separator character is in a joined text only if
/// it is in one of the parts.
pub proof fn lemma_join_avoids(parts: Seq<Seq<char>>, sep: char, pat: Seq<char>)
    requires
        pat.len() > 0,
        forall|j: int| 0 <= j < pat.len() ==> pat[j] != sep,
        forall|k: int| 0 <= k < parts.len() ==> !contains(#[trigger] parts[k], pat),
    ensures
        !contains(join(parts, seq![sep]), pat),
    decreases parts.len(),
{
    if parts.len() > 1 {
        let a = join(parts.drop_last(), seq![sep]);
        let b = parts.last();
        assert forall|k: int| 0 <= k < parts.drop_last().len() implies !contains(#[trigger] parts.drop_last()[k], pat) by {
            assert(parts.drop_last()[k] == parts[k]);
        }
        lemma_join_avoids(parts.drop_last(), sep, pat);
        assert(!contains(b, pat));
        let s = a + seq![sep] + b;
        if contains(s, pat) {
            let i = choose|i: int| occurs_at(s, pat, i);
            let n = pat.len() as int;
            if i + n <= a.len() {
                assert(s.subrange(i, i + n) =~= a.subrange(i, i + n));
                assert(occurs_at(a, pat, i));
            } else if i > a.len() {
                assert(s.subrange(i, i + n) =~= b.subrange(i - a.len() - 1, i - a.len() - 1 + n));
                assert(occurs_at(b, pat, i - a.len() - 1));
            } else {
                assert(s.subrange(i, i + n)[a.len() - i] == s[a.len() as int]);
            }
        }
    } else if parts.len() == 1 {
        assert(!contains(parts[0], pat));
    }
}

/// A joined text ends with its last part.
pub proof fn lemma_join_ends_with_last(parts: Seq<Seq<char>>, sep: Seq<char>)
    requires
        parts.len() > 0,
    ensures
        join(parts, sep).len() >= parts.last().len(),
        join(parts, sep).skip(join(parts, sep).len() - parts.last().len()) == parts.last(),
{
    if parts.len() > 1 {
        let a = join(parts.drop_last(), sep);
        assert((a + sep + parts.last()).skip((a + sep).len() as int) =~= parts.last());
    }
}

/// Replacing a pattern keeps a text free of the pair `c1 c2` when the
/// replacement is free of it, does not end with `c1` and does not start
/// with `c2`.
pub proof fn lemma_replace_all_pair_free(s: Seq<char>, pat: Seq<char>, rep: Seq<char>, c1: char, c2: char)
    requires
        pair_free(s, c1, c2),
        pair_free(rep, c1, c2),
        rep.len() > 0,
        rep.last() != c1,
        rep[0] != c2,
    ensures
        pair_free(replace_all(s, pat, rep), c1, c2),
        replace_all(s, pat, rep).len() > 0 ==> (s.len() > 0 && (replace_all(s, pat, rep)[0] == s[0]
            || replace_all(s, pat, rep)[0] == rep[0])),
    decreases s.len(),
{
    if pat.len() == 0 || s.len() < pat.len() {
    } else if s.take(pat.len() as int) == pat {
        let rest = s.skip(pat.len() as int);
        assert forall|i: int| 0 <= i < rest.len() - 1 implies !(#[trigger] rest[i] == c1 && rest[i + 1] == c2) by {
            assert(rest[i] == s[i + pat.len()] && rest[i + 1] == s[i + 1 + pat.len()]);
        }
        lemma_replace_all_pair_free(rest, pat, rep, c1, c2);
        lemma_pair_free_concat(rep, replace_all(rest, pat, rep), c1, c2);
    } else {
        let rest = s.skip(1);
        assert forall|i: int| 0 <= i < rest.len() - 1 implies !(#[trigger] rest[i] == c1 && rest[i + 1] == c2) by {
            assert(rest[i] == s[i + 1] && rest[i + 1] == s[i + 2]);
        }
        lemma_replace_all_pair_free(rest, pat, rep, c1, c2);
        let r = replace_all(rest, pat, rep);
        if r.len() > 0 && r[0] == rest[0] {
            assert(!(s[0] == c1 && s[1] == c2));
        }
        lemma_pair_free_concat(seq![s[0]], r, c1, c2);
    }
}

/// A pattern ending in '=' is absent from `input + body + output` when the
/// labels hold no '=', the body never has two neighbouring characters of the
/// pattern in a row at position `k`, and the body starts with a character
/// that the pattern holds only first, if at all.
pub proof fn lemma_labelled_avoids(input: Seq<char>, body: Seq<char>, output: Seq<char>, pat: Seq<char>, k: int)
    requires
        pat.len() >= 2,
        pat.last() == '=',
        0 <= k < pat.len() - 1,
        pair_free(body, pat[k], pat[k + 1]),
        body.len() >= pat.len(),
        forall|j: int| 1 <= j < pat.len() ==> pat[j] != body[0],
        forall|j: int| 0 <= j < input.len() ==> input[j] != '=',
        forall|j: int| 0 <= j < output.len() ==> output[j] != '=',
    ensures
        !contains(input + body + output, pat),
{
    let s = input + body + output;
    let n = pat.len() as int;
    if contains(s, pat) {
        let i = choose|i: int| occurs_at(s, pat, i);
        assert(s.subrange(i, i + n) == pat);
        assert(s[i + n - 1] == pat[n - 1]) by {
            assert(s.subrange(i, i + n)[n - 1] == s[i + n - 1]);
        }
        if i + n > input.len() + body.len() {
            assert(s[i + n - 1] == output[i + n - 1 - input.len() - body.len()]);
        } else if i + n - 1 < input.len() {
            assert(s[i + n - 1] == input[i + n - 1]);
        } else if i < input.len() {
            let j = input.len() - i;
            assert(s.subrange(i, i + n)[j] == s[input.len() as int]);
            assert(s[input.len() as int] == body[0]);
        } else {
            let j = i - input.len();
            assert(s.subrange(i, i + n)[k] == s[i + k]);
            assert(s.subrange(i, i + n)[k + 1] == s[i + k + 1]);
            assert(s[i + k] == body[j + k]);
            assert(s[i + k + 1] == body[j + k + 1]);
        }
    }
}


/// Whether `pat` occurs at position `i` of `s` (characters).
fn matches_at(s: &Vec<char>, pat: &Vec<char>, i: usize) -> (r: bool)
    requires
        i + pat@.len() <= s@.len(),
    ensures
        r == occurs_at(s@, pat@, i as int),
{
    let n = s.len();
    let mut k: usize = 0;
    while k < pat.len()
        invariant
            n == s@.len(),
            i + pat@.len() <= s@.len(),
            k <= pat@.len(),
            forall|j: int| 0 <= j < k ==> s@[i + j] == pat@[j],
        decreases pat@.len() - k,
    {
        if s[i + k] != pat[k] {
            assert(s@.subrange(i as int, i + pat@.len())[k as int] != pat@[k as int]);
            return false;
        }
        k = k + 1;
    }
    assert(s@.subrange(i as int, i + pat@.len()) =~= pat@);
    true
}

/// Whether `pat` occurs in `s`.
pub fn str_contains(s: &str, pat: &str) -> (r: bool)
    ensures
        r == contains(s@, pat@),
{
    let sv = chars_of(s);
    let pv = chars_of(pat);
    if pv.len() > sv.len() {
        return false;
    }
    let last = sv.len() - pv.len();
    let mut i: usize = 0;
    loop
        invariant
            sv@ == s@,
            pv@ == pat@,
            last == sv@.len() - pv@.len(),
            i <= last,
            forall|j: int| 0 <= j < i ==> !occurs_at(s@, pat@, j),
        decreases last - i,
    {
        if matches_at(&sv, &pv, i) {
            return true;
        }
        if i == last {
            return false;
        }
        i = i + 1;
    }
}

/// `s` with every '\\' replaced by '/'.
pub open spec fn forward_slashes(s: Seq<char>) -> Seq<char> {
    s.map_values(|c: char| if c == '\\' { '/' } else { c })
}

/// Appends `s` with every backslash replaced by '/'.
pub fn push_forward_slashes(out: &mut String, s: &str)
    ensures
        final(out)@ == old(out)@ + forward_slashes(s@),
{
    let cs = chars_of(s);
    let ghost start = out@;
    let mut i: usize = 0;
    while i < cs.len()
        invariant
            cs@ == s@,
            i <= cs.len(),
            out@ == start + forward_slashes(s@).take(i as int),
        decreases cs.len() - i,
    {
        out.push(if cs[i] == '\\' { '/' } else { cs[i] });
        assert(out@ =~= start + forward_slashes(s@).take(i + 1));
        i = i + 1;
    }
    assert(forward_slashes(s@).take(cs.len() as int) =~= forward_slashes(s@));
}

} // verus!
