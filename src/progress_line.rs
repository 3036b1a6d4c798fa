//! Reading progress out of the lines that the downloader and the media tool print.

use vstd::prelude::*;
use vstd::string::*;
use crate::text::{
    all_digits, chars_of, contains_seq, digits_value, find_char, find_seq, first_index_of,
    first_occurrence, is_digit, is_white, is_white_char, lemma_digits_value_nonneg,
    lemma_digits_value_step, occurs_at, parse_u64, parse_u64_spec, string_of, unsigned_body,
};

verus! {

/// Normalized progress is counted in ten-thousandths: this value is completion.
pub const FULL_PROGRESS: u32 = 10000;

/// The index just after the nearest space before `p`, or 0 where there is none.
pub open spec fn token_start(line: Seq<char>, p: int) -> int {
    if exists|k: int| 0 <= k < p && line[k] == ' ' {
        (choose|k: int| 0 <= k < p && line[k] == ' ' && forall|j: int| k < j < p ==> line[j] != ' ')
            + 1
    } else {
        0
    }
}

/// A number token without its sign.
pub open spec fn unsigned_part(t: Seq<char>) -> Seq<char> {
    if t.len() > 0 && (t[0] == '+' || t[0] == '-') {
        t.subrange(1, t.len() as int)
    } else {
        t
    }
}

/// Digits, optionally followed by a `.` and more digits, with at least one digit in all.
pub open spec fn is_decimal_number(b: Seq<char>) -> bool {
    match first_index_of(b, '.') {
        None => b.len() > 0 && all_digits(b),
        Some(d) => b.len() > 1 && all_digits(b.subrange(0, d)) && all_digits(
            b.subrange(d + 1, b.len() as int),
        ),
    }
}

/// The digits before the decimal point.
pub open spec fn integer_part(b: Seq<char>) -> Seq<char> {
    match first_index_of(b, '.') {
        None => b,
        Some(d) => b.subrange(0, d),
    }
}

pub open spec fn min_int(a: int, b: int) -> int {
    if a <= b {
        a
    } else {
        b
    }
}

/// A percentage token read as a number and cut to a whole `u8`: the fraction is
/// dropped, negative values give 0 and values above 255 give 255.
pub open spec fn percent_of_token(t: Seq<char>) -> Option<u8> {
    let b = unsigned_part(t);
    if is_decimal_number(b) {
        if t[0] == '-' {
            Some(0u8)
        } else {
            Some(min_int(digits_value(integer_part(b)), 255) as u8)
        }
    } else {
        None
    }
}

/// The downloader's progress: on a line holding `[download]` and a `%`, the number
/// token that ends at the first `%`.
pub open spec fn ytdl_progress(line: Seq<char>) -> Option<u8> {
    match first_index_of(line, '%') {
        Some(p) => if contains_seq(line, "[download]"@) {
            percent_of_token(line.subrange(token_start(line, p), p))
        } else {
            None
        },
        None => None,
    }
}

/// The characters `v[from..to]`.
pub fn sub_chars(v: &Vec<char>, from: usize, to: usize) -> (r: Vec<char>)
    requires
        from <= to <= v@.len(),
    ensures
        r@ == v@.subrange(from as int, to as int),
{
    let mut r: Vec<char> = Vec::new();
    let mut i: usize = from;
    while i < to
        invariant
            from <= i <= to <= v@.len(),
            r@ == v@.subrange(from as int, i as int),
        decreases to - i,
    {
        r.push(v[i]);
        i = i + 1;
        assert(r@ =~= v@.subrange(from as int, i as int));
    }
    r
}

fn all_digits_exec(s: &Vec<char>) -> (r: bool)
    ensures
        r == all_digits(s@),
{
    let mut i: usize = 0;
    while i < s.len()
        invariant
            i <= s@.len(),
            forall|j: int| 0 <= j < i ==> is_digit(#[trigger] s@[j]),
        decreases s@.len() - i,
    {
        let c = s[i];
        if !('0' <= c && c <= '9') {
            assert(!is_digit(s@[i as int]));
            return false;
        }
        i = i + 1;
    }
    true
}

/// `min(value of the digits, cap)`, computed without overflow.
fn capped_digits_value(s: &Vec<char>, cap: u64) -> (r: u64)
    requires
        all_digits(s@),
        cap <= 1_000_000,
    ensures
        r as int == min_int(digits_value(s@), cap as int),
{
    let mut acc: u64 = 0;
    let mut i: usize = 0;
    while i < s.len()
        invariant
            i <= s@.len(),
            all_digits(s@),
            cap <= 1_000_000,
            acc as int == min_int(digits_value(s@.subrange(0, i as int)), cap as int),
        decreases s@.len() - i,
    {
        let c = s[i];
        assert(is_digit(s@[i as int]));
        let d = (c as u32 - '0' as u32) as u64;
        proof {
            lemma_digits_value_step(s@, i as int);
            assert(all_digits(s@.subrange(0, i as int))) by {
                assert forall|j: int| 0 <= j < i implies is_digit(#[trigger] s@.subrange(0, i as int)[j]) by {
                    assert(s@.subrange(0, i as int)[j] == s@[j]);
                }
            }
            lemma_digits_value_nonneg(s@.subrange(0, i as int));
        }
        if acc < cap {
            let v = acc * 10 + d;
            acc = if v < cap { v } else { cap };
        }
        i = i + 1;
    }
    assert(s@.subrange(0, s@.len() as int) =~= s@);
    acc
}

/// Reads a percentage token as `percent_of_token` describes.
pub fn parse_percent(t: &Vec<char>) -> (r: Option<u8>)
    ensures
        r == percent_of_token(t@),
{
    let n = t.len();
    let signed = n > 0 && (t[0] == '+' || t[0] == '-');
    let b = if signed {
        sub_chars(t, 1, n)
    } else {
        sub_chars(t, 0, n)
    };
    assert(b@ == unsigned_part(t@)) by {
        if !signed {
            assert(t@.subrange(0, n as int) =~= t@);
        }
    }
    let ok = match find_char(&b, '.') {
        None => b.len() > 0 && all_digits_exec(&b),
        Some(d) => {
            let ip = sub_chars(&b, 0, d);
            let fp = sub_chars(&b, d + 1, b.len());
            b.len() > 1 && all_digits_exec(&ip) && all_digits_exec(&fp)
        },
    };
    if !ok {
        return None;
    }
    if n > 0 && t[0] == '-' {
        return Some(0);
    }
    assert(n > 0) by {
        if n == 0 {
            assert(b@.len() == 0);
        }
    }
    let ip = match find_char(&b, '.') {
        None => sub_chars(&b, 0, b.len()),
        Some(d) => sub_chars(&b, 0, d),
    };
    assert(ip@ == integer_part(b@)) by {
        if first_index_of(b@, '.') is None {
            assert(b@.subrange(0, b@.len() as int) =~= b@);
        }
    }
    assert(all_digits(ip@));
    let v = capped_digits_value(&ip, 255);
    Some(v as u8)
}

/// The start of a token that ends at `p` is just after a space, or at 0, with no
/// space in between.
pub proof fn lemma_token_start(l: Seq<char>, p: int, k: int)
    requires
        0 <= k <= p < l.len(),
        k > 0 ==> l[k - 1] == ' ',
        forall|j: int| k <= j < p ==> l[j] != ' ',
    ensures
        token_start(l, p) == k,
{
    if k > 0 {
        let w = k - 1;
        assert(0 <= w < p && l[w] == ' ');
        let c = choose|c: int| 0 <= c < p && l[c] == ' ' && forall|j: int| c < j < p ==> l[j] != ' ';
        assert(!(c < w));
        assert(!(w < c));
    } else {
        assert(!exists|c: int| 0 <= c < p && l[c] == ' ');
    }
}

/// Reads the downloader's progress out of one line of its output.
pub fn get_ytdl_progress(line: &str) -> (r: Option<u8>)
    ensures
        r == ytdl_progress(line@),
        first_index_of(line@, '%') is None ==> r is None,
        !contains_seq(line@, "[download]"@) ==> r is None,
{
    let v = chars_of(line);
    let p = match find_char(&v, '%') {
        None => return None,
        Some(p) => p,
    };
    let marker = chars_of("[download]");
    if find_seq(&v, &marker).is_none() {
        return None;
    }
    let mut k: usize = p;
    while k > 0 && v[k - 1] != ' '
        invariant
            k <= p < v@.len(),
            forall|j: int| k <= j < p ==> v@[j] != ' ',
        decreases k,
    {
        k = k - 1;
    }
    proof {
        lemma_token_start(v@, p as int, k as int);
    }
    let token = sub_chars(&v, k, p);
    parse_percent(&token)
}

/// The index of the first whitespace character of `s`, or its length.
pub open spec fn first_white(s: Seq<char>) -> int {
    if exists|i: int| 0 <= i < s.len() && is_white(s[i]) {
        choose|i: int| 0 <= i < s.len() && is_white(s[i]) && forall|j: int| 0 <= j < i ==> !is_white(s[j])
    } else {
        s.len() as int
    }
}

pub proof fn lemma_first_white(s: Seq<char>, w: int)
    requires
        0 <= w <= s.len(),
        forall|j: int| 0 <= j < w ==> !is_white(s[j]),
        w < s.len() ==> is_white(s[w]),
    ensures
        first_white(s) == w,
{
    if w < s.len() {
        let c = choose|c: int| 0 <= c < s.len() && is_white(s[c]) && forall|j: int| 0 <= j < c ==> !is_white(s[j]);
        assert(!(c < w));
        assert(!(w < c));
    }
}

/// The media tool's time field: the characters after the first `out_time_us=` up to
/// the next whitespace.
#[verifier::opaque]
pub open spec fn time_string_of(line: Seq<char>) -> Option<Seq<char>> {
    match first_occurrence(line, "out_time_us="@) {
        Some(i) => {
            let rest = line.subrange(i + "out_time_us="@.len(), line.len() as int);
            Some(rest.subrange(0, first_white(rest)))
        },
        None => None,
    }
}

proof fn lemma_time_string(l: Seq<char>, i: int, k: int)
    requires
        first_occurrence(l, "out_time_us="@) == Some(i),
        0 <= i,
        i + "out_time_us="@.len() <= k <= l.len(),
        forall|j: int| i + "out_time_us="@.len() <= j < k ==> !is_white(l[j]),
        k < l.len() ==> is_white(l[k]),
    ensures
        time_string_of(l) == Some(l.subrange(i + "out_time_us="@.len(), k)),
{
    reveal(time_string_of);
    let start = i + "out_time_us="@.len();
    let rest = l.subrange(start, l.len() as int);
    assert forall|j: int| 0 <= j < k - start implies !is_white(rest[j]) by {
        assert(rest[j] == l[start + j]);
    }
    if k < l.len() {
        assert(rest[k - start] == l[k]);
    }
    lemma_first_white(rest, k - start);
    assert(rest.subrange(0, k - start) =~= l.subrange(start, k));
}

/// The end of the run of non-whitespace characters that starts at `start`.
fn run_end(v: &Vec<char>, start: usize) -> (k: usize)
    requires
        start <= v@.len(),
    ensures
        start <= k <= v@.len(),
        forall|j: int| start <= j < k ==> !is_white(v@[j]),
        k < v@.len() ==> is_white(v@[k as int]),
{
    let mut k: usize = start;
    while k < v.len() && !is_white_char(v[k])
        invariant
            start <= k <= v@.len(),
            forall|j: int| start <= j < k ==> !is_white(v@[j]),
        decreases v@.len() - k,
    {
        k = k + 1;
    }
    k
}

/// Takes the text after `out_time_us=` up to the next whitespace.
pub fn get_time_string_from_line(line: &str) -> (r: Option<String>)
    ensures
        r is None <==> time_string_of(line@) is None,
        r matches Some(s) ==> time_string_of(line@) == Some(s@),
{
    let v = chars_of(line);
    let marker = chars_of("out_time_us=");
    let i = match find_seq(&v, &marker) {
        None => {
            proof {
                reveal(time_string_of);
            }
            return None;
        },
        Some(i) => i,
    };
    let n = v.len();
    assert(i + marker@.len() <= n);
    let start = i + marker.len();
    let k = run_end(&v, start);
    proof {
        lemma_time_string(v@, i as int, k as int);
    }
    let r = string_of(&v, start, k);
    Some(r)
}

/// Microseconds written in decimal, as whole milliseconds.
pub open spec fn millis_of(time_string: Seq<char>) -> Option<u64> {
    match parse_u64_spec(time_string) {
        Some(micros) => Some(micros / 1000),
        None => None,
    }
}

/// Reads a count of microseconds and turns it into milliseconds (integer division).
pub fn get_millis_from_time_string(time_string: &str) -> (r: Option<u64>)
    ensures
        r == millis_of(time_string@),
{
    let v = chars_of(time_string);
    match parse_u64(&v) {
        Some(micros) => Some(micros / 1000),
        None => None,
    }
}

/// The total a media stage measures progress against: the requested duration in
/// milliseconds, or a single millisecond where none was requested.
pub open spec fn total_millis_spec(duration: Option<u32>) -> u64 {
    match duration {
        Some(d) => (d * 1000) as u64,
        None => 1,
    }
}

pub fn total_millis(duration: Option<u32>) -> (r: u64)
    ensures
        r == total_millis_spec(duration),
{
    match duration {
        Some(d) => d as u64 * 1000,
        None => 1,
    }
}

/// `done / total` in ten-thousandths, capped at completion; an empty total counts as
/// complete.
pub open spec fn fraction_progress(done: u64, total: u64) -> u32 {
    if total == 0 || done >= total {
        FULL_PROGRESS
    } else {
        ((done * FULL_PROGRESS) / total as int) as u32
    }
}

pub fn media_progress(done_millis: u64, total: u64) -> (r: u32)
    ensures
        r == fraction_progress(done_millis, total),
        r <= FULL_PROGRESS,
{
    if total == 0 || done_millis >= total {
        FULL_PROGRESS
    } else {
        assert(done_millis as int * 10000 <= u64::MAX as int * 10000) by (nonlinear_arith)
            requires
                done_millis <= u64::MAX,
        ;
        let scaled = done_millis as u128 * FULL_PROGRESS as u128;
        proof {
            assert((scaled as int) / (total as int) <= FULL_PROGRESS) by (nonlinear_arith)
                requires
                    scaled as int == done_millis * FULL_PROGRESS,
                    done_millis < total,
                    FULL_PROGRESS == 10000,
            ;
        }
        (scaled / total as u128) as u32
    }
}

/// A percentage in ten-thousandths, capped at completion.
pub open spec fn percent_progress(percent: u8) -> u32 {
    if percent >= 100 {
        FULL_PROGRESS
    } else {
        (percent * 100) as u32
    }
}

/// The normalized progress a downloader line reports, if any.
pub fn ytdl_line_progress(line: &str) -> (r: Option<u32>)
    ensures
        r == (match ytdl_progress(line@) {
            Some(p) => Some(percent_progress(p)),
            None => None::<u32>,
        }),
{
    match get_ytdl_progress(line) {
        Some(p) => Some(if p >= 100 { FULL_PROGRESS } else { p as u32 * 100 }),
        None => None,
    }
}

/// The milliseconds a media-tool line reports, if any.
pub open spec fn media_millis(line: Seq<char>) -> Option<u64> {
    match time_string_of(line) {
        Some(t) => millis_of(t),
        None => None,
    }
}

/// The normalized progress a media-tool line reports against `total` milliseconds.
pub fn media_line_progress(line: &str, total: u64) -> (r: Option<u32>)
    ensures
        r == (match media_millis(line@) {
            Some(m) => Some(fraction_progress(m, total)),
            None => None::<u32>,
        }),
{
    match get_time_string_from_line(line) {
        None => None,
        Some(t) => match get_millis_from_time_string(t.as_str()) {
            None => None,
            Some(m) => Some(media_progress(m, total)),
        },
    }
}

/// On a downloader progress line, `prefix + whole + "." + fraction + "%" + rest`
/// where the prefix holds `[download]`, ends in a space and has no `%`, the
/// extractor gives the whole number before the point (capped at 255).
pub proof fn lemma_downloader_line(
    prefix: Seq<char>,
    whole: Seq<char>,
    fraction: Seq<char>,
    rest: Seq<char>,
)
    requires
        contains_seq(prefix, "[download]"@),
        prefix.len() > 0,
        prefix.last() == ' ',
        forall|i: int| 0 <= i < prefix.len() ==> prefix[i] != '%',
        whole.len() > 0,
        all_digits(whole),
        all_digits(fraction),
    ensures
        ytdl_progress(prefix + whole + seq!['.'] + fraction + seq!['%'] + rest) == Some(
            min_int(digits_value(whole), 255) as u8,
        ),
{
    reveal(first_index_of);
    let tok = whole + seq!['.'] + fraction;
    let line = prefix + tok + seq!['%'] + rest;
    assert(line =~= prefix + whole + seq!['.'] + fraction + seq!['%'] + rest);
    let pl = prefix.len() as int;
    let p = pl + tok.len();
    assert forall|i: int| 0 <= i < tok.len() implies tok[i] != '%' && tok[i] != ' ' by {
        if i < whole.len() {
            assert(tok[i] == whole[i]);
            assert(is_digit(whole[i]));
        } else if i > whole.len() {
            assert(tok[i] == fraction[i - whole.len() - 1]);
            assert(is_digit(fraction[i - whole.len() - 1]));
        }
    }
    assert forall|j: int| 0 <= j < p implies line[j] != '%' by {
        if j < pl {
            assert(line[j] == prefix[j]);
        } else {
            assert(line[j] == tok[j - pl]);
        }
    }
    assert(line[p] == '%');
    let c = choose|i: int| 0 <= i < line.len() && line[i] == '%' && forall|j: int| 0 <= j < i ==> line[j] != '%';
    assert(!(c < p));
    assert(!(p < c));
    assert(first_index_of(line, '%') == Some(p));
    let m = choose|i: int| occurs_at(prefix, "[download]"@, i);
    assert(line.subrange(m, m + "[download]"@.len()) =~= prefix.subrange(m, m + "[download]"@.len()));
    assert(occurs_at(line, "[download]"@, m));
    assert(contains_seq(line, "[download]"@));
    assert forall|j: int| pl <= j < p implies line[j] != ' ' by {
        assert(line[j] == tok[j - pl]);
    }
    assert(line[pl - 1] == prefix[pl - 1]);
    lemma_token_start(line, p, pl);
    assert(line.subrange(pl, p) =~= tok);
    assert(tok[0] == whole[0]);
    assert(is_digit(whole[0]));
    assert(unsigned_part(tok) == tok);
    let d = whole.len() as int;
    assert forall|j: int| 0 <= j < d implies tok[j] != '.' by {
        assert(tok[j] == whole[j]);
        assert(is_digit(whole[j]));
    }
    let c2 = choose|i: int| 0 <= i < tok.len() && tok[i] == '.' && forall|j: int| 0 <= j < i ==> tok[j] != '.';
    assert(tok[d] == '.');
    assert(!(c2 < d));
    assert(!(d < c2));
    assert(first_index_of(tok, '.') == Some(d));
    assert(tok.subrange(0, d) =~= whole);
    assert(tok.subrange(d + 1, tok.len() as int) =~= fraction);
}

/// On a media-tool line whose first `out_time_us=` is followed by decimal digits
/// and then whitespace, the millisecond extractor gives the digits' value divided
/// by 1000, whatever follows.
pub proof fn lemma_media_line(prefix: Seq<char>, digits: Seq<char>, space: char, rest: Seq<char>)
    requires
        forall|j: int|
            0 <= j < prefix.len() ==> !occurs_at(
                prefix + "out_time_us="@ + digits + seq![space] + rest,
                "out_time_us="@,
                j,
            ),
        digits.len() > 0,
        all_digits(digits),
        digits_value(digits) <= u64::MAX,
        is_white(space),
    ensures
        media_millis(prefix + "out_time_us="@ + digits + seq![space] + rest) == Some(
            (digits_value(digits) / 1000) as u64,
        ),
{
    reveal(first_occurrence);
    reveal(time_string_of);
    let marker = "out_time_us="@;
    let line = prefix + marker + digits + seq![space] + rest;
    let pl = prefix.len() as int;
    assert(line.subrange(pl, pl + marker.len()) =~= marker);
    assert(occurs_at(line, marker, pl));
    let c = choose|i: int| occurs_at(line, marker, i) && forall|j: int| 0 <= j < i ==> !occurs_at(line, marker, j);
    assert(!(c < pl));
    assert(!(pl < c));
    assert(first_occurrence(line, marker) == Some(pl));
    let after = line.subrange(pl + marker.len(), line.len() as int);
    assert(after =~= digits + seq![space] + rest);
    assert forall|j: int| 0 <= j < digits.len() implies !is_white(after[j]) by {
        assert(after[j] == digits[j]);
        assert(is_digit(digits[j]));
    }
    assert(after[digits.len() as int] == space);
    lemma_first_white(after, digits.len() as int);
    assert(after.subrange(0, digits.len() as int) =~= digits);
    assert(is_digit(digits[0]));
    assert(unsigned_body(digits) == digits);
    lemma_digits_value_nonneg(digits);
    assert(time_string_of(line) == Some(digits));
    assert(parse_u64_spec(digits) == Some(digits_value(digits) as u64));
    assert(millis_of(digits) == Some(((digits_value(digits) as u64) / 1000) as u64));
}

} // verus!
