//! The in-band scaling prefix of an annotation.
//!
//! An annotation may begin with a backslash, a decimal number and some white
//! space, as in `\1.3 this one is bigger!`; the number then scales that
//! annotation alone. In regular-expression notation the prefix is
//! `^\\(?P<scale>[0-9]+(\.[0-9]+)?)\s+(?P<caption>.+)`, matched at the very
//! beginning of the annotation, where `\s` is the Unicode `White_Space` class
//! and `.` is any character but a line feed. The spec functions below state
//! what that match captures; the executable functions compute it.
use vstd::prelude::*;

use crate::chars::{decimal_digit, is_decimal_digit, is_white_space, white_space};
use crate::text::chars_of;

verus! {

/// The end of the run of decimal digits that starts at `i`.
pub open spec fn digits_end(s: Seq<char>, i: int) -> int
    decreases s.len() - i,
{
    if 0 <= i < s.len() && is_decimal_digit(s[i]) {
        digits_end(s, i + 1)
    } else {
        i
    }
}

/// The end of the run of white space that starts at `i`.
pub open spec fn spaces_end(s: Seq<char>, i: int) -> int
    decreases s.len() - i,
{
    if 0 <= i < s.len() && is_white_space(s[i]) {
        spaces_end(s, i + 1)
    } else {
        i
    }
}

/// The end of the line that goes on at `i`: the first line feed at or after
/// `i`, or the end of `s`.
pub open spec fn line_end(s: Seq<char>, i: int) -> int
    decreases s.len() - i,
{
    if 0 <= i < s.len() && s[i] != '\n' {
        line_end(s, i + 1)
    } else {
        i
    }
}

/// The greatest index in `lo..hi` that holds no line feed, or `lo - 1`.
pub open spec fn last_non_newline(s: Seq<char>, lo: int, hi: int) -> int
    decreases hi - lo,
{
    if hi <= lo {
        lo - 1
    } else if s[hi - 1] != '\n' {
        hi - 1
    } else {
        last_non_newline(s, lo, hi - 1)
    }
}

/// The match of the prefix pattern that starts at `p`, if there is one:
/// the end of the number, and the start and end of the caption. The number
/// is as long as it can be; the white space after it is too, unless it runs
/// to the end of `s`, in which case the caption is the last of it that is no
/// line feed; the caption runs to the end of its line.
pub open spec fn match_at(s: Seq<char>, p: int) -> Option<(int, int, int)> {
    if !(0 <= p < s.len() && s[p] == '\\') {
        None
    } else {
        let d = digits_end(s, p + 1);
        if d == p + 1 {
            None
        } else {
            let e = digits_end(s, d + 1);
            let f = if d < s.len() && s[d] == '.' && e > d + 1 {
                e
            } else {
                d
            };
            let w = spaces_end(s, f);
            if w == f {
                None
            } else {
                let c = if w < s.len() {
                    w
                } else {
                    last_non_newline(s, f + 1, w)
                };
                if c <= f {
                    None
                } else {
                    Some((f, c, line_end(s, c)))
                }
            }
        }
    }
}

/// What the prefix pattern captures at the beginning of `s`: the number
/// and the caption.
pub open spec fn scale_captures(s: Seq<char>) -> Option<(Seq<char>, Seq<char>)> {
    match match_at(s, 0) {
        Some((f, c, e)) => Some((s.subrange(1, f), s.subrange(c, e))),
        None => None,
    }
}

/// The in-band scale and the text of the annotation written `s`.
///
/// A leading doubled backslash stands for one backslash, and the text has no
/// scale; text that does not begin with a backslash has no scale; otherwise
/// the prefix pattern decides, and where it does not match, the text is `s`
/// as it stands.
pub open spec fn scaled_annotation_parts(s: Seq<char>) -> (Option<Seq<char>>, Seq<char>) {
    if s.len() >= 2 && s[0] == '\\' && s[1] == '\\' {
        (None, s.drop_first())
    } else if !(s.len() >= 1 && s[0] == '\\') {
        (None, s)
    } else {
        match scale_captures(s) {
            Some((scale, caption)) => (Some(scale), caption),
            None => (None, s),
        }
    }
}

fn digits_end_exec(s: &Vec<char>, n: usize, i: usize) -> (r: usize)
    requires
        n == s@.len(),
        i <= n,
    ensures
        r == digits_end(s@, i as int),
        i <= r <= n,
{
    let mut j = i;
    while j < n && decimal_digit(s[j])
        invariant
            n == s@.len(),
            i <= j <= n,
            digits_end(s@, i as int) == digits_end(s@, j as int),
        decreases n - j,
    {
        j = j + 1;
    }
    j
}

fn spaces_end_exec(s: &Vec<char>, n: usize, i: usize) -> (r: usize)
    requires
        n == s@.len(),
        i <= n,
    ensures
        r == spaces_end(s@, i as int),
        i <= r <= n,
{
    let mut j = i;
    while j < n && white_space(s[j])
        invariant
            n == s@.len(),
            i <= j <= n,
            spaces_end(s@, i as int) == spaces_end(s@, j as int),
        decreases n - j,
    {
        j = j + 1;
    }
    j
}

fn line_end_exec(s: &Vec<char>, n: usize, i: usize) -> (r: usize)
    requires
        n == s@.len(),
        i <= n,
    ensures
        r == line_end(s@, i as int),
        i <= r <= n,
{
    let mut j = i;
    while j < n && s[j] != '\n'
        invariant
            n == s@.len(),
            i <= j <= n,
            line_end(s@, i as int) == line_end(s@, j as int),
        decreases n - j,
    {
        j = j + 1;
    }
    j
}

/// Finds the greatest index in `lo..hi` that holds no line feed.
fn last_non_newline_exec(s: &Vec<char>, n: usize, lo: usize, hi: usize) -> (r: Option<usize>)
    requires
        n == s@.len(),
        1 <= lo <= hi <= n,
    ensures
        match r {
            Some(c) => c == last_non_newline(s@, lo as int, hi as int) && lo <= c < hi,
            None => last_non_newline(s@, lo as int, hi as int) == lo - 1,
        },
{
    let mut h = hi;
    while h > lo
        invariant
            n == s@.len(),
            1 <= lo <= h <= hi <= n,
            last_non_newline(s@, lo as int, hi as int) == last_non_newline(
                s@,
                lo as int,
                h as int,
            ),
        decreases h,
    {
        if s[h - 1] != '\n' {
            return Some(h - 1);
        }
        h = h - 1;
    }
    None
}

/// Finds the match of the prefix pattern that starts at `p`.
fn match_at_exec(s: &Vec<char>, n: usize, p: usize) -> (r: Option<(usize, usize, usize)>)
    requires
        n == s@.len(),
        p < n,
    ensures
        match r {
            Some((f, c, e)) => match_at(s@, p as int) == Some((f as int, c as int, e as int)) && p
                < f < c < e <= n,
            None => match_at(s@, p as int) is None,
        },
{
    if s[p] != '\\' {
        return None;
    }
    let d = digits_end_exec(s, n, p + 1);
    if d == p + 1 {
        return None;
    }
    let f = if d < n && s[d] == '.' {
        let e = digits_end_exec(s, n, d + 1);
        if e > d + 1 {
            e
        } else {
            d
        }
    } else {
        d
    };
    let w = spaces_end_exec(s, n, f);
    if w == f {
        return None;
    }
    let c = if w < n {
        w
    } else {
        match last_non_newline_exec(s, n, f + 1, w) {
            Some(c) => c,
            None => {
                return None;
            },
        }
    };
    proof {
        lemma_spaces_end(s@, f as int);
        if w < n {
            assert(s@[c as int] != '\n');
        } else {
            lemma_last_non_newline_holds(s@, f + 1, w as int);
        }
    }
    let e = line_end_exec(s, n, c);
    proof {
        lemma_line_end(s@, c + 1);
    }
    Some((f, c, e))
}

proof fn lemma_digits_end(s: Seq<char>, i: int)
    requires
        0 <= i <= s.len(),
    ensures
        i <= digits_end(s, i) <= s.len(),
        digits_end(s, i) < s.len() ==> !is_decimal_digit(s[digits_end(s, i)]),
        forall|k: int| i <= k < digits_end(s, i) ==> is_decimal_digit(#[trigger] s[k]),
    decreases s.len() - i,
{
    if i < s.len() && is_decimal_digit(s[i]) {
        lemma_digits_end(s, i + 1);
    }
}

proof fn lemma_spaces_end(s: Seq<char>, i: int)
    requires
        0 <= i <= s.len(),
    ensures
        i <= spaces_end(s, i) <= s.len(),
        spaces_end(s, i) < s.len() ==> !is_white_space(s[spaces_end(s, i)]),
        forall|k: int| i <= k < spaces_end(s, i) ==> is_white_space(#[trigger] s[k]),
    decreases s.len() - i,
{
    if i < s.len() && is_white_space(s[i]) {
        lemma_spaces_end(s, i + 1);
    }
}

proof fn lemma_line_end(s: Seq<char>, i: int)
    requires
        0 <= i <= s.len(),
    ensures
        i <= line_end(s, i) <= s.len(),
        line_end(s, i) < s.len() ==> s[line_end(s, i)] == '\n',
        forall|k: int| i <= k < line_end(s, i) ==> #[trigger] s[k] != '\n',
    decreases s.len() - i,
{
    if i < s.len() && s[i] != '\n' {
        lemma_line_end(s, i + 1);
    }
}

proof fn lemma_last_non_newline_holds(s: Seq<char>, lo: int, hi: int)
    requires
        0 <= lo <= hi <= s.len(),
    ensures
        lo <= last_non_newline(s, lo, hi) ==> last_non_newline(s, lo, hi) < hi && s[last_non_newline(s, lo, hi)] != '\n',
        last_non_newline(s, lo, hi) >= lo - 1,
    decreases hi - lo,
{
    if hi > lo && s[hi - 1] == '\n' {
        lemma_last_non_newline_holds(s, lo, hi - 1);
    }
}

/// Matches the prefix pattern at the beginning of `s`, and returns the
/// number and the caption that it captures.
pub fn scale_captures_exec(s: &str) -> (r: Option<(String, String)>)
    ensures
        match r {
            Some((scale, caption)) => scale_captures(s@) == Some((scale@, caption@)),
            None => scale_captures(s@) is None,
        },
{
    let cs = chars_of(s);
    let n = cs.len();
    if n == 0 {
        return None;
    }
    match match_at_exec(&cs, n, 0) {
        Some((f, c, e)) => {
            let scale = String::from_str(s.substring_char(1, f));
            let caption = String::from_str(s.substring_char(c, e));
            Some((scale, caption))
        },
        None => None,
    }
}

/// The decimal number written `whole`, or `whole.fraction`.
pub open spec fn decimal_number(whole: Seq<char>, fraction: Option<Seq<char>>) -> Seq<char> {
    match fraction {
        Some(f) => whole + seq!['.'] + f,
        None => whole,
    }
}

/// `t` splits at `k` into a nonempty run of decimal digits and, unless `k`
/// is its end, a point and another nonempty run of decimal digits.
pub open spec fn splits_as_decimal(t: Seq<char>, k: int) -> bool {
    &&& 0 < k <= t.len()
    &&& forall|i: int| 0 <= i < k ==> is_decimal_digit(#[trigger] t[i])
    &&& k == t.len() || (t[k] == '.' && k + 1 < t.len() && forall|i: int|
        k < i < t.len() ==> is_decimal_digit(#[trigger] t[i]))
}

/// `t` is a run of decimal digits, possibly followed by a point and another
/// run of decimal digits.
pub open spec fn is_decimal_number(t: Seq<char>) -> bool {
    exists|k: int| splits_as_decimal(t, k)
}

proof fn lemma_digit_is_not(c: char)
    ensures
        is_decimal_digit(c) ==> !is_white_space(c) && c != '.' && c != '\\' && c != '\n',
        is_white_space(c) ==> c != '.' && c != '\\',
        is_white_space('\n'),
{
}

proof fn lemma_digits_run(s: Seq<char>, i: int, k: int)
    requires
        0 <= i <= k <= s.len(),
        forall|j: int| i <= j < k ==> is_decimal_digit(#[trigger] s[j]),
        k == s.len() || !is_decimal_digit(s[k]),
    ensures
        digits_end(s, i) == k,
    decreases k - i,
{
    if i < k {
        lemma_digits_run(s, i + 1, k);
    }
}

proof fn lemma_spaces_run(s: Seq<char>, i: int, k: int)
    requires
        0 <= i <= k <= s.len(),
        forall|j: int| i <= j < k ==> is_white_space(#[trigger] s[j]),
        k == s.len() || !is_white_space(s[k]),
    ensures
        spaces_end(s, i) == k,
    decreases k - i,
{
    if i < k {
        lemma_spaces_run(s, i + 1, k);
    }
}

proof fn lemma_line_run(s: Seq<char>, i: int, k: int)
    requires
        0 <= i <= k <= s.len(),
        forall|j: int| i <= j < k ==> #[trigger] s[j] != '\n',
        k == s.len() || s[k] == '\n',
    ensures
        line_end(s, i) == k,
    decreases k - i,
{
    if i < k {
        lemma_line_run(s, i + 1, k);
    }
}

/// An annotation that begins with a backslash, a decimal number, some white
/// space and then a caption that begins with no white space and holds no
/// line feed, is the caption at the scale of that number: the white space
/// between them is dropped.
pub proof fn law_in_band_scale(
    whole: Seq<char>,
    fraction: Option<Seq<char>>,
    gap: Seq<char>,
    caption: Seq<char>,
)
    requires
        whole.len() > 0,
        forall|i: int| 0 <= i < whole.len() ==> is_decimal_digit(#[trigger] whole[i]),
        fraction matches Some(f) ==> f.len() > 0 && forall|i: int|
            0 <= i < f.len() ==> is_decimal_digit(#[trigger] f[i]),
        gap.len() > 0,
        forall|i: int| 0 <= i < gap.len() ==> is_white_space(#[trigger] gap[i]),
        caption.len() > 0,
        !is_white_space(caption[0]),
        forall|i: int| 0 <= i < caption.len() ==> #[trigger] caption[i] != '\n',
    ensures
        scaled_annotation_parts(seq!['\\'] + decimal_number(whole, fraction) + gap + caption) == (
        Some(decimal_number(whole, fraction)), caption),
{
    let num = decimal_number(whole, fraction);
    let s = seq!['\\'] + num + gap + caption;
    let d: int = whole.len() as int + 1;
    let f_end: int = num.len() as int + 1;
    let w: int = f_end + gap.len();
    assert(s[1] == whole[0]);
    lemma_digit_is_not(whole[0]);
    lemma_digit_is_not(gap[0]);
    assert forall|j: int| 1 <= j < d implies is_decimal_digit(#[trigger] s[j]) by {
        assert(s[j] == whole[j - 1]);
    }
    match fraction {
        Some(fr) => {
            assert(s[d] == '.');
            lemma_digit_is_not('.');
            lemma_digits_run(s, 1, d);
            assert forall|j: int| d + 1 <= j < f_end implies is_decimal_digit(#[trigger] s[j]) by {
                assert(s[j] == fr[j - d - 1]);
            }
            assert(s[f_end] == gap[0]);
            lemma_digits_run(s, d + 1, f_end);
        },
        None => {
            assert(s[d] == gap[0]);
            lemma_digits_run(s, 1, d);
        },
    }
    assert forall|j: int| f_end <= j < w implies is_white_space(#[trigger] s[j]) by {
        assert(s[j] == gap[j - f_end]);
    }
    assert(s[w] == caption[0]);
    lemma_spaces_run(s, f_end, w);
    assert forall|j: int| w <= j < s.len() implies #[trigger] s[j] != '\n' by {
        assert(s[j] == caption[j - w]);
    }
    lemma_line_run(s, w, s.len() as int);
    assert(match_at(s, 0) == Some((f_end, w, s.len() as int)));
    assert(s.subrange(1, f_end) =~= num);
    assert(s.subrange(w, s.len() as int) =~= caption);
}

/// A doubled leading backslash stands for one backslash, and such an
/// annotation has no in-band scale.
pub proof fn law_escaped_backslash(rest: Seq<char>)
    ensures
        scaled_annotation_parts(seq!['\\', '\\'] + rest) == (None::<Seq<char>>, seq!['\\'] + rest),
{
    assert((seq!['\\', '\\'] + rest).drop_first() =~= seq!['\\'] + rest);
}

/// An annotation that does not begin with a backslash is taken as it stands.
pub proof fn law_plain_text(s: Seq<char>)
    requires
        s.len() == 0 || s[0] != '\\',
    ensures
        scaled_annotation_parts(s) == (None::<Seq<char>>, s),
{
}

/// Some white space is required between an in-band scale and the caption:
/// where the number runs straight into the text, the annotation is taken as
/// it stands.
pub proof fn law_scale_needs_space(whole: Seq<char>, rest: Seq<char>)
    requires
        whole.len() > 0,
        forall|i: int| 0 <= i < whole.len() ==> is_decimal_digit(#[trigger] whole[i]),
        rest.len() > 0,
        !is_decimal_digit(rest[0]),
        !is_white_space(rest[0]),
        rest[0] != '.',
    ensures
        scaled_annotation_parts(seq!['\\'] + whole + rest) == (None::<Seq<char>>, seq!['\\']
            + whole + rest),
{
    let s = seq!['\\'] + whole + rest;
    let d: int = whole.len() as int + 1;
    assert(s[1] == whole[0]);
    lemma_digit_is_not(whole[0]);
    assert forall|j: int| 1 <= j < d implies is_decimal_digit(#[trigger] s[j]) by {
        assert(s[j] == whole[j - 1]);
    }
    assert(s[d] == rest[0]);
    lemma_digits_run(s, 1, d);
    lemma_spaces_run(s, d, d);
    assert(match_at(s, 0) is None);
}

/// Whatever an annotation is, its in-band scale, where it has one, is a
/// decimal number, and its caption is then a nonempty line.
pub proof fn law_scale_is_decimal_number(s: Seq<char>)
    ensures
        scaled_annotation_parts(s).0 matches Some(scale) ==> {
            &&& is_decimal_number(scale)
            &&& scaled_annotation_parts(s).1.len() > 0
            &&& forall|i: int|
                0 <= i < scaled_annotation_parts(s).1.len() ==> #[trigger] scaled_annotation_parts(
                    s,
                ).1[i] != '\n'
        },
{
    if s.len() >= 1 && s[0] == '\\' && !(s.len() >= 2 && s[1] == '\\') {
        if let Some((f, c, e)) = match_at(s, 0) {
            let q = 0int;
            let d = digits_end(s, q + 1);
            lemma_digits_end(s, q + 1);
            lemma_spaces_end(s, f);
            let scale = s.subrange(q + 1, f);
            let k = d - q - 1;
            if d < s.len() && s[d] == '.' && digits_end(s, d + 1) > d + 1 {
                lemma_digits_end(s, d + 1);
            }
            assert(0 < k <= scale.len());
            assert forall|i: int| 0 <= i < k implies is_decimal_digit(#[trigger] scale[i]) by {
                assert(scale[i] == s[q + 1 + i]);
            }
            if k < scale.len() {
                assert forall|i: int| k < i < scale.len() implies is_decimal_digit(
                    #[trigger] scale[i],
                ) by {
                    assert(scale[i] == s[q + 1 + i]);
                }
            }
            assert(splits_as_decimal(scale, k));
            let w = spaces_end(s, f);
            if w >= s.len() {
                lemma_last_non_newline_holds(s, f + 1, w);
            }
            lemma_line_end(s, c);
            lemma_line_end(s, c + 1);
            let caption = s.subrange(c, e);
            assert forall|i: int| 0 <= i < caption.len() implies #[trigger] caption[i] != '\n' by {
                assert(caption[i] == s[c + i]);
            }
        }
    }
}

} // verus!
