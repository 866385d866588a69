//! License expressions, flattened to the license names they mention.
//!
//! An expression such as `(MIT OR Apache-2.0)` is not parsed as a formula: its
//! operators become separators, and what stands between them, stripped of
//! blanks and parentheses, are the tokens.

use crate::text::{chars_of, is_white_space, string_of_range, texts, white_space};
use vstd::prelude::*;

verus! {

/// Whether `s` begins with `pattern`.
pub open spec fn starts_with(s: Seq<char>, pattern: Seq<char>) -> bool {
    pattern.len() <= s.len() && s.take(pattern.len() as int) == pattern
}

/// `s` with each occurrence of `pattern` replaced by the one character `by`;
/// occurrences are taken from the left and do not overlap.
pub open spec fn replaced(s: Seq<char>, pattern: Seq<char>, by: char) -> Seq<char>
    decreases s.len(),
{
    if s.len() == 0 || pattern.len() == 0 {
        s
    } else if starts_with(s, pattern) {
        seq![by] + replaced(s.skip(pattern.len() as int), pattern, by)
    } else {
        seq![s[0]] + replaced(s.skip(1), pattern, by)
    }
}

/// The character that stands for an operator once an expression is normalized.
pub open spec fn separator() -> char {
    '|'
}

/// `expr` with its operators replaced by the separator: first every ` OR `,
/// then every ` or `, then every ` AND `, then every ` and `.
pub open spec fn normalized(expr: Seq<char>) -> Seq<char> {
    replaced(
        replaced(
            replaced(replaced(expr, " OR "@, separator()), " or "@, separator()),
            " AND "@,
            separator(),
        ),
        " and "@,
        separator(),
    )
}

/// The index of the first `sep` in `s`, or the length of `s` if it holds none.
pub open spec fn first_separator(s: Seq<char>, sep: char) -> nat
    decreases s.len(),
{
    if s.len() == 0 || s[0] == sep {
        0
    } else {
        1 + first_separator(s.skip(1), sep)
    }
}

/// The stretches of `s` between occurrences of `sep`; one more than there are
/// occurrences, so some may be empty.
pub open spec fn pieces(s: Seq<char>, sep: char) -> Seq<Seq<char>>
    decreases s.len(),
{
    let k = first_separator(s, sep) as int;
    if k >= s.len() {
        seq![s]
    } else {
        seq![s.take(k)] + pieces(s.skip(k + 1), sep)
    }
}

/// Whether `c` is stripped from the ends of a token: white space and
/// parentheses are.
pub open spec fn is_stripped(c: char) -> bool {
    is_white_space(c) || c == '(' || c == ')'
}

/// `s` without the stripped characters it begins with.
pub open spec fn stripped_start(s: Seq<char>) -> Seq<char>
    decreases s.len(),
{
    if s.len() > 0 && is_stripped(s[0]) {
        stripped_start(s.skip(1))
    } else {
        s
    }
}

/// `s` without the stripped characters it ends with.
pub open spec fn stripped_end(s: Seq<char>) -> Seq<char>
    decreases s.len(),
{
    if s.len() > 0 && is_stripped(s.last()) {
        stripped_end(s.drop_last())
    } else {
        s
    }
}

/// `s` without the stripped characters at either end.
pub open spec fn stripped(s: Seq<char>) -> Seq<char> {
    stripped_end(stripped_start(s))
}

/// The token a piece yields: itself stripped, unless nothing is left.
pub open spec fn token_of(piece: Seq<char>) -> Seq<Seq<char>> {
    if stripped(piece).len() > 0 {
        seq![stripped(piece)]
    } else {
        Seq::empty()
    }
}

/// The tokens that `parts` yield, in order.
pub open spec fn tokens_of(parts: Seq<Seq<char>>) -> Seq<Seq<char>>
    decreases parts.len(),
{
    if parts.len() == 0 {
        Seq::empty()
    } else {
        token_of(parts[0]) + tokens_of(parts.skip(1))
    }
}

/// The tokens of a normalized expression.
pub open spec fn separated_tokens(s: Seq<char>) -> Seq<Seq<char>> {
    tokens_of(pieces(s, separator()))
}

/// The license names that the expression `expr` mentions, in order.
pub open spec fn license_tokens(expr: Seq<char>) -> Seq<Seq<char>> {
    separated_tokens(normalized(expr))
}

proof fn first_separator_found(s: Seq<char>, sep: char, k: int)
    requires
        0 <= k <= s.len(),
        forall|j: int| 0 <= j < k ==> s[j] != sep,
        k == s.len() || s[k] == sep,
    ensures
        first_separator(s, sep) == k,
    decreases k,
{
    if k > 0 {
        first_separator_found(s.skip(1), sep, k - 1);
    }
}

proof fn tokens_split(s: Seq<char>, k: int)
    requires
        0 <= k <= s.len(),
        forall|j: int| 0 <= j < k ==> s[j] != separator(),
        k == s.len() || s[k] == separator(),
    ensures
        separated_tokens(s) == if k == s.len() {
            token_of(s)
        } else {
            token_of(s.take(k)) + separated_tokens(s.skip(k + 1))
        },
{
    first_separator_found(s, separator(), k);
    if k == s.len() {
        let parts = seq![s];
        assert(parts.skip(1) =~= Seq::<Seq<char>>::empty());
        assert(tokens_of(parts.skip(1)) =~= Seq::<Seq<char>>::empty());
        assert(tokens_of(parts) =~= token_of(s));
    } else {
        let rest = pieces(s.skip(k + 1), separator());
        let parts = seq![s.take(k)] + rest;
        assert(parts.skip(1) =~= rest);
        assert(parts[0] == s.take(k));
    }
}

fn matches_at(s: &Vec<char>, at: usize, pattern: &Vec<char>) -> (found: bool)
    requires
        at <= s.len(),
    ensures
        found == starts_with(s@.skip(at as int), pattern@),
{
    if pattern.len() > s.len() - at {
        return false;
    }
    let mut j: usize = 0;
    while j < pattern.len()
        invariant
            j <= pattern.len(),
            at + pattern.len() <= s.len(),
            forall|i: int| 0 <= i < j ==> s[at + i] == pattern[i],
        decreases pattern.len() - j,
    {
        if s[at + j] != pattern[j] {
            assert(s@.skip(at as int).take(pattern.len() as int)[j as int] != pattern@[j as int]);
            return false;
        }
        j += 1;
    }
    assert(s@.skip(at as int).take(pattern.len() as int) =~= pattern@);
    true
}

/// Replaces each occurrence of `pattern` in `s` by the one character `by`,
/// taking occurrences from the left.
pub fn replace_pattern(s: &Vec<char>, pattern: &Vec<char>, by: char) -> (out: Vec<char>)
    ensures
        out@ == replaced(s@, pattern@, by),
{
    let mut out: Vec<char> = Vec::new();
    let mut i: usize = 0;
    assert(s@.skip(0) =~= s@);
    while i < s.len()
        invariant
            i <= s.len(),
            out@ + replaced(s@.skip(i as int), pattern@, by) == replaced(s@, pattern@, by),
        decreases s.len() - i,
    {
        let ghost rest = s@.skip(i as int);
        let ghost done = out@;
        if pattern.len() > 0 && matches_at(s, i, pattern) {
            assert(rest.skip(pattern.len() as int) =~= s@.skip(i + pattern.len()));
            out.push(by);
            i += pattern.len();
            assert(out@ + replaced(s@.skip(i as int), pattern@, by) =~= done + replaced(
                rest,
                pattern@,
                by,
            ));
        } else {
            assert(rest.skip(1) =~= s@.skip(i + 1));
            out.push(s[i]);
            i += 1;
            if pattern.len() == 0 {
                assert(out@ + s@.skip(i as int) =~= done + rest);
            } else {
                assert(out@ + replaced(s@.skip(i as int), pattern@, by) =~= done + replaced(
                    rest,
                    pattern@,
                    by,
                ));
            }
        }
    }
    assert(out@ + Seq::<char>::empty() =~= out@);
    out
}

fn strip_char(c: char) -> (b: bool)
    ensures
        b == is_stripped(c),
{
    white_space(c) || c == '(' || c == ')'
}

fn strip_bounds(s: &Vec<char>, from: usize, to: usize) -> (bounds: (usize, usize))
    requires
        from <= to <= s.len(),
    ensures
        from <= bounds.0 <= bounds.1 <= to,
        s@.subrange(bounds.0 as int, bounds.1 as int) == stripped(s@.subrange(from as int, to as int)),
{
    let mut lo: usize = from;
    while lo < to && strip_char(s[lo])
        invariant
            from <= lo <= to <= s.len(),
            stripped_start(s@.subrange(lo as int, to as int)) == stripped_start(
                s@.subrange(from as int, to as int),
            ),
        decreases to - lo,
    {
        assert(s@.subrange(lo as int, to as int).skip(1) =~= s@.subrange(lo + 1, to as int));
        lo += 1;
    }
    let mut hi: usize = to;
    while lo < hi && strip_char(s[hi - 1])
        invariant
            lo <= hi <= to <= s.len(),
            stripped_end(s@.subrange(lo as int, hi as int)) == stripped_end(
                s@.subrange(lo as int, to as int),
            ),
        decreases hi - lo,
    {
        assert(s@.subrange(lo as int, hi as int).drop_last() =~= s@.subrange(lo as int, hi - 1));
        hi -= 1;
    }
    (lo, hi)
}

/// The tokens of an expression whose operators are separators already.
fn separated(s: &Vec<char>) -> (tokens: Vec<String>)
    ensures
        texts(tokens@) == separated_tokens(s@),
{
    let mut tokens: Vec<String> = Vec::new();
    let mut start: usize = 0;
    assert(s@.skip(0) =~= s@);
    assert(texts(tokens@) =~= Seq::empty());
    loop
        invariant_except_break
            start <= s.len(),
            texts(tokens@) + separated_tokens(s@.skip(start as int)) == separated_tokens(s@),
        ensures
            texts(tokens@) == separated_tokens(s@),
        decreases s.len() - start,
    {
        let mut end: usize = start;
        while end < s.len() && s[end] != '|'
            invariant
                start <= end <= s.len(),
                forall|j: int| start <= j < end ==> s[j] != separator(),
            decreases s.len() - end,
        {
            end += 1;
        }
        let ghost rest = s@.skip(start as int);
        let ghost done = texts(tokens@);
        proof {
            tokens_split(rest, end - start);
            assert(rest.take(end - start) =~= s@.subrange(start as int, end as int));
        }
        let (lo, hi) = strip_bounds(s, start, end);
        if lo < hi {
            let token = string_of_range(s, lo, hi);
            tokens.push(token);
            assert(texts(tokens@) =~= done + token_of(s@.subrange(start as int, end as int)));
        } else {
            assert(done =~= done + token_of(s@.subrange(start as int, end as int)));
        }
        if end == s.len() {
            assert(rest.take(end - start) =~= rest);
            break ;
        }
        assert(rest.skip(end - start + 1) =~= s@.skip(end + 1));
        start = end + 1;
    }
    tokens
}

/// Splits a license expression such as `(MIT OR Apache-2.0)` into the license
/// names it mentions, here `MIT` and `Apache-2.0`.
pub fn parse_license_expression(license_str: &str) -> (tokens: Vec<String>)
    ensures
        texts(tokens@) == license_tokens(license_str@),
{
    let expr = chars_of(license_str);
    let upper_or = chars_of(" OR ");
    let lower_or = chars_of(" or ");
    let upper_and = chars_of(" AND ");
    let lower_and = chars_of(" and ");
    let first = replace_pattern(&expr, &upper_or, '|');
    let second = replace_pattern(&first, &lower_or, '|');
    let third = replace_pattern(&second, &upper_and, '|');
    let fourth = replace_pattern(&third, &lower_and, '|');
    separated(&fourth)
}

/// Whether `pattern` occurs somewhere in `s`.
pub open spec fn occurs(s: Seq<char>, pattern: Seq<char>) -> bool {
    exists|k: int| 0 <= k <= s.len() && #[trigger] starts_with(s.skip(k), pattern)
}

/// Whether `t` is a stretch of `s`.
pub open spec fn is_part_of(t: Seq<char>, s: Seq<char>) -> bool {
    exists|a: int, b: int| 0 <= a <= b <= s.len() && t == #[trigger] s.subrange(a, b)
}

/// Whether `pattern` is one of the four operators that normalizing replaces.
pub open spec fn is_operator(pattern: Seq<char>) -> bool {
    pattern == " OR "@ || pattern == " or "@ || pattern == " AND "@ || pattern == " and "@
}

/// Whether `t` is a plain license name: not empty, with no character at
/// either end that would be stripped, and with no separator and no operator
/// inside.
pub open spec fn is_license_name(t: Seq<char>) -> bool {
    &&& t.len() > 0
    &&& !is_stripped(t[0])
    &&& !is_stripped(t.last())
    &&& !t.contains(separator())
    &&& forall|pattern: Seq<char>| is_operator(pattern) ==> !#[trigger] occurs(t, pattern)
}

proof fn operators_hold_no_separator(pattern: Seq<char>)
    requires
        is_operator(pattern),
    ensures
        pattern.len() > 0,
        !pattern.contains(separator()),
{
    reveal_strlit(" OR ");
    reveal_strlit(" or ");
    reveal_strlit(" AND ");
    reveal_strlit(" and ");
    if pattern.contains(separator()) {
        let i = choose|i: int| 0 <= i < pattern.len() && pattern[i] == separator();
        assert(pattern[i] != '|');
    }
}

proof fn occurs_in_the_whole(s: Seq<char>, a: int, b: int, pattern: Seq<char>)
    requires
        0 <= a <= b <= s.len(),
        occurs(s.subrange(a, b), pattern),
    ensures
        occurs(s, pattern),
{
    let t = s.subrange(a, b);
    let k = choose|k: int| 0 <= k <= t.len() && #[trigger] starts_with(t.skip(k), pattern);
    assert(s.skip(a + k).take(pattern.len() as int) =~= t.skip(k).take(pattern.len() as int));
    assert(starts_with(s.skip(a + k), pattern));
}

/// As far as the result of a replacement holds no `by`, it is the text itself.
proof fn untouched_prefix(s: Seq<char>, pattern: Seq<char>, by: char, j: int)
    requires
        0 <= j <= replaced(s, pattern, by).len(),
        forall|i: int| 0 <= i < j ==> replaced(s, pattern, by)[i] != by,
    ensures
        j <= s.len(),
        replaced(s, pattern, by).take(j) == s.take(j),
    decreases s.len(),
{
    let out = replaced(s, pattern, by);
    if j == 0 {
        assert(out.take(0) =~= s.take(0));
    } else if s.len() == 0 || pattern.len() == 0 {
    } else if starts_with(s, pattern) {
        assert(out[0] == by);
    } else {
        let rest = replaced(s.skip(1), pattern, by);
        assert forall|i: int| 0 <= i < j - 1 implies rest[i] != by by {
            assert(out[i + 1] == rest[i]);
        }
        untouched_prefix(s.skip(1), pattern, by, j - 1);
        assert(rest.take(j - 1) == s.skip(1).take(j - 1));
        assert forall|i: int| 0 <= i < j implies out.take(j)[i] == s.take(j)[i] by {
            if i > 0 {
                assert(out[i] == rest[i - 1]);
                assert(rest.take(j - 1)[i - 1] == s.skip(1).take(j - 1)[i - 1]);
            }
        }
        assert(out.take(j) =~= s.take(j));
    }
}

/// A replacement leaves no occurrence of its own pattern, and brings in no
/// occurrence of another pattern that the text was free of.
proof fn replaced_is_free_of(s: Seq<char>, pattern: Seq<char>, by: char, other: Seq<char>)
    requires
        other.len() > 0,
        !other.contains(by),
        other == pattern || !occurs(s, other),
    ensures
        !occurs(replaced(s, pattern, by), other),
    decreases s.len(),
{
    let out = replaced(s, pattern, by);
    assert(s.skip(0) =~= s);
    assert(other.contains(other[0]));
    if s.len() == 0 || pattern.len() == 0 {
        if other == pattern {
            assert forall|k: int| 0 <= k <= out.len() implies !#[trigger] starts_with(
                out.skip(k),
                other,
            ) by {}
        }
    } else {
        let step: int = if starts_with(s, pattern) {
            pattern.len() as int
        } else {
            1
        };
        let rest = replaced(s.skip(step), pattern, by);
        if other != pattern && occurs(s.skip(step), other) {
            assert(s.skip(step) =~= s.subrange(step, s.len() as int));
            occurs_in_the_whole(s, step, s.len() as int, other);
        }
        replaced_is_free_of(s.skip(step), pattern, by, other);
        assert(out.len() == rest.len() + 1);
        assert forall|k: int| 0 <= k <= out.len() implies !#[trigger] starts_with(
            out.skip(k),
            other,
        ) by {
            if k >= 1 {
                assert(out.skip(k) =~= rest.skip(k - 1));
                assert(!starts_with(rest.skip(k - 1), other));
            } else if starts_with(out.skip(0), other) {
                assert(out.skip(0) =~= out);
                let m = other.len() as int;
                assert forall|i: int| 0 <= i < m implies out[i] != by by {
                    assert(out.take(m)[i] == other[i]);
                    assert(other.contains(other[i]));
                }
                if starts_with(s, pattern) {
                    assert(out[0] == by);
                } else {
                    untouched_prefix(s, pattern, by, m);
                    assert(starts_with(s.skip(0), other));
                }
            }
        }
    }
}

/// Replacing a pattern that does not occur changes nothing.
proof fn replaced_without_occurrence(s: Seq<char>, pattern: Seq<char>, by: char)
    requires
        !occurs(s, pattern),
    ensures
        replaced(s, pattern, by) == s,
    decreases s.len(),
{
    if s.len() > 0 && pattern.len() > 0 {
        assert(s.skip(0) =~= s);
        assert(!starts_with(s.skip(0), pattern));
        if occurs(s.skip(1), pattern) {
            assert(s.skip(1) =~= s.subrange(1, s.len() as int));
            occurs_in_the_whole(s, 1, s.len() as int, pattern);
        }
        replaced_without_occurrence(s.skip(1), pattern, by);
        assert(seq![s[0]] + s.skip(1) =~= s);
    }
}

/// A normalized expression holds no operator any more.
pub proof fn normalized_holds_no_operator(expr: Seq<char>, pattern: Seq<char>)
    requires
        is_operator(pattern),
    ensures
        !occurs(normalized(expr), pattern),
{
    let by = separator();
    let first = replaced(expr, " OR "@, by);
    let second = replaced(first, " or "@, by);
    let third = replaced(second, " AND "@, by);
    operators_hold_no_separator(pattern);
    operators_hold_no_separator(" OR "@);
    operators_hold_no_separator(" or "@);
    operators_hold_no_separator(" AND "@);
    operators_hold_no_separator(" and "@);
    replaced_is_free_of(expr, " OR "@, by, " OR "@);
    replaced_is_free_of(first, " or "@, by, " OR "@);
    replaced_is_free_of(first, " or "@, by, " or "@);
    replaced_is_free_of(second, " AND "@, by, " OR "@);
    replaced_is_free_of(second, " AND "@, by, " or "@);
    replaced_is_free_of(second, " AND "@, by, " AND "@);
    replaced_is_free_of(third, " and "@, by, " OR "@);
    replaced_is_free_of(third, " and "@, by, " or "@);
    replaced_is_free_of(third, " and "@, by, " AND "@);
    replaced_is_free_of(third, " and "@, by, " and "@);
}

proof fn first_separator_bounds(s: Seq<char>, sep: char)
    ensures
        first_separator(s, sep) <= s.len(),
        forall|j: int| 0 <= j < first_separator(s, sep) ==> s[j] != sep,
        first_separator(s, sep) < s.len() ==> s[first_separator(s, sep) as int] == sep,
    decreases s.len(),
{
    if s.len() > 0 && s[0] != sep {
        first_separator_bounds(s.skip(1), sep);
        assert forall|j: int| 0 <= j < first_separator(s, sep) implies s[j] != sep by {
            if j > 0 {
                assert(s.skip(1)[j - 1] == s[j]);
            }
        }
    }
}

proof fn pieces_are_parts(s: Seq<char>, sep: char, i: int)
    requires
        0 <= i < pieces(s, sep).len(),
    ensures
        is_part_of(pieces(s, sep)[i], s),
        !pieces(s, sep)[i].contains(sep),
    decreases s.len(),
{
    let k = first_separator(s, sep) as int;
    first_separator_bounds(s, sep);
    if k >= s.len() || i == 0 {
        let piece = pieces(s, sep)[i];
        assert(piece == s.take(k));
        assert(piece == s.subrange(0, k));
        if piece.contains(sep) {
            let j = choose|j: int| 0 <= j < piece.len() && piece[j] == sep;
            assert(s[j] == sep);
        }
    } else {
        let rest = s.skip(k + 1);
        assert(pieces(s, sep)[i] == pieces(rest, sep)[i - 1]);
        pieces_are_parts(rest, sep, i - 1);
        let (a, b) = choose|a: int, b: int|
            0 <= a <= b <= rest.len() && pieces(rest, sep)[i - 1] == #[trigger] rest.subrange(a, b);
        assert(rest.subrange(a, b) =~= s.subrange(k + 1 + a, k + 1 + b));
    }
}

proof fn stripped_start_facts(s: Seq<char>)
    ensures
        stripped_start(s).len() <= s.len(),
        stripped_start(s) == s.skip(s.len() - stripped_start(s).len()),
        stripped_start(s).len() > 0 ==> !is_stripped(stripped_start(s)[0]),
    decreases s.len(),
{
    if s.len() > 0 && is_stripped(s[0]) {
        stripped_start_facts(s.skip(1));
        let n = stripped_start(s).len();
        assert(s.skip(1).skip(s.len() - 1 - n) =~= s.skip(s.len() - n));
    } else {
        assert(s.skip(0) =~= s);
    }
}

proof fn stripped_end_facts(s: Seq<char>)
    ensures
        stripped_end(s).len() <= s.len(),
        stripped_end(s) == s.take(stripped_end(s).len() as int),
        stripped_end(s).len() > 0 ==> !is_stripped(stripped_end(s).last()),
        s.len() > 0 && !is_stripped(s[0]) ==> stripped_end(s).len() > 0,
    decreases s.len(),
{
    if s.len() > 0 && is_stripped(s.last()) {
        stripped_end_facts(s.drop_last());
        let n = stripped_end(s).len() as int;
        assert(s.drop_last().take(n) =~= s.take(n));
    } else {
        assert(s.take(s.len() as int) =~= s);
    }
}

proof fn stripped_facts(s: Seq<char>)
    ensures
        is_part_of(stripped(s), s),
        stripped(s).len() > 0 ==> !is_stripped(stripped(s)[0]) && !is_stripped(stripped(s).last()),
        s.len() > 0 && !is_stripped(s[0]) && !is_stripped(s.last()) ==> stripped(s) == s,
{
    let inner = stripped_start(s);
    stripped_start_facts(s);
    stripped_end_facts(inner);
    let a = s.len() - inner.len();
    let n = stripped(s).len() as int;
    assert(s.skip(a).take(n) =~= s.subrange(a, a + n));
    assert(stripped(s) == s.subrange(a, a + n));
}

proof fn tokens_come_from_parts(parts: Seq<Seq<char>>, i: int) -> (j: int)
    requires
        0 <= i < tokens_of(parts).len(),
    ensures
        0 <= j < parts.len(),
        tokens_of(parts)[i] == stripped(parts[j]),
        stripped(parts[j]).len() > 0,
    decreases parts.len(),
{
    let head = token_of(parts[0]);
    if i < head.len() {
        0
    } else {
        let j = tokens_come_from_parts(parts.skip(1), i - head.len());
        j + 1
    }
}

/// Every token is a plain license name.
pub proof fn tokens_are_license_names(expr: Seq<char>, i: int)
    requires
        0 <= i < license_tokens(expr).len(),
    ensures
        is_license_name(license_tokens(expr)[i]),
{
    let whole = normalized(expr);
    let parts = pieces(whole, separator());
    let token = license_tokens(expr)[i];
    let j = tokens_come_from_parts(parts, i);
    let piece = parts[j];
    pieces_are_parts(whole, separator(), j);
    stripped_facts(piece);
    let (a, b) = choose|a: int, b: int|
        0 <= a <= b <= piece.len() && token == #[trigger] piece.subrange(a, b);
    let (c, d) = choose|c: int, d: int|
        0 <= c <= d <= whole.len() && piece == #[trigger] whole.subrange(c, d);
    assert(token =~= whole.subrange(c + a, c + b));
    if token.contains(separator()) {
        let k = choose|k: int| 0 <= k < token.len() && token[k] == separator();
        assert(piece[a + k] == separator());
    }
    assert forall|pattern: Seq<char>| is_operator(pattern) implies !#[trigger] occurs(
        token,
        pattern,
    ) by {
        normalized_holds_no_operator(expr, pattern);
        if occurs(token, pattern) {
            occurs_in_the_whole(whole, c + a, c + b, pattern);
        }
    }
}

/// A plain license name, read as an expression, has itself for its one token.
pub proof fn license_name_is_its_own_token(name: Seq<char>)
    requires
        is_license_name(name),
    ensures
        license_tokens(name) == seq![name],
{
    let by = separator();
    assert(is_operator(" OR "@) && is_operator(" or "@) && is_operator(" AND "@) && is_operator(
        " and "@,
    ));
    replaced_without_occurrence(name, " OR "@, by);
    replaced_without_occurrence(name, " or "@, by);
    replaced_without_occurrence(name, " AND "@, by);
    replaced_without_occurrence(name, " and "@, by);
    assert(normalized(name) == name);
    assert forall|j: int| 0 <= j < name.len() implies name[j] != by by {
        assert(name.contains(name[j]));
    }
    tokens_split(name, name.len() as int);
    stripped_facts(name);
}

} // verus!
