//! The timestamp normalizer.
//!
//! A textual `<date> <time>.<fraction>` timestamp is canonicalized (date
//! token, one space, colon-separated time groups, a dot, the fraction) and
//! converted to signed epoch milliseconds, to which a fixed business-rule
//! shift of -8 hours (-28,800,000 ms) is applied uniformly. A canonical
//! string that does not name a real date-time does not fail the record:
//! the normalizer degrades to the sentinel epoch 0 and parsing continues.

use vstd::prelude::*;

use crate::errors::{ErrorModel, ParseError, ParseErrorKind};
use crate::scan::{
    digit_run_end, is_digit, is_whitespace, lemma_digit_run_end, lemma_time_tail_end,
    lemma_word_end, digit_check, scan_digits, scan_spaces, scan_time_tail, scan_word,
    space_run_end, time_tail_end, word_end,
};
use vstd::string::{StrSliceExecFns, StringExecFns};

verus! {

/// One witness pair for [`canonical_timestamp_shape`]: `sp` is the single
/// whitespace character (a space) and `dot` a dot followed by digits only.
pub open spec fn canonical_split(s: Seq<char>, sp: int, dot: int) -> bool {
    &&& 0 < sp < dot
    &&& dot + 1 < s.len()
    &&& s[sp] == ' '
    &&& s[dot] == '.'
    &&& forall|k: int| 0 <= k < s.len() && k != sp ==> !is_whitespace(#[trigger] s[k])
    &&& forall|k: int| dot < k < s.len() ==> is_digit(#[trigger] s[k])
}

/// The shape every canonical timestamp string has: exactly one whitespace
/// character, which is a space and not the first character, and a trailing
/// `.`-prefixed run of one or more digits. On strings of this shape the
/// date-time library resolves no format against the current date or time,
/// so its result is a function of the characters alone.
pub open spec fn canonical_timestamp_shape(s: Seq<char>) -> bool {
    exists|sp: int, dot: int| canonical_split(s, sp, dot)
}

/// The UTC epoch milliseconds that the date-time library reads out of a
/// canonical timestamp string, or `None` where the string names no date-time.
pub uninterp spec fn utc_epoch_millis_of(s: Seq<char>) -> Option<i64>;

/// Relies on `dateparser::parse_with_timezone` at a fixed zero offset and on
/// chrono's `DateTime::timestamp_millis`. On inputs of the canonical shape
/// (exactly one space, a trailing dot-digit fraction) every format the
/// library recognizes is resolved from the characters alone, never from the
/// current date or time, so the result names a function of the input; and
/// chrono's date-times span fewer than 300,000 years either side of the
/// epoch, which keeps the millisecond count strictly inside the stated bound.
#[verifier::external_body]
fn utc_epoch_millis(s: &str) -> (r: Option<i64>)
    requires
        canonical_timestamp_shape(s@),
    ensures
        r == utc_epoch_millis_of(s@),
        (match r {
            Some(ms) => -9_000_000_000_000_000 < ms < 9_000_000_000_000_000,
            None => true,
        }),
{
    let zero = chrono::FixedOffset::west_opt(0).unwrap();
    dateparser::parse_with_timezone(s, &zero).map(|t| t.timestamp_millis()).ok()
}

/// The normalized value of a canonical timestamp string: its UTC epoch
/// milliseconds shifted by the fixed -8 h rule, or the sentinel 0 where the
/// string names no date-time.
pub open spec fn spec_normalize_timestamp(s: Seq<char>) -> int {
    match utc_epoch_millis_of(s) {
        Some(ms) => ms - 28_800_000,
        None => 0,
    }
}

/// Converts a canonical timestamp string to shifted epoch milliseconds,
/// degrading to 0 where the string names no date-time.
pub fn normalize_timestamp(s: &str) -> (r: i64)
    requires
        canonical_timestamp_shape(s@),
    ensures
        r as int == spec_normalize_timestamp(s@),
{
    match utc_epoch_millis(s) {
        Some(ms) => ms - 28_800_000,
        None => 0,
    }
}

/// The canonical string rebuilt from the timestamp's tokens: the date token,
/// one space, the time groups, a dot, and the fraction digits.
pub open spec fn spec_canonical_of(
    s: Seq<char>,
    i: int,
    d_end: int,
    w_end: int,
    t_end: int,
    f_end: int,
) -> Seq<char> {
    s.subrange(i, d_end) + seq![' '] + s.subrange(w_end, t_end) + seq!['.'] + s.subrange(
        t_end + 1,
        f_end,
    )
}

/// The timestamp token beginning at `i`, as the grammar reads it: a
/// whitespace-free date token, a space/tab run, colon-separated digit time
/// groups, a literal dot, and a digit fraction. On success the value is the
/// next cursor position and the normalized milliseconds of the canonical
/// string; the date token itself is checked only for lexical shape, since a
/// token that names no date-time degrades to epoch 0 instead of failing.
pub open spec fn spec_parse_timestamp(s: Seq<char>, i: int) -> Result<(int, int), ErrorModel> {
    let n = s.len() as int;
    let d_end = word_end(s, i);
    if d_end == i {
        if i == n {
            Err(ErrorModel { kind: ParseErrorKind::UnexpectedEndOfInput, offset: n })
        } else {
            Err(ErrorModel { kind: ParseErrorKind::InvalidNumber, offset: i })
        }
    } else if d_end == n {
        Err(ErrorModel { kind: ParseErrorKind::MissingDelimiter, offset: n })
    } else {
        let w_end = space_run_end(s, d_end);
        if w_end == d_end {
            Err(ErrorModel { kind: ParseErrorKind::MissingDelimiter, offset: d_end })
        } else if w_end == n {
            Err(ErrorModel { kind: ParseErrorKind::UnexpectedEndOfInput, offset: n })
        } else if !is_digit(s[w_end]) {
            Err(ErrorModel { kind: ParseErrorKind::InvalidNumber, offset: w_end })
        } else {
            let t_end = time_tail_end(s, w_end);
            if t_end == n || s[t_end] != '.' {
                Err(ErrorModel { kind: ParseErrorKind::MissingDelimiter, offset: t_end })
            } else if t_end + 1 == n {
                Err(ErrorModel { kind: ParseErrorKind::UnexpectedEndOfInput, offset: n })
            } else if !is_digit(s[t_end + 1]) {
                Err(ErrorModel { kind: ParseErrorKind::InvalidNumber, offset: t_end + 1 })
            } else {
                let f_end = digit_run_end(s, t_end + 1);
                Ok(
                    (
                        f_end,
                        spec_normalize_timestamp(
                            spec_canonical_of(s, i, d_end, w_end, t_end, f_end),
                        ),
                    ),
                )
            }
        }
    }
}

/// Parses the timestamp token beginning at `from` and yields the next cursor
/// position together with the normalized epoch milliseconds.
pub fn parse_timestamp(s: &str, from: usize) -> (r: Result<(usize, i64), ParseError>)
    requires
        from as int <= s@.len(),
    ensures
        (match r {
            Ok((p, ts)) => spec_parse_timestamp(s@, from as int) == Ok::<(int, int), ErrorModel>(
                (p as int, ts as int),
            ) && from <= p && p as int <= s@.len(),
            Err(e) => spec_parse_timestamp(s@, from as int) == Err::<(int, int), ErrorModel>(e@),
        }),
{
    let n = s.unicode_len();
    let d_end = scan_word(s, n, from);
    if d_end == from {
        if from == n {
            return Err(ParseError { kind: ParseErrorKind::UnexpectedEndOfInput, offset: n });
        }
        return Err(ParseError { kind: ParseErrorKind::InvalidNumber, offset: from });
    }
    if d_end == n {
        return Err(ParseError { kind: ParseErrorKind::MissingDelimiter, offset: n });
    }
    let w_end = scan_spaces(s, n, d_end);
    if w_end == d_end {
        return Err(ParseError { kind: ParseErrorKind::MissingDelimiter, offset: d_end });
    }
    if w_end == n {
        return Err(ParseError { kind: ParseErrorKind::UnexpectedEndOfInput, offset: n });
    }
    if !digit_check(s.get_char(w_end)) {
        return Err(ParseError { kind: ParseErrorKind::InvalidNumber, offset: w_end });
    }
    let t_end = scan_time_tail(s, n, w_end);
    if t_end == n || s.get_char(t_end) != '.' {
        return Err(ParseError { kind: ParseErrorKind::MissingDelimiter, offset: t_end });
    }
    if t_end + 1 == n {
        return Err(ParseError { kind: ParseErrorKind::UnexpectedEndOfInput, offset: n });
    }
    if !digit_check(s.get_char(t_end + 1)) {
        return Err(ParseError { kind: ParseErrorKind::InvalidNumber, offset: t_end + 1 });
    }
    let f_end = scan_digits(s, n, t_end + 1);
    let date_part = s.substring_char(from, d_end);
    let time_part = s.substring_char(w_end, t_end);
    let frac_part = s.substring_char(t_end + 1, f_end);
    let mut canonical = date_part.to_owned();
    canonical.append(" ");
    canonical.append(time_part);
    canonical.append(".");
    canonical.append(frac_part);
    proof {
        lemma_canonical_shape(
            s@,
            from as int,
            d_end as int,
            w_end as int,
            t_end as int,
            f_end as int,
        );
        reveal_strlit(" ");
        reveal_strlit(".");
        assert(canonical@ =~= spec_canonical_of(
            s@,
            from as int,
            d_end as int,
            w_end as int,
            t_end as int,
            f_end as int,
        ));
    }
    let ts = normalize_timestamp(canonical.as_str());
    Ok((f_end, ts))
}

/// The canonical string rebuilt from well-placed timestamp tokens has the
/// canonical shape that the date-time conversion requires.
proof fn lemma_canonical_shape(s: Seq<char>, i: int, d_end: int, w_end: int, t_end: int, f_end: int)
    requires
        0 <= i <= s.len(),
        d_end == word_end(s, i),
        i < d_end < s.len(),
        w_end == space_run_end(s, d_end),
        d_end < w_end,
        w_end < s.len(),
        is_digit(s[w_end]),
        t_end == time_tail_end(s, w_end),
        t_end + 1 < s.len(),
        is_digit(s[t_end + 1]),
        f_end == digit_run_end(s, t_end + 1),
    ensures
        canonical_timestamp_shape(spec_canonical_of(s, i, d_end, w_end, t_end, f_end)),
{
    lemma_word_end(s, i);
    lemma_time_tail_end(s, w_end);
    lemma_time_tail_end(s, w_end + 1);
    lemma_digit_run_end(s, t_end + 1);
    assert(time_tail_end(s, w_end) == time_tail_end(s, w_end + 1));
    let c = spec_canonical_of(s, i, d_end, w_end, t_end, f_end);
    let sp = d_end - i;
    let dot = d_end - i + 1 + (t_end - w_end);
    assert(w_end < t_end);
    assert(t_end + 1 < f_end);
    assert(c.len() == (d_end - i) + 1 + (t_end - w_end) + 1 + (f_end - t_end - 1));
    assert(c[sp] == ' ');
    assert(c[dot] == '.');
    assert forall|k: int| 0 <= k < c.len() && k != sp implies !is_whitespace(#[trigger] c[k]) by {
        if k < sp {
            assert(c[k] == s[i + k]);
        } else if sp < k && k < dot {
            assert(c[k] == s[w_end + (k - sp - 1)]);
        } else if k == dot {
            assert(c[k] == '.');
        } else if dot < k {
            assert(c[k] == s[t_end + 1 + (k - dot - 1)]);
        }
    }
    assert forall|k: int| dot < k < c.len() implies is_digit(#[trigger] c[k]) by {
        assert(c[k] == s[t_end + 1 + (k - dot - 1)]);
    }
    assert(canonical_split(c, sp, dot));
}

} // verus!
