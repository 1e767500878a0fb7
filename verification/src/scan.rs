//! Character classes and forward token scanners.
//!
//! Every scanner walks the input from a starting position to the end of a
//! maximal run of some character class and is specified against a recursive
//! run-end function over the input's view. The cursor only ever moves forward.

use vstd::prelude::*;

verus! {

/// A decimal digit.
pub open spec fn is_digit(c: char) -> bool {
    '0' <= c && c <= '9'
}

/// Inline whitespace accepted between fields: a space or a tab.
pub open spec fn is_space(c: char) -> bool {
    c == ' ' || c == '\t'
}

/// The full whitespace class (space, tab, line feed, carriage return,
/// vertical tab, form feed); the date token may not contain any of these.
pub open spec fn is_whitespace(c: char) -> bool {
    c == ' ' || c == '\t' || c == '\n' || c == '\r' || c == '\u{b}' || c == '\u{c}'
}

/// A line terminator: the payload body stops in front of one.
pub open spec fn is_line_break(c: char) -> bool {
    c == '\n' || c == '\r'
}

/// A character that ends the host token of an endpoint: the port separator
/// itself or one of the higher-level delimiters of the bracketed section.
pub open spec fn is_host_end(c: char) -> bool {
    c == ':' || c == '#' || c == ']'
}

/// End of the maximal digit run beginning at `i`.
pub open spec fn digit_run_end(s: Seq<char>, i: int) -> int
    decreases s.len() - i,
{
    if 0 <= i < s.len() && is_digit(s[i]) {
        digit_run_end(s, i + 1)
    } else {
        i
    }
}

/// End of the maximal space/tab run beginning at `i`.
pub open spec fn space_run_end(s: Seq<char>, i: int) -> int
    decreases s.len() - i,
{
    if 0 <= i < s.len() && is_space(s[i]) {
        space_run_end(s, i + 1)
    } else {
        i
    }
}

/// End of the maximal whitespace-free token beginning at `i`.
pub open spec fn word_end(s: Seq<char>, i: int) -> int
    decreases s.len() - i,
{
    if 0 <= i < s.len() && !is_whitespace(s[i]) {
        word_end(s, i + 1)
    } else {
        i
    }
}

/// First line break at or after `i`, or the end of the input.
pub open spec fn line_end(s: Seq<char>, i: int) -> int
    decreases s.len() - i,
{
    if 0 <= i < s.len() && !is_line_break(s[i]) {
        line_end(s, i + 1)
    } else {
        i
    }
}

/// First host-ending character at or after `i`, or the end of the input.
pub open spec fn host_token_end(s: Seq<char>, i: int) -> int
    decreases s.len() - i,
{
    if 0 <= i < s.len() && !is_host_end(s[i]) {
        host_token_end(s, i + 1)
    } else {
        i
    }
}

/// End of a run of colon-separated digit groups whose first group begins at
/// `i`: digits continue the current group, and a colon followed by a digit
/// opens the next group; a colon not followed by a digit is left unconsumed.
pub open spec fn time_tail_end(s: Seq<char>, i: int) -> int
    decreases s.len() - i,
{
    if 0 <= i < s.len() && is_digit(s[i]) {
        time_tail_end(s, i + 1)
    } else if 0 <= i && i + 1 < s.len() && s[i] == ':' && is_digit(s[i + 1]) {
        time_tail_end(s, i + 2)
    } else {
        i
    }
}

pub proof fn lemma_digit_run_end(s: Seq<char>, i: int)
    requires
        0 <= i <= s.len(),
    ensures
        i <= digit_run_end(s, i) <= s.len(),
        forall|k: int| i <= k < digit_run_end(s, i) ==> is_digit(s[k]),
        digit_run_end(s, i) < s.len() ==> !is_digit(s[digit_run_end(s, i)]),
    decreases s.len() - i,
{
    if i < s.len() && is_digit(s[i]) {
        lemma_digit_run_end(s, i + 1);
    }
}

pub proof fn lemma_word_end(s: Seq<char>, i: int)
    requires
        0 <= i <= s.len(),
    ensures
        i <= word_end(s, i) <= s.len(),
        forall|k: int| i <= k < word_end(s, i) ==> !is_whitespace(s[k]),
        word_end(s, i) < s.len() ==> is_whitespace(s[word_end(s, i)]),
    decreases s.len() - i,
{
    if i < s.len() && !is_whitespace(s[i]) {
        lemma_word_end(s, i + 1);
    }
}

pub proof fn lemma_time_tail_end(s: Seq<char>, i: int)
    requires
        0 <= i <= s.len(),
    ensures
        i <= time_tail_end(s, i) <= s.len(),
        forall|k: int| i <= k < time_tail_end(s, i) ==> is_digit(s[k]) || s[k] == ':',
    decreases s.len() - i,
{
    if i < s.len() && is_digit(s[i]) {
        lemma_time_tail_end(s, i + 1);
    } else if i + 1 < s.len() && s[i] == ':' && is_digit(s[i + 1]) {
        lemma_time_tail_end(s, i + 2);
    }
}

/// Whether `c` is a decimal digit.
pub fn digit_check(c: char) -> (r: bool)
    ensures
        r == is_digit(c),
{
    '0' <= c && c <= '9'
}

/// Advances from `from` over decimal digits.
pub fn scan_digits(s: &str, n: usize, from: usize) -> (r: usize)
    requires
        n == s@.len(),
        from <= n,
    ensures
        r as int == digit_run_end(s@, from as int),
        from <= r <= n,
{
    let mut i = from;
    loop
        invariant
            n == s@.len(),
            from <= i <= n,
            digit_run_end(s@, from as int) == digit_run_end(s@, i as int),
        ensures
            from <= i <= n,
            digit_run_end(s@, from as int) == digit_run_end(s@, i as int),
            digit_run_end(s@, i as int) == i as int,
        decreases n - i,
    {
        if i >= n {
            break;
        }
        let c = s.get_char(i);
        if !digit_check(c) {
            break;
        }
        i = i + 1;
    }
    i
}

/// Advances from `from` over spaces and tabs.
pub fn scan_spaces(s: &str, n: usize, from: usize) -> (r: usize)
    requires
        n == s@.len(),
        from <= n,
    ensures
        r as int == space_run_end(s@, from as int),
        from <= r <= n,
{
    let mut i = from;
    loop
        invariant
            n == s@.len(),
            from <= i <= n,
            space_run_end(s@, from as int) == space_run_end(s@, i as int),
        ensures
            from <= i <= n,
            space_run_end(s@, from as int) == space_run_end(s@, i as int),
            space_run_end(s@, i as int) == i as int,
        decreases n - i,
    {
        if i >= n {
            break;
        }
        let c = s.get_char(i);
        if !(c == ' ' || c == '\t') {
            break;
        }
        i = i + 1;
    }
    i
}

/// Advances from `from` up to the first whitespace character.
pub fn scan_word(s: &str, n: usize, from: usize) -> (r: usize)
    requires
        n == s@.len(),
        from <= n,
    ensures
        r as int == word_end(s@, from as int),
        from <= r <= n,
{
    let mut i = from;
    loop
        invariant
            n == s@.len(),
            from <= i <= n,
            word_end(s@, from as int) == word_end(s@, i as int),
        ensures
            from <= i <= n,
            word_end(s@, from as int) == word_end(s@, i as int),
            word_end(s@, i as int) == i as int,
        decreases n - i,
    {
        if i >= n {
            break;
        }
        let c = s.get_char(i);
        if c == ' ' || c == '\t' || c == '\n' || c == '\r' || c == '\u{b}' || c == '\u{c}' {
            break;
        }
        i = i + 1;
    }
    i
}

/// Advances from `from` up to the first line break.
pub fn scan_line(s: &str, n: usize, from: usize) -> (r: usize)
    requires
        n == s@.len(),
        from <= n,
    ensures
        r as int == line_end(s@, from as int),
        from <= r <= n,
{
    let mut i = from;
    loop
        invariant
            n == s@.len(),
            from <= i <= n,
            line_end(s@, from as int) == line_end(s@, i as int),
        ensures
            from <= i <= n,
            line_end(s@, from as int) == line_end(s@, i as int),
            line_end(s@, i as int) == i as int,
        decreases n - i,
    {
        if i >= n {
            break;
        }
        let c = s.get_char(i);
        if c == '\n' || c == '\r' {
            break;
        }
        i = i + 1;
    }
    i
}

/// Advances from `from` up to the first `:`, `#` or `]`.
pub fn scan_host(s: &str, n: usize, from: usize) -> (r: usize)
    requires
        n == s@.len(),
        from <= n,
    ensures
        r as int == host_token_end(s@, from as int),
        from <= r <= n,
{
    let mut i = from;
    loop
        invariant
            n == s@.len(),
            from <= i <= n,
            host_token_end(s@, from as int) == host_token_end(s@, i as int),
        ensures
            from <= i <= n,
            host_token_end(s@, from as int) == host_token_end(s@, i as int),
            host_token_end(s@, i as int) == i as int,
        decreases n - i,
    {
        if i >= n {
            break;
        }
        let c = s.get_char(i);
        if c == ':' || c == '#' || c == ']' {
            break;
        }
        i = i + 1;
    }
    i
}

/// Advances from `from` over colon-separated digit groups, leaving a colon
/// that no digit follows unconsumed.
pub fn scan_time_tail(s: &str, n: usize, from: usize) -> (r: usize)
    requires
        n == s@.len(),
        from <= n,
    ensures
        r as int == time_tail_end(s@, from as int),
        from <= r <= n,
{
    let mut i = from;
    loop
        invariant
            n == s@.len(),
            from <= i <= n,
            time_tail_end(s@, from as int) == time_tail_end(s@, i as int),
        ensures
            from <= i <= n,
            time_tail_end(s@, from as int) == time_tail_end(s@, i as int),
            time_tail_end(s@, i as int) == i as int,
        decreases n - i,
    {
        if i >= n {
            break;
        }
        let c = s.get_char(i);
        if digit_check(c) {
            i = i + 1;
        } else if c == ':' && i + 1 < n {
            let d = s.get_char(i + 1);
            if digit_check(d) {
                i = i + 2;
            } else {
                break;
            }
        } else {
            break;
        }
    }
    i
}

} // verus!
