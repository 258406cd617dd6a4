//! Lexical primitives shared by the material and object grammars: whitespace
//! and end-of-line handling, blank and comment lines, free-form name tokens,
//! and signed decimal number literals.
//!
//! Every executable parser here is proved to return exactly what its spec
//! counterpart (a function over the text's character sequence) describes.

use vstd::prelude::*;

verus! {

// ---------------------------------------------------------------------------
// Character classes
// ---------------------------------------------------------------------------

/// A character the line grammars treat as horizontal whitespace.
pub open spec fn is_space_char(c: char) -> bool {
    c == ' ' || c == '\t'
}

/// An ASCII decimal digit.
pub open spec fn is_digit_char(c: char) -> bool {
    48 <= c as u32 <= 57
}

/// The decimal value of a digit character.
pub open spec fn digit_val(c: char) -> nat {
    (c as u32 - 48) as nat
}

/// A character that ends the run a free-form name token consumes.
pub open spec fn is_token_end_char(c: char) -> bool {
    c == ' ' || c == '\t' || c == '\r' || c == '\n'
}

/// A character that ends the text of a comment.
pub open spec fn is_line_break_char(c: char) -> bool {
    c == '\r' || c == '\n'
}

// ---------------------------------------------------------------------------
// Character runs
// ---------------------------------------------------------------------------

/// The first position at or after `pos` whose character is not a space or
/// tab (or the end of the text).
pub open spec fn spec_skip_spaces(s: Seq<char>, pos: int) -> int
    decreases s.len() - pos,
{
    if 0 <= pos < s.len() && is_space_char(s[pos]) {
        spec_skip_spaces(s, pos + 1)
    } else {
        pos
    }
}

/// The first position at or after `pos` whose character is not a digit.
pub open spec fn spec_skip_digits(s: Seq<char>, pos: int) -> int
    decreases s.len() - pos,
{
    if 0 <= pos < s.len() && is_digit_char(s[pos]) {
        spec_skip_digits(s, pos + 1)
    } else {
        pos
    }
}

/// The first position at or after `pos` holding `\r` or `\n` (or the end of
/// the text); everything before it belongs to a comment's text.
pub open spec fn spec_skip_line_content(s: Seq<char>, pos: int) -> int
    decreases s.len() - pos,
{
    if 0 <= pos < s.len() && !is_line_break_char(s[pos]) {
        spec_skip_line_content(s, pos + 1)
    } else {
        pos
    }
}

/// The first position at or after `pos` whose character would end a name
/// token (or the end of the text).
pub open spec fn spec_skip_token(s: Seq<char>, pos: int) -> int
    decreases s.len() - pos,
{
    if 0 <= pos < s.len() && !is_token_end_char(s[pos]) {
        spec_skip_token(s, pos + 1)
    } else {
        pos
    }
}

pub proof fn lemma_skip_spaces_bounds(s: Seq<char>, pos: int)
    requires
        0 <= pos <= s.len(),
    ensures
        pos <= spec_skip_spaces(s, pos) <= s.len(),
    decreases s.len() - pos,
{
    if pos < s.len() && is_space_char(s[pos]) {
        lemma_skip_spaces_bounds(s, pos + 1);
    }
}

pub proof fn lemma_skip_digits_bounds(s: Seq<char>, pos: int)
    requires
        0 <= pos <= s.len(),
    ensures
        pos <= spec_skip_digits(s, pos) <= s.len(),
    decreases s.len() - pos,
{
    if pos < s.len() && is_digit_char(s[pos]) {
        lemma_skip_digits_bounds(s, pos + 1);
    }
}

pub proof fn lemma_skip_line_content_bounds(s: Seq<char>, pos: int)
    requires
        0 <= pos <= s.len(),
    ensures
        pos <= spec_skip_line_content(s, pos) <= s.len(),
    decreases s.len() - pos,
{
    if pos < s.len() && !is_line_break_char(s[pos]) {
        lemma_skip_line_content_bounds(s, pos + 1);
    }
}

/// Advances past spaces and tabs.
pub fn skip_spaces(s: &str, pos: usize) -> (r: usize)
    requires
        pos <= s@.len(),
    ensures
        r == spec_skip_spaces(s@, pos as int),
        pos <= r <= s@.len(),
{
    let n = s.unicode_len();
    let mut i = pos;
    while i < n
        invariant
            pos <= i <= n,
            n == s@.len(),
            spec_skip_spaces(s@, pos as int) == spec_skip_spaces(s@, i as int),
        decreases n - i,
    {
        let c = s.get_char(i);
        if c != ' ' && c != '\t' {
            return i;
        }
        i = i + 1;
    }
    i
}

/// Advances past decimal digits.
pub fn skip_digits(s: &str, pos: usize) -> (r: usize)
    requires
        pos <= s@.len(),
    ensures
        r == spec_skip_digits(s@, pos as int),
        pos <= r <= s@.len(),
{
    let n = s.unicode_len();
    let mut i = pos;
    while i < n
        invariant
            pos <= i <= n,
            n == s@.len(),
            spec_skip_digits(s@, pos as int) == spec_skip_digits(s@, i as int),
        decreases n - i,
    {
        let c = s.get_char(i);
        if !(c >= '0' && c <= '9') {
            return i;
        }
        i = i + 1;
    }
    i
}

/// Advances to the next carriage return or line feed.
pub fn skip_line_content(s: &str, pos: usize) -> (r: usize)
    requires
        pos <= s@.len(),
    ensures
        r == spec_skip_line_content(s@, pos as int),
        pos <= r <= s@.len(),
{
    let n = s.unicode_len();
    let mut i = pos;
    while i < n
        invariant
            pos <= i <= n,
            n == s@.len(),
            spec_skip_line_content(s@, pos as int) == spec_skip_line_content(s@, i as int),
        decreases n - i,
    {
        let c = s.get_char(i);
        if c == '\r' || c == '\n' {
            return i;
        }
        i = i + 1;
    }
    i
}

/// Advances past the characters a name token may contain.
pub fn skip_token(s: &str, pos: usize) -> (r: usize)
    requires
        pos <= s@.len(),
    ensures
        r == spec_skip_token(s@, pos as int),
        pos <= r <= s@.len(),
{
    let n = s.unicode_len();
    let mut i = pos;
    while i < n
        invariant
            pos <= i <= n,
            n == s@.len(),
            spec_skip_token(s@, pos as int) == spec_skip_token(s@, i as int),
        decreases n - i,
    {
        let c = s.get_char(i);
        if c == ' ' || c == '\t' || c == '\r' || c == '\n' {
            return i;
        }
        i = i + 1;
    }
    i
}

// ---------------------------------------------------------------------------
// End-of-line, blank lines, comments
// ---------------------------------------------------------------------------

/// One end-of-line mark: `\n`, `\r\n`, or one of the Unicode line and
/// paragraph separators. Yields the position just past the mark.
pub open spec fn spec_eol(s: Seq<char>, pos: int) -> Option<int> {
    if 0 <= pos < s.len() && s[pos] == '\n' {
        Some(pos + 1)
    } else if 0 <= pos && pos + 1 < s.len() && s[pos] == '\r' && s[pos + 1] == '\n' {
        Some(pos + 2)
    } else if 0 <= pos < s.len() && (s[pos] == '\u{2028}' || s[pos] == '\u{2029}') {
        Some(pos + 1)
    } else {
        None
    }
}

/// A line holding only spaces and tabs, ended by an end-of-line mark or the
/// end of the text.
pub open spec fn spec_blank_line(s: Seq<char>, pos: int) -> Option<int> {
    let p = spec_skip_spaces(s, pos);
    if p == s.len() {
        Some(p)
    } else {
        spec_eol(s, p)
    }
}

/// A comment line: optional spaces and tabs, `#`, arbitrary text, then an
/// end-of-line mark or the end of the text.
pub open spec fn spec_comment(s: Seq<char>, pos: int) -> Option<int> {
    let p = spec_skip_spaces(s, pos);
    if 0 <= p < s.len() && s[p] == '#' {
        let q = spec_skip_line_content(s, p + 1);
        if q == s.len() {
            Some(q)
        } else {
            spec_eol(s, q)
        }
    } else {
        None
    }
}

/// A line the grammars ignore: blank or comment.
pub open spec fn spec_ignored_line(s: Seq<char>, pos: int) -> Option<int> {
    if spec_blank_line(s, pos) is Some {
        spec_blank_line(s, pos)
    } else {
        spec_comment(s, pos)
    }
}

pub proof fn lemma_eol_bounds(s: Seq<char>, pos: int)
    requires
        0 <= pos <= s.len(),
        spec_eol(s, pos) is Some,
    ensures
        pos < spec_eol(s, pos)->0 <= s.len(),
{
}

pub proof fn lemma_ignored_line_bounds(s: Seq<char>, pos: int)
    requires
        0 <= pos <= s.len(),
        spec_ignored_line(s, pos) is Some,
    ensures
        pos <= spec_ignored_line(s, pos)->0 <= s.len(),
{
    lemma_skip_spaces_bounds(s, pos);
    let p = spec_skip_spaces(s, pos);
    if spec_blank_line(s, pos) is Some {
        if p < s.len() {
            lemma_eol_bounds(s, p);
        }
    } else {
        lemma_skip_line_content_bounds(s, p + 1);
        let q = spec_skip_line_content(s, p + 1);
        if q < s.len() {
            lemma_eol_bounds(s, q);
        }
    }
}

/// Recognises one end-of-line mark.
pub fn parse_eol(s: &str, pos: usize) -> (r: Option<usize>)
    requires
        pos <= s@.len(),
    ensures
        match r {
            Some(p) => spec_eol(s@, pos as int) == Some(p as int) && pos < p <= s@.len(),
            None => spec_eol(s@, pos as int) is None,
        },
{
    let n = s.unicode_len();
    if pos < n {
        let c = s.get_char(pos);
        if c == '\n' {
            Some(pos + 1)
        } else if c == '\r' && pos + 1 < n && s.get_char(pos + 1) == '\n' {
            Some(pos + 2)
        } else if c == '\u{2028}' || c == '\u{2029}' {
            Some(pos + 1)
        } else {
            None
        }
    } else {
        None
    }
}

/// Recognises a blank line.
pub fn parse_blank_line(s: &str, pos: usize) -> (r: Option<usize>)
    requires
        pos <= s@.len(),
    ensures
        match r {
            Some(p) => spec_blank_line(s@, pos as int) == Some(p as int) && pos <= p <= s@.len(),
            None => spec_blank_line(s@, pos as int) is None,
        },
{
    let n = s.unicode_len();
    let p = skip_spaces(s, pos);
    if p == n {
        Some(p)
    } else {
        parse_eol(s, p)
    }
}

/// Recognises a comment line.
pub fn parse_comment(s: &str, pos: usize) -> (r: Option<usize>)
    requires
        pos <= s@.len(),
    ensures
        match r {
            Some(p) => spec_comment(s@, pos as int) == Some(p as int) && pos <= p <= s@.len(),
            None => spec_comment(s@, pos as int) is None,
        },
{
    let n = s.unicode_len();
    let p = skip_spaces(s, pos);
    if p < n && s.get_char(p) == '#' {
        let q = skip_line_content(s, p + 1);
        if q == n {
            Some(q)
        } else {
            parse_eol(s, q)
        }
    } else {
        None
    }
}

/// Recognises one ignorable line.
pub fn parse_ignored_line(s: &str, pos: usize) -> (r: Option<usize>)
    requires
        pos <= s@.len(),
    ensures
        match r {
            Some(p) => spec_ignored_line(s@, pos as int) == Some(p as int) && pos <= p <= s@.len(),
            None => spec_ignored_line(s@, pos as int) is None,
        },
{
    let blank = parse_blank_line(s, pos);
    if blank.is_some() {
        blank
    } else {
        parse_comment(s, pos)
    }
}

/// The position reached by consuming ignorable lines as long as each one
/// makes progress.
pub open spec fn spec_skip_ignored(s: Seq<char>, pos: int) -> int
    decreases s.len() - pos,
{
    match spec_ignored_line(s, pos) {
        Some(p) => {
            if pos < p <= s.len() {
                spec_skip_ignored(s, p)
            } else {
                pos
            }
        },
        None => pos,
    }
}

pub proof fn lemma_skip_ignored_bounds(s: Seq<char>, pos: int)
    requires
        0 <= pos <= s.len(),
    ensures
        pos <= spec_skip_ignored(s, pos) <= s.len(),
    decreases s.len() - pos,
{
    match spec_ignored_line(s, pos) {
        Some(p) => {
            if pos < p <= s.len() {
                lemma_skip_ignored_bounds(s, p);
            }
        },
        None => {},
    }
}

/// Consumes ignorable lines until a line that is neither blank nor a
/// comment (or the end of the text, where an empty blank line no longer
/// makes progress) is reached.
pub fn skip_ignored(s: &str, pos: usize) -> (r: usize)
    requires
        pos <= s@.len(),
    ensures
        r == spec_skip_ignored(s@, pos as int),
        pos <= r <= s@.len(),
{
    let mut i = pos;
    loop
        invariant
            pos <= i <= s@.len(),
            spec_skip_ignored(s@, pos as int) == spec_skip_ignored(s@, i as int),
        decreases s@.len() - i,
    {
        match parse_ignored_line(s, i) {
            Some(p) => {
                if p > i {
                    i = p;
                } else {
                    return i;
                }
            },
            None => {
                return i;
            },
        }
    }
}

// ---------------------------------------------------------------------------
// Tags and name tokens
// ---------------------------------------------------------------------------

/// Whether the characters of `t` appear verbatim at `pos`.
pub open spec fn spec_tag(s: Seq<char>, pos: int, t: Seq<char>) -> bool {
    0 <= pos && pos + t.len() <= s.len() && s.subrange(pos, pos + t.len()) == t
}

/// Compares the text at `pos` against a literal tag.
pub fn match_tag(s: &str, pos: usize, tag: &str) -> (r: bool)
    requires
        pos <= s@.len(),
    ensures
        r == spec_tag(s@, pos as int, tag@),
{
    let n = s.unicode_len();
    let t = tag.unicode_len();
    if n - pos < t {
        assert(!spec_tag(s@, pos as int, tag@));
        return false;
    }
    let mut i: usize = 0;
    while i < t
        invariant
            0 <= i <= t,
            t == tag@.len(),
            n == s@.len(),
            pos + t <= n,
            forall|j: int| 0 <= j < i ==> s@[pos + j] == tag@[j],
        decreases t - i,
    {
        if s.get_char(pos + i) != tag.get_char(i) {
            assert(s@.subrange(pos as int, pos + t) != tag@) by {
                assert(s@.subrange(pos as int, pos + t)[i as int] == s@[pos + i]);
            }
            return false;
        }
        i = i + 1;
    }
    assert(s@.subrange(pos as int, pos + t) =~= tag@);
    true
}

/// A free-form name token: one or more characters other than space, tab,
/// carriage return and line feed. Yields the position past the token and
/// the token's characters.
pub open spec fn spec_token(s: Seq<char>, pos: int) -> Option<(int, Seq<char>)> {
    let q = spec_skip_token(s, pos);
    if q > pos {
        Some((q, s.subrange(pos, q)))
    } else {
        None
    }
}

/// Extracts a name token as an owned string.
pub fn parse_token(s: &str, pos: usize) -> (r: Option<(usize, String)>)
    requires
        pos <= s@.len(),
    ensures
        match r {
            Some((p, t)) => spec_token(s@, pos as int) == Some((p as int, t@)) && pos < p
                <= s@.len(),
            None => spec_token(s@, pos as int) is None,
        },
{
    let q = skip_token(s, pos);
    if q > pos {
        let t = s.substring_char(pos, q).to_owned();
        Some((q, t))
    } else {
        None
    }
}

/// A directive carrying one free-form name: optional spaces, the tag,
/// optional spaces, a name token, then the rest of the line ignorable.
/// `newmtl`, `mtllib` and `usemtl` lines all have this shape.
pub open spec fn spec_token_rule(s: Seq<char>, pos: int, tag: Seq<char>) -> Option<
    (int, Seq<char>),
> {
    let p = spec_skip_spaces(s, pos);
    if spec_tag(s, p, tag) {
        let p2 = spec_skip_spaces(s, p + tag.len());
        match spec_token(s, p2) {
            Some((p3, name)) => match spec_ignored_line(s, p3) {
                Some(e) => Some((e, name)),
                None => None,
            },
            None => None,
        }
    } else {
        None
    }
}

/// Reads a directive that carries one free-form name.
pub fn parse_token_rule(s: &str, pos: usize, tag: &str) -> (r: Option<(usize, String)>)
    requires
        pos <= s@.len(),
    ensures
        match r {
            Some((p, t)) => spec_token_rule(s@, pos as int, tag@) == Some((p as int, t@)) && pos
                < p <= s@.len(),
            None => spec_token_rule(s@, pos as int, tag@) is None,
        },
{
    let n = s.unicode_len();
    let p = skip_spaces(s, pos);
    if !match_tag(s, p, tag) {
        return None;
    }
    assert(p + tag@.len() <= n);
    let p2 = skip_spaces(s, p + tag.unicode_len());
    match parse_token(s, p2) {
        Some((p3, name)) => match parse_ignored_line(s, p3) {
            Some(e) => Some((e, name)),
            None => None,
        },
        None => None,
    }
}

// ---------------------------------------------------------------------------
// Number literals
// ---------------------------------------------------------------------------

/// A signed decimal literal as written in the source text: an optional
/// leading minus, one or more integer digits, and optionally a dot followed
/// by fraction digits. A dot with no digits after it is consumed but leaves
/// the fraction absent, exactly as the grammar reads such a literal.
///
/// The numeric value is `integer.fraction`, negated when `negative` holds;
/// the caller that needs a binary floating-point value converts the digits
/// itself, outside this crate's verified core.
#[derive(Debug, PartialEq, Eq)]
pub struct Number {
    pub negative: bool,
    pub integer: String,
    pub fraction: Option<String>,
}

/// The mathematical shape of a parsed [`Number`].
pub struct NumberV {
    pub negative: bool,
    pub integer: Seq<char>,
    pub fraction: Option<Seq<char>>,
}

impl View for Number {
    type V = NumberV;

    open spec fn view(&self) -> NumberV {
        NumberV {
            negative: self.negative,
            integer: self.integer@,
            fraction: match self.fraction {
                Some(f) => Some(f@),
                None => None,
            },
        }
    }
}

impl Number {
    /// An owned copy holding the same characters.
    pub fn duplicate(&self) -> (r: Number)
        ensures
            r@ == self@,
    {
        Number {
            negative: self.negative,
            integer: self.integer.clone(),
            fraction: match &self.fraction {
                Some(f) => Some(f.clone()),
                None => None,
            },
        }
    }
}

/// A signed decimal number literal, as the shared lexical grammar reads it.
pub open spec fn spec_number(s: Seq<char>, pos: int) -> Option<(int, NumberV)> {
    let neg = 0 <= pos < s.len() && s[pos] == '-';
    let p1 = if neg {
        pos + 1
    } else {
        pos
    };
    let p2 = spec_skip_digits(s, p1);
    if p2 > p1 {
        let int_digits = s.subrange(p1, p2);
        if p2 < s.len() && s[p2] == '.' {
            let p4 = spec_skip_digits(s, p2 + 1);
            if p4 > p2 + 1 {
                Some(
                    (
                        p4,
                        NumberV {
                            negative: neg,
                            integer: int_digits,
                            fraction: Some(s.subrange(p2 + 1, p4)),
                        },
                    ),
                )
            } else {
                Some((p2 + 1, NumberV { negative: neg, integer: int_digits, fraction: None }))
            }
        } else {
            Some((p2, NumberV { negative: neg, integer: int_digits, fraction: None }))
        }
    } else {
        None
    }
}

/// Reads a signed decimal number literal.
pub fn parse_number(s: &str, pos: usize) -> (r: Option<(usize, Number)>)
    requires
        pos <= s@.len(),
    ensures
        match r {
            Some((p, v)) => spec_number(s@, pos as int) == Some((p as int, v@)) && pos < p
                <= s@.len(),
            None => spec_number(s@, pos as int) is None,
        },
{
    let n = s.unicode_len();
    let neg = pos < n && s.get_char(pos) == '-';
    let p1 = if neg {
        pos + 1
    } else {
        pos
    };
    let p2 = skip_digits(s, p1);
    if p2 > p1 {
        let int_digits = s.substring_char(p1, p2).to_owned();
        if p2 < n && s.get_char(p2) == '.' {
            let p4 = skip_digits(s, p2 + 1);
            if p4 > p2 + 1 {
                let frac = s.substring_char(p2 + 1, p4).to_owned();
                Some((p4, Number { negative: neg, integer: int_digits, fraction: Some(frac) }))
            } else {
                Some((p2 + 1, Number { negative: neg, integer: int_digits, fraction: None }))
            }
        } else {
            Some((p2, Number { negative: neg, integer: int_digits, fraction: None }))
        }
    } else {
        None
    }
}

// ---------------------------------------------------------------------------
// Integer literals
// ---------------------------------------------------------------------------

/// The value of a run of digit characters read as a decimal numeral.
pub open spec fn digits_val(ds: Seq<char>) -> nat
    decreases ds.len(),
{
    if ds.len() == 0 {
        0
    } else {
        digits_val(ds.drop_last()) * 10 + digit_val(ds.last())
    }
}

/// A prefix of a digit run never exceeds the value of the whole run.
pub proof fn lemma_digits_val_prefix(ds: Seq<char>, i: int)
    requires
        0 <= i <= ds.len(),
    ensures
        digits_val(ds.take(i)) <= digits_val(ds),
    decreases ds.len() - i,
{
    if i < ds.len() {
        assert(ds.take(i + 1).drop_last() =~= ds.take(i));
        assert(digits_val(ds.take(i + 1)) == digits_val(ds.take(i)) * 10 + digit_val(
            ds.take(i + 1).last(),
        ));
        lemma_digits_val_prefix(ds, i + 1);
    } else {
        assert(ds.take(i) =~= ds);
    }
}

/// A signed integer literal: an optional leading minus and one or more
/// digits. The literal fails (as its line then fails to match any rule)
/// when its magnitude does not fit the index type.
pub open spec fn spec_integer(s: Seq<char>, pos: int) -> Option<(int, isize)> {
    let neg = 0 <= pos < s.len() && s[pos] == '-';
    let p1 = if neg {
        pos + 1
    } else {
        pos
    };
    let p2 = spec_skip_digits(s, p1);
    if p2 > p1 {
        let v = digits_val(s.subrange(p1, p2));
        if v <= isize::MAX {
            Some((p2, if neg { (-(v as int)) as isize } else { v as isize }))
        } else {
            None
        }
    } else {
        None
    }
}

/// Reads a signed integer literal.
pub fn parse_integer(s: &str, pos: usize) -> (r: Option<(usize, isize)>)
    requires
        pos <= s@.len(),
    ensures
        match r {
            Some((p, v)) => spec_integer(s@, pos as int) == Some((p as int, v)) && pos < p
                <= s@.len(),
            None => spec_integer(s@, pos as int) is None,
        },
{
    let n = s.unicode_len();
    let neg = pos < n && s.get_char(pos) == '-';
    let p1 = if neg {
        pos + 1
    } else {
        pos
    };
    let p2 = skip_digits(s, p1);
    if p2 == p1 {
        return None;
    }
    let ghost run = s@.subrange(p1 as int, p2 as int);
    let mut acc: usize = 0;
    let mut i = p1;
    let bound: usize = isize::MAX as usize;
    while i < p2
        invariant
            pos <= p1 <= i <= p2 <= s@.len(),
            neg == (pos < s@.len() && s@[pos as int] == '-'),
            p1 == if neg {
                pos + 1
            } else {
                pos as int
            },
            run == s@.subrange(p1 as int, p2 as int),
            p2 == spec_skip_digits(s@, p1 as int),
            acc == digits_val(run.take(i - p1)),
            acc <= bound,
            bound == isize::MAX,
        decreases p2 - i,
    {
        let c = s.get_char(i);
        proof {
            lemma_skip_digits_run(s@, p1 as int, i as int);
            assert(run.take(i + 1 - p1).drop_last() =~= run.take(i - p1));
            assert(run.take(i + 1 - p1).last() == s@[i as int]);
        }
        let d = (c as u32 - 48) as usize;
        if acc > (bound - d) / 10 {
            proof {
                assert(digits_val(run.take(i + 1 - p1)) == acc * 10 + d);
                assert(digits_val(run.take(i + 1 - p1)) > bound) by (nonlinear_arith)
                    requires
                        digits_val(run.take(i + 1 - p1)) == acc * 10 + d,
                        acc > (bound - d) / 10,
                        d < 10,
                        0 <= d,
                        0 <= bound,
                ;
                lemma_digits_val_prefix(run, i + 1 - p1);
                assert(digits_val(run) > isize::MAX);
            }
            return None;
        }
        proof {
            assert(acc * 10 + d <= bound) by (nonlinear_arith)
                requires
                    acc <= (bound - d) / 10,
                    0 <= acc,
                    0 <= d < 10,
                    0 <= bound,
            ;
        }
        acc = acc * 10 + d;
        i = i + 1;
    }
    proof {
        assert(run.take(p2 - p1) =~= run);
    }
    if neg {
        Some((p2, -(acc as isize)))
    } else {
        Some((p2, acc as isize))
    }
}

/// Every character strictly inside a digit run is a digit.
pub proof fn lemma_skip_digits_run(s: Seq<char>, pos: int, i: int)
    requires
        0 <= pos <= i < spec_skip_digits(s, pos),
    ensures
        i < s.len() && is_digit_char(s[i]),
    decreases i - pos,
{
    lemma_skip_digits_bounds(s, pos);
    if pos < s.len() && is_digit_char(s[pos]) {
        if i > pos {
            lemma_skip_digits_run(s, pos + 1, i);
        }
    }
}

} // verus!
