//! Matching of advisory symbols against first-party source: symbol
//! sanitization, comment and string-literal scrubbing, and identifier-bounded
//! symbol search.
use vstd::prelude::*;

use crate::text::{
    chars_of, contains_sub, contains_vec, find_char, has_char_vec, has_char, occurs_at, occurs_at_exec, push_char, split_once, str_eq,
    string_of, sub_vec, trim, trim_string, trim_vec,
};

verus! {

/// Maximum advisory symbols accepted per CVE from provider metadata.
pub const MAX_ADVISORY_SYMBOLS: usize = 64;

/// Maximum length, in UTF-8 bytes, of a single advisory symbol.
pub const MAX_ADVISORY_SYMBOL_LEN: usize = 512;

/// Comment style for stripping lines before symbol matching.
#[derive(Debug, Clone, Copy, PartialEq, Eq, Structural)]
pub enum LineCommentStyle {
    Hash,
    SlashSlash,
}

/// Number of bytes of `c` in UTF-8.
pub open spec fn utf8_width(c: char) -> nat {
    if (c as u32) < 0x80 {
        1
    } else if (c as u32) < 0x800 {
        2
    } else if (c as u32) < 0x10000 {
        3
    } else {
        4
    }
}

/// Number of bytes of `s` in UTF-8 (`str::len`).
pub open spec fn utf8_len(s: Seq<char>) -> nat
    decreases s.len(),
{
    if s.len() == 0 {
        0
    } else {
        utf8_len(s.drop_last()) + utf8_width(s.last())
    }
}

/// Whether the UTF-8 length of `v` exceeds `limit`.
pub fn utf8_len_exceeds(v: &[char], limit: usize) -> (r: bool)
    requires
        limit < usize::MAX - 4,
    ensures
        r == (utf8_len(v@) > limit),
{
    let mut total: usize = 0;
    let mut i: usize = 0;
    while i < v.len()
        invariant
            i <= v.len(),
            limit < usize::MAX - 4,
            total == utf8_len(v@.take(i as int)),
            total <= limit,
        decreases v.len() - i,
    {
        let c = v[i];
        let code = c as u32;
        let w: usize = if code < 0x80 {
            1
        } else if code < 0x800 {
            2
        } else if code < 0x10000 {
            3
        } else {
            4
        };
        assert(v@.take(i + 1).drop_last() =~= v@.take(i as int));
        total = total + w;
        i = i + 1;
        if total > limit {
            proof {
                lemma_utf8_len_prefix(v@, i as int);
            }
            return true;
        }
    }
    assert(v@.take(v.len() as int) =~= v@);
    false
}

pub proof fn lemma_utf8_len_prefix(s: Seq<char>, i: int)
    requires
        0 <= i <= s.len(),
    ensures
        utf8_len(s.take(i)) <= utf8_len(s),
    decreases s.len() - i,
{
    if i < s.len() {
        lemma_utf8_len_prefix(s, i + 1);
        assert(s.take(i + 1).drop_last() =~= s.take(i));
    } else {
        assert(s.take(i) =~= s);
    }
}

/// Advisory symbols as accepted from a provider: each trimmed, empty or
/// oversized ones dropped, duplicates dropped, at most
/// `MAX_ADVISORY_SYMBOLS` kept (the first ones).
pub open spec fn sanitized_symbols(syms: Seq<Seq<char>>) -> Seq<Seq<char>>
    decreases syms.len(),
{
    if syms.len() == 0 {
        Seq::empty()
    } else {
        let prev = sanitized_symbols(syms.drop_last());
        let t = trim(syms.last());
        if prev.len() >= MAX_ADVISORY_SYMBOLS || t.len() == 0 || utf8_len(t)
            > MAX_ADVISORY_SYMBOL_LEN || prev.contains(t) {
            prev
        } else {
            prev.push(t)
        }
    }
}

/// The character sequences of a list of strings.
pub open spec fn string_views(s: Seq<String>) -> Seq<Seq<char>> {
    s.map_values(|x: String| x@)
}

/// Drop empty, whitespace-only, oversized and repeated symbols and cap the
/// count (provider input).
pub fn sanitize_advisory_symbols(symbols: &[String]) -> (r: Vec<String>)
    ensures
        string_views(r@) == sanitized_symbols(string_views(symbols@)),
{
    let ghost syms = string_views(symbols@);
    let mut out: Vec<String> = Vec::new();
    let mut i: usize = 0;
    while i < symbols.len()
        invariant
            i <= symbols.len(),
            syms == string_views(symbols@),
            string_views(out@) == sanitized_symbols(syms.take(i as int)),
        decreases symbols.len() - i,
    {
        let ghost prev = string_views(out@);
        assert(syms.take(i + 1).drop_last() =~= syms.take(i as int));
        assert(syms.take(i + 1).last() == symbols@[i as int]@);
        if out.len() < MAX_ADVISORY_SYMBOLS {
            let tv = trim_vec(chars_of(symbols[i].as_str()).as_slice());
            if tv.len() > 0 && !utf8_len_exceeds(tv.as_slice(), MAX_ADVISORY_SYMBOL_LEN) {
                let t = string_of(tv.as_slice());
                let mut dup = false;
                let mut k: usize = 0;
                while k < out.len()
                    invariant
                        k <= out.len(),
                        prev == string_views(out@),
                        dup == (exists|m: int| 0 <= m < k && prev[m] == t@),
                    decreases out.len() - k,
                {
                    assert(prev[k as int] == out@[k as int]@);
                    if str_eq(out[k].as_str(), t.as_str()) {
                        dup = true;
                    }
                    assert(dup == (exists|m: int| 0 <= m < k + 1 && prev[m] == t@)) by {
                        if exists|m: int| 0 <= m < k + 1 && prev[m] == t@ {
                            let m = choose|m: int| 0 <= m < k + 1 && prev[m] == t@;
                            if m < k {
                                assert(exists|m2: int| 0 <= m2 < k && prev[m2] == t@);
                            }
                        }
                    }
                    k = k + 1;
                }
                assert(dup == prev.contains(t@));
                if !dup {
                    out.push(t);
                    assert(string_views(out@) =~= prev.push(tv@));
                }
            }
        }
        i = i + 1;
    }
    assert(syms.take(symbols.len() as int) =~= syms);
    out
}

/// State of the comment scrubber.
#[derive(Debug, Clone, Copy, PartialEq, Eq, Structural)]
pub enum ScrubMode {
    Code,
    LineComment,
    BlockComment,
    /// Inside a literal opened by the quote; the flag is set after a backslash.
    Quoted(char, bool),
}

/// What the scrubber emits from position `i` on in mode `m`: comment bodies
/// become spaces (newlines kept), everything else is copied.
pub open spec fn scrub_from(s: Seq<char>, i: int, m: ScrubMode) -> Seq<char>
    decreases s.len() - i,
{
    if i < 0 || i >= s.len() {
        Seq::empty()
    } else {
        let c = s[i];
        match m {
            ScrubMode::LineComment => if c == '\n' {
                seq!['\n'] + scrub_from(s, i + 1, ScrubMode::Code)
            } else {
                seq![' '] + scrub_from(s, i + 1, ScrubMode::LineComment)
            },
            ScrubMode::BlockComment => if c == '*' && i + 1 < s.len() && s[i + 1] == '/' {
                seq![' ', ' '] + scrub_from(s, i + 2, ScrubMode::Code)
            } else if c == '\n' {
                seq!['\n'] + scrub_from(s, i + 1, ScrubMode::BlockComment)
            } else {
                seq![' '] + scrub_from(s, i + 1, ScrubMode::BlockComment)
            },
            ScrubMode::Quoted(q, escaped) => seq![c] + if escaped {
                scrub_from(s, i + 1, ScrubMode::Quoted(q, false))
            } else if c == '\\' {
                scrub_from(s, i + 1, ScrubMode::Quoted(q, true))
            } else if c == q {
                scrub_from(s, i + 1, ScrubMode::Code)
            } else {
                scrub_from(s, i + 1, ScrubMode::Quoted(q, false))
            },
            ScrubMode::Code => if c == '"' || c == '\'' {
                seq![c] + scrub_from(s, i + 1, ScrubMode::Quoted(c, false))
            } else if c == '/' && i + 1 < s.len() && s[i + 1] == '/' {
                seq![' ', ' '] + scrub_from(s, i + 2, ScrubMode::LineComment)
            } else if c == '/' && i + 1 < s.len() && s[i + 1] == '*' {
                seq![' ', ' '] + scrub_from(s, i + 2, ScrubMode::BlockComment)
            } else {
                seq![c] + scrub_from(s, i + 1, ScrubMode::Code)
            },
        }
    }
}

/// Scrubbing keeps the shape of the text: one output character per input
/// character, each either copied or blanked to a space, and a newline exactly
/// where the input has one, so line numbers stay stable.
pub proof fn lemma_scrub_shape(s: Seq<char>, i: int, m: ScrubMode)
    requires
        0 <= i <= s.len(),
    ensures
        scrub_from(s, i, m).len() == s.len() - i,
        forall|k: int|
            0 <= k < s.len() - i ==> (#[trigger] scrub_from(s, i, m)[k] == '\n') == (s[i + k]
                == '\n'),
        forall|k: int|
            0 <= k < s.len() - i ==> #[trigger] scrub_from(s, i, m)[k] == s[i + k] || scrub_from(
                s,
                i,
                m,
            )[k] == ' ',
    decreases s.len() - i,
{
    if i < s.len() {
        let c = s[i];
        let out = scrub_from(s, i, m);
        let two = i + 1 < s.len() && (match m {
            ScrubMode::BlockComment => c == '*' && s[i + 1] == '/',
            ScrubMode::Code => c == '/' && (s[i + 1] == '/' || s[i + 1] == '*'),
            _ => false,
        });
        let (head, nm) = match m {
            ScrubMode::LineComment => if c == '\n' {
                (seq!['\n'], ScrubMode::Code)
            } else {
                (seq![' '], ScrubMode::LineComment)
            },
            ScrubMode::BlockComment => if two {
                (seq![' ', ' '], ScrubMode::Code)
            } else if c == '\n' {
                (seq!['\n'], ScrubMode::BlockComment)
            } else {
                (seq![' '], ScrubMode::BlockComment)
            },
            ScrubMode::Quoted(q, escaped) => (
                seq![c],
                if escaped {
                    ScrubMode::Quoted(q, false)
                } else if c == '\\' {
                    ScrubMode::Quoted(q, true)
                } else if c == q {
                    ScrubMode::Code
                } else {
                    ScrubMode::Quoted(q, false)
                },
            ),
            ScrubMode::Code => if c == '"' || c == '\'' {
                (seq![c], ScrubMode::Quoted(c, false))
            } else if two && s[i + 1] == '/' {
                (seq![' ', ' '], ScrubMode::LineComment)
            } else if two {
                (seq![' ', ' '], ScrubMode::BlockComment)
            } else {
                (seq![c], ScrubMode::Code)
            },
        };
        let step = head.len() as int;
        assert(out == head + scrub_from(s, i + step, nm));
        lemma_scrub_shape(s, i + step, nm);
        assert forall|k: int| 0 <= k < s.len() - i implies (#[trigger] out[k] == '\n') == (s[i + k]
            == '\n') && (out[k] == s[i + k] || out[k] == ' ') by {
            if k >= step {
                assert(out[k] == scrub_from(s, i + step, nm)[k - step]);
            }
        }
    }
}

/// Strip `//` and `/* */` comments from C-like source while keeping
/// newlines: comment bodies become spaces so line numbers stay stable, and
/// comment markers inside string and character literals are left alone.
pub fn scrub_c_style_comments(source: &str) -> (r: String)
    ensures
        r@ == scrub_from(source@, 0, ScrubMode::Code),
        r@.len() == source@.len(),
        forall|k: int| 0 <= k < source@.len() ==> (#[trigger] r@[k] == '\n') == (source@[k] == '\n'),
        forall|k: int| 0 <= k < source@.len() ==> #[trigger] r@[k] == source@[k] || r@[k] == ' ',
{
    let v = chars_of(source);
    let ghost s = v@;
    let n = v.len();
    let mut out = String::new();
    let mut mode = ScrubMode::Code;
    let mut i: usize = 0;
    while i < n
        invariant
            s == v@,
            n == s.len(),
            i <= n,
            out@ + scrub_from(s, i as int, mode) == scrub_from(s, 0, ScrubMode::Code),
        decreases n - i,
    {
        let c = v[i];
        let ghost before = out@;
        let ghost rest = scrub_from(s, i as int, mode);
        match mode {
            ScrubMode::LineComment => {
                if c == '\n' {
                    mode = ScrubMode::Code;
                    push_char(&mut out, '\n');
                } else {
                    push_char(&mut out, ' ');
                }
                i = i + 1;
            },
            ScrubMode::BlockComment => {
                if c == '*' && i + 1 < n && v[i + 1] == '/' {
                    push_char(&mut out, ' ');
                    push_char(&mut out, ' ');
                    mode = ScrubMode::Code;
                    i = i + 2;
                } else {
                    if c == '\n' {
                        push_char(&mut out, '\n');
                    } else {
                        push_char(&mut out, ' ');
                    }
                    i = i + 1;
                }
            },
            ScrubMode::Quoted(q, escaped) => {
                push_char(&mut out, c);
                if escaped {
                    mode = ScrubMode::Quoted(q, false);
                } else if c == '\\' {
                    mode = ScrubMode::Quoted(q, true);
                } else if c == q {
                    mode = ScrubMode::Code;
                } else {
                    mode = ScrubMode::Quoted(q, false);
                }
                i = i + 1;
            },
            ScrubMode::Code => {
                if c == '"' || c == '\'' {
                    mode = ScrubMode::Quoted(c, false);
                    push_char(&mut out, c);
                    i = i + 1;
                } else if c == '/' && i + 1 < n && v[i + 1] == '/' {
                    push_char(&mut out, ' ');
                    push_char(&mut out, ' ');
                    mode = ScrubMode::LineComment;
                    i = i + 2;
                } else if c == '/' && i + 1 < n && v[i + 1] == '*' {
                    push_char(&mut out, ' ');
                    push_char(&mut out, ' ');
                    mode = ScrubMode::BlockComment;
                    i = i + 2;
                } else {
                    push_char(&mut out, c);
                    i = i + 1;
                }
            },
        }
        proof {
            let step = out@.len() - before.len();
            assert(rest == out@.subrange(before.len() as int, out@.len() as int) + scrub_from(
                s,
                i as int,
                mode,
            ));
            assert(out@ + scrub_from(s, i as int, mode) =~= before + rest);
        }
    }
    proof {
        lemma_scrub_shape(s, 0, ScrubMode::Code);
        assert(out@ + scrub_from(s, n as int, mode) =~= out@);
    }
    out
}

/// Position of the first `//` that is not inside a `"`, `'` or backquote
/// literal, scanning from `i` with the given literal state; the length when
/// there is none.
pub open spec fn slash_cut(s: Seq<char>, i: int, quote: Option<char>, escaped: bool) -> int
    decreases s.len() - i,
{
    if i < 0 || i >= s.len() {
        s.len() as int
    } else {
        match quote {
            Some(q) => if escaped {
                slash_cut(s, i + 1, quote, false)
            } else if s[i] == '\\' {
                slash_cut(s, i + 1, quote, true)
            } else if s[i] == q {
                slash_cut(s, i + 1, None, false)
            } else {
                slash_cut(s, i + 1, quote, false)
            },
            None => if s[i] == '"' || s[i] == '\'' || s[i] == '`' {
                slash_cut(s, i + 1, Some(s[i]), false)
            } else if s[i] == '/' && i + 1 < s.len() && s[i + 1] == '/' {
                i
            } else {
                slash_cut(s, i + 1, None, false)
            },
        }
    }
}

pub proof fn lemma_slash_cut_bounds(s: Seq<char>, i: int, quote: Option<char>, escaped: bool)
    requires
        0 <= i <= s.len(),
    ensures
        i <= slash_cut(s, i, quote, escaped) <= s.len(),
    decreases s.len() - i,
{
    if i < s.len() {
        lemma_slash_cut_bounds(s, i + 1, None, false);
        lemma_slash_cut_bounds(s, i + 1, None, true);
        lemma_slash_cut_bounds(s, i + 1, Some(s[i]), false);
        if let Some(q) = quote {
            lemma_slash_cut_bounds(s, i + 1, quote, false);
            lemma_slash_cut_bounds(s, i + 1, quote, true);
        }
    }
}

/// A line without its trailing comment.
pub open spec fn stripped_line(s: Seq<char>, style: LineCommentStyle) -> Seq<char> {
    match style {
        LineCommentStyle::Hash => match split_once(s, '#') {
            Some((a, _)) => a,
            None => s,
        },
        LineCommentStyle::SlashSlash => s.take(slash_cut(s, 0, None, false)),
    }
}

/// The line without its trailing comment (`#`, or `//` outside literals).
fn strip_line_comment(v: &[char], style: LineCommentStyle) -> (r: Vec<char>)
    ensures
        r@ == stripped_line(v@, style),
{
    match style {
        LineCommentStyle::Hash => {
            match find_char(v, '#') {
                Some(i) => sub_vec(v, 0, i),
                None => sub_vec(v, 0, v.len()),
            }
        },
        LineCommentStyle::SlashSlash => {
            let ghost s = v@;
            let mut quote: Option<char> = None;
            let mut escaped = false;
            let mut i: usize = 0;
            while i < v.len()
                invariant
                    s == v@,
                    i <= v.len(),
                    style == LineCommentStyle::SlashSlash,
                    quote is None ==> !escaped,
                    slash_cut(s, i as int, quote, escaped) == slash_cut(s, 0, None, false),
                decreases v.len() - i,
            {
                let b = v[i];
                match quote {
                    Some(q) => {
                        if escaped {
                            escaped = false;
                        } else if b == '\\' {
                            escaped = true;
                        } else if b == q {
                            quote = None;
                        }
                    },
                    None => {
                        if b == '"' || b == '\'' || b == '`' {
                            quote = Some(b);
                        } else if b == '/' && i + 1 < v.len() && v[i + 1] == '/' {
                            assert(slash_cut(s, i as int, None, false) == i as int);
                            assert(stripped_line(s, style) == s.take(i as int));
                            return sub_vec(v, 0, i);
                        }
                    },
                }
                i = i + 1;
            }
            sub_vec(v, 0, v.len())
        },
    }
}

/// What remains of `s` from `i` on when each `"`, `'` or backquote literal
/// (with backslash escapes) is replaced by one space; `state` is the open
/// quote and escape flag.
pub open spec fn unquoted_from(s: Seq<char>, i: int, state: Option<(char, bool)>) -> Seq<char>
    decreases s.len() - i,
{
    if i < 0 || i >= s.len() {
        Seq::empty()
    } else {
        let c = s[i];
        match state {
            None => if c == '"' || c == '\'' || c == '`' {
                seq![' '] + unquoted_from(s, i + 1, Some((c, false)))
            } else {
                seq![c] + unquoted_from(s, i + 1, None)
            },
            Some((q, escaped)) => if escaped {
                unquoted_from(s, i + 1, Some((q, false)))
            } else if c == '\\' {
                unquoted_from(s, i + 1, Some((q, true)))
            } else if c == q {
                unquoted_from(s, i + 1, None)
            } else {
                unquoted_from(s, i + 1, Some((q, false)))
            },
        }
    }
}

/// Replace every quoted region by a single space.
fn remove_quoted_regions(v: &[char]) -> (r: String)
    ensures
        r@ == unquoted_from(v@, 0, None),
{
    let ghost s = v@;
    let mut out = String::new();
    let mut state: Option<(char, bool)> = None;
    let mut i: usize = 0;
    while i < v.len()
        invariant
            s == v@,
            i <= v.len(),
            out@ + unquoted_from(s, i as int, state) == unquoted_from(s, 0, None),
        decreases v.len() - i,
    {
        let c = v[i];
        let ghost before = out@;
        let ghost st0 = state;
        match state {
            None => {
                if c == '"' || c == '\'' || c == '`' {
                    push_char(&mut out, ' ');
                    state = Some((c, false));
                } else {
                    push_char(&mut out, c);
                }
            },
            Some((q, escaped)) => {
                if escaped {
                    state = Some((q, false));
                } else if c == '\\' {
                    state = Some((q, true));
                } else if c == q {
                    state = None;
                } else {
                    state = Some((q, false));
                }
            },
        }
        i = i + 1;
        assert(out@ + unquoted_from(s, i as int, state) =~= before + unquoted_from(s, i - 1, st0));
    }
    assert(out@ + unquoted_from(s, i as int, state) =~= out@);
    out
}

/// The code part of a source line used for symbol matching: comment
/// stripped, trimmed, literals blanked.
pub open spec fn line_code(s: Seq<char>, style: LineCommentStyle) -> Seq<char> {
    unquoted_from(trim(stripped_line(s, style)), 0, None)
}

/// Code portion of a source line for symbol matching (comments and string
/// literals removed); the line number of a match is the line's own.
pub fn line_code_for_symbol_match(line: &str, style: LineCommentStyle) -> (r: String)
    ensures
        r@ == line_code(line@, style),
{
    let v = chars_of(line);
    let without_comment = strip_line_comment(v.as_slice(), style);
    let trimmed = trim_vec(without_comment.as_slice());
    remove_quoted_regions(trimmed.as_slice())
}

/// First position at or after `i` where `p` occurs in `s` (`str::find` on
/// the tail).
pub open spec fn find_from(s: Seq<char>, p: Seq<char>, i: int) -> Option<int>
    decreases s.len() + 1 - i,
{
    if i < 0 || i + p.len() > s.len() {
        None
    } else if occurs_at(s, p, i) {
        Some(i)
    } else {
        find_from(s, p, i + 1)
    }
}

pub proof fn lemma_find_from(s: Seq<char>, p: Seq<char>, i: int)
    requires
        0 <= i,
    ensures
        find_from(s, p, i) matches Some(k) ==> i <= k && k + p.len() <= s.len() && occurs_at(s, p, k),
    decreases s.len() + 1 - i,
{
    if i + p.len() <= s.len() && !occurs_at(s, p, i) {
        lemma_find_from(s, p, i + 1);
    }
}

/// `find_from` on character vectors.
fn find_from_exec(v: &[char], p: &[char], start: usize) -> (r: Option<usize>)
    ensures
        match find_from(v@, p@, start as int) {
            Some(k) => r == Some(k as usize),
            None => r is None,
        },
{
    if start > v.len() {
        return None;
    }
    let mut i = start;
    while i < v.len() && p.len() <= v.len() - i
        invariant
            start <= i <= v.len(),
            find_from(v@, p@, i as int) == find_from(v@, p@, start as int),
        decreases v.len() - i,
    {
        if occurs_at_exec(v, p, i) {
            return Some(i);
        }
        i = i + 1;
    }
    if p.len() <= v.len() - i && occurs_at_exec(v, p, i) {
        return Some(i);
    }
    proof {
        if p.len() <= v.len() - i {
            assert(i == v.len());
            assert(find_from(v@, p@, i + 1) is None);
        }
    }
    None
}

/// Characters that continue a symbol: ASCII letters and digits, `_`, `.`, `:`.
pub open spec fn continues_symbol(c: char) -> bool {
    ('a' <= c && c <= 'z') || ('A' <= c && c <= 'Z') || ('0' <= c && c <= '9') || c == '_' || c
        == '.' || c == ':'
}

/// Characters that continue an identifier: ASCII letters and digits, `_`.
pub open spec fn continues_identifier(c: char) -> bool {
    ('a' <= c && c <= 'z') || ('A' <= c && c <= 'Z') || ('0' <= c && c <= '9') || c == '_'
}

/// Whether an occurrence of `sym` at or after `start` (searching left to
/// right, resuming after each rejected match) has no symbol character on
/// either side.
pub open spec fn boundary_match_from(code: Seq<char>, sym: Seq<char>, start: int) -> bool
    decreases code.len() + 1 - start,
{
    if start < 0 {
        false
    } else {
        match find_from(code, sym, start) {
            None => false,
            Some(idx) => {
                proof {
                    lemma_find_from(code, sym, start);
                }
                let before_ok = idx == 0 || !continues_symbol(code[idx - 1]);
                let after = idx + sym.len();
                let after_ok = after >= code.len() || !continues_symbol(code[after]);
                if before_ok && after_ok {
                    true
                } else {
                    boundary_match_from(code, sym, idx + if sym.len() > 0 { sym.len() as int } else { 1 })
                }
            },
        }
    }
}

/// Whether `.sym` occurs at or after `start` not followed by an identifier
/// character.
pub open spec fn member_match_from(code: Seq<char>, needle: Seq<char>, start: int) -> bool
    decreases code.len() + 1 - start,
{
    if start < 0 {
        false
    } else {
        match find_from(code, needle, start) {
            None => false,
            Some(pos) => {
                proof {
                    lemma_find_from(code, needle, start);
                }
                let after = pos + needle.len();
                if after >= code.len() || !continues_identifier(code[after]) {
                    true
                } else {
                    member_match_from(code, needle, pos + 1)
                }
            },
        }
    }
}

/// Whether `sym` names a qualified path (`.`, `/` or `::` inside).
pub open spec fn is_qualified(sym: Seq<char>) -> bool {
    has_char(sym, '.') || has_char(sym, '/') || contains_sub(sym, seq![':', ':'])
}

/// `sym` appears in `code` with identifier/path boundaries; an unqualified
/// symbol also matches as a member access `.sym`.
pub open spec fn symbol_in_code(code: Seq<char>, sym: Seq<char>) -> bool {
    if sym.len() == 0 {
        false
    } else if is_qualified(sym) {
        boundary_match_from(code, sym, 0)
    } else {
        boundary_match_from(code, sym, 0) || member_match_from(code, seq!['.'] + sym, 0)
    }
}

/// An occurrence found by the boundary search has, on each side, either the
/// end of the code or a character that is no ASCII letter or digit, `_`,
/// `.` or `:`.
proof fn lemma_boundary_match_found(code: Seq<char>, sym: Seq<char>, start: int)
    ensures
        boundary_match_from(code, sym, start) ==> exists|idx: int|
            #![trigger code.subrange(idx, idx + sym.len())]
            start <= idx && idx + sym.len() <= code.len() && code.subrange(idx, idx + sym.len()) == sym && (idx == 0
                || !(('a' <= code[idx - 1] && code[idx - 1] <= 'z') || ('A' <= code[idx - 1] && code[idx - 1] <= 'Z')
                || ('0' <= code[idx - 1] && code[idx - 1] <= '9') || code[idx - 1] == '_' || code[idx - 1] == '.'
                || code[idx - 1] == ':')) && (idx + sym.len() >= code.len() || !(('a' <= code[idx + sym.len()]
                && code[idx + sym.len()] <= 'z') || ('A' <= code[idx + sym.len()] && code[idx + sym.len()] <= 'Z')
                || ('0' <= code[idx + sym.len()] && code[idx + sym.len()] <= '9') || code[idx + sym.len()] == '_'
                || code[idx + sym.len()] == '.' || code[idx + sym.len()] == ':')),
    decreases code.len() + 1 - start,
{
    if start >= 0 {
        lemma_find_from(code, sym, start);
        match find_from(code, sym, start) {
            None => {},
            Some(idx) => {
                let before_ok = idx == 0 || !continues_symbol(code[idx - 1]);
                let after = idx + sym.len();
                let after_ok = after >= code.len() || !continues_symbol(code[after]);
                if !(before_ok && after_ok) {
                    lemma_boundary_match_found(code, sym, idx + if sym.len() > 0 { sym.len() as int } else { 1 });
                } else {
                    assert(code.subrange(idx, idx + sym.len()) == sym);
                }
            },
        }
    }
}

/// An occurrence found by the member-access search is not followed by an
/// ASCII letter or digit or `_`.
proof fn lemma_member_match_found(code: Seq<char>, needle: Seq<char>, start: int)
    ensures
        member_match_from(code, needle, start) ==> exists|pos: int|
            #![trigger code.subrange(pos, pos + needle.len())]
            start <= pos && pos + needle.len() <= code.len() && code.subrange(pos, pos + needle.len()) == needle
                && (pos + needle.len() >= code.len() || !(('a' <= code[pos + needle.len()] && code[pos
                + needle.len()] <= 'z') || ('A' <= code[pos + needle.len()] && code[pos + needle.len()] <= 'Z')
                || ('0' <= code[pos + needle.len()] && code[pos + needle.len()] <= '9') || code[pos + needle.len()]
                == '_')),
    decreases code.len() + 1 - start,
{
    if start >= 0 {
        lemma_find_from(code, needle, start);
        match find_from(code, needle, start) {
            None => {},
            Some(pos) => {
                let after = pos + needle.len();
                if !(after >= code.len() || !continues_identifier(code[after])) {
                    lemma_member_match_found(code, needle, pos + 1);
                } else {
                    assert(code.subrange(pos, pos + needle.len()) == needle);
                }
            },
        }
    }
}

/// What a found symbol is: an occurrence of `sym` in `code` that no ASCII
/// letter or digit or `_` follows; for a qualified symbol (with `.`, `/` or
/// `::`), moreover, neither side touches an ASCII letter or digit, `_`, `.`
/// or `:`. So a symbol that is a proper prefix of a longer name (`math.log`
/// inside `math.log10`) is not found there.
pub proof fn lemma_symbol_in_code_bounded(code: Seq<char>, sym: Seq<char>)
    ensures
        symbol_in_code(code, sym) ==> exists|idx: int|
            #![trigger code.subrange(idx, idx + sym.len())]
            0 <= idx && idx + sym.len() <= code.len() && code.subrange(idx, idx + sym.len()) == sym && (idx
                + sym.len() >= code.len() || !(('a' <= code[idx + sym.len()] && code[idx + sym.len()] <= 'z') || ('A'
                <= code[idx + sym.len()] && code[idx + sym.len()] <= 'Z') || ('0' <= code[idx + sym.len()]
                && code[idx + sym.len()] <= '9') || code[idx + sym.len()] == '_')),
        symbol_in_code(code, sym) && is_qualified(sym) ==> exists|idx: int|
            #![trigger code.subrange(idx, idx + sym.len())]
            0 <= idx && idx + sym.len() <= code.len() && code.subrange(idx, idx + sym.len()) == sym && (idx == 0
                || !(('a' <= code[idx - 1] && code[idx - 1] <= 'z') || ('A' <= code[idx - 1] && code[idx - 1] <= 'Z')
                || ('0' <= code[idx - 1] && code[idx - 1] <= '9') || code[idx - 1] == '_' || code[idx - 1] == '.'
                || code[idx - 1] == ':')) && (idx + sym.len() >= code.len() || !(('a' <= code[idx + sym.len()]
                && code[idx + sym.len()] <= 'z') || ('A' <= code[idx + sym.len()] && code[idx + sym.len()] <= 'Z')
                || ('0' <= code[idx + sym.len()] && code[idx + sym.len()] <= '9') || code[idx + sym.len()] == '_'
                || code[idx + sym.len()] == '.' || code[idx + sym.len()] == ':')),
{
    lemma_boundary_match_found(code, sym, 0);
    if symbol_in_code(code, sym) && !boundary_match_from(code, sym, 0) {
        let needle = seq!['.'] + sym;
        lemma_member_match_found(code, needle, 0);
        let pos = choose|pos: int|
            #![trigger code.subrange(pos, pos + needle.len())]
            0 <= pos && pos + needle.len() <= code.len() && code.subrange(pos, pos + needle.len()) == needle && (pos
                + needle.len() >= code.len() || !(('a' <= code[pos + needle.len()] && code[pos + needle.len()]
                <= 'z') || ('A' <= code[pos + needle.len()] && code[pos + needle.len()] <= 'Z') || ('0' <= code[pos
                + needle.len()] && code[pos + needle.len()] <= '9') || code[pos + needle.len()] == '_'));
        assert(code.subrange(pos + 1, pos + 1 + sym.len()) =~= sym) by {
            assert forall|k: int| 0 <= k < sym.len() implies code.subrange(pos + 1, pos + 1 + sym.len())[k] == sym[k] by {
                assert(code.subrange(pos, pos + needle.len())[k + 1] == needle[k + 1]);
            }
        }
    }
}

proof fn lemma_find_from_first(s: Seq<char>, p: Seq<char>, i: int, idx: int)
    requires
        0 <= i <= idx,
        occurs_at(s, p, idx),
        forall|m: int| i <= m < idx ==> !#[trigger] occurs_at(s, p, m),
    ensures
        find_from(s, p, i) == Some(idx),
    decreases idx - i,
{
    if i < idx {
        lemma_find_from_first(s, p, i + 1, idx);
    }
}

/// The first occurrence of a symbol is found when it stands alone: if
/// `sym` first occurs in `code` at `idx` and neither side of that
/// occurrence touches an ASCII letter or digit, `_`, `.` or `:`, the
/// symbol is in the code.
pub proof fn lemma_symbol_in_code_first_found(code: Seq<char>, sym: Seq<char>, idx: int)
    requires
        sym.len() > 0,
        0 <= idx,
        idx + sym.len() <= code.len(),
        code.subrange(idx, idx + sym.len()) == sym,
        forall|m: int| 0 <= m < idx ==> #[trigger] code.subrange(m, m + sym.len()) != sym,
        idx == 0 || !(('a' <= code[idx - 1] && code[idx - 1] <= 'z') || ('A' <= code[idx - 1] && code[idx - 1] <= 'Z')
            || ('0' <= code[idx - 1] && code[idx - 1] <= '9') || code[idx - 1] == '_' || code[idx - 1] == '.'
            || code[idx - 1] == ':'),
        idx + sym.len() >= code.len() || !(('a' <= code[idx + sym.len()] && code[idx + sym.len()] <= 'z') || ('A'
            <= code[idx + sym.len()] && code[idx + sym.len()] <= 'Z') || ('0' <= code[idx + sym.len()]
            && code[idx + sym.len()] <= '9') || code[idx + sym.len()] == '_' || code[idx + sym.len()] == '.'
            || code[idx + sym.len()] == ':'),
    ensures
        symbol_in_code(code, sym),
{
    assert forall|m: int| 0 <= m < idx implies !#[trigger] occurs_at(code, sym, m) by {
        assert(code.subrange(m, m + sym.len()) != sym);
    }
    lemma_find_from_first(code, sym, 0, idx);
    assert(boundary_match_from(code, sym, 0));
}

fn continues_symbol_exec(c: char) -> (r: bool)
    ensures
        r == continues_symbol(c),
{
    ('a' <= c && c <= 'z') || ('A' <= c && c <= 'Z') || ('0' <= c && c <= '9') || c == '_' || c
        == '.' || c == ':'
}

fn continues_identifier_exec(c: char) -> (r: bool)
    ensures
        r == continues_identifier(c),
{
    ('a' <= c && c <= 'z') || ('A' <= c && c <= 'Z') || ('0' <= c && c <= '9') || c == '_'
}

fn symbol_match_at_boundaries(code: &[char], sym: &[char]) -> (r: bool)
    requires
        sym@.len() > 0,
    ensures
        r == boundary_match_from(code@, sym@, 0),
{
    let step: usize = sym.len();
    let mut start: usize = 0;
    while start <= code.len()
        invariant
            sym@.len() > 0,
            step == sym@.len(),
            boundary_match_from(code@, sym@, start as int) == boundary_match_from(code@, sym@, 0),
        decreases code.len() + 1 - start,
    {
        proof {
            lemma_find_from(code@, sym@, start as int);
        }
        match find_from_exec(code, sym, start) {
            None => {
                return false;
            },
            Some(idx) => {
                let before_ok = idx == 0 || !continues_symbol_exec(code[idx - 1]);
                let after = idx + sym.len();
                let after_ok = after >= code.len() || !continues_symbol_exec(code[after]);
                if before_ok && after_ok {
                    return true;
                }
                start = idx + step;
            },
        }
    }
    proof {
        lemma_find_from(code@, sym@, start as int);
    }
    false
}

fn member_access_symbol_in_code(code: &[char], needle: &[char]) -> (r: bool)
    ensures
        r == member_match_from(code@, needle@, 0),
{
    let mut start: usize = 0;
    while start <= code.len()
        invariant
            member_match_from(code@, needle@, start as int) == member_match_from(code@, needle@, 0),
        decreases code.len() + 1 - start,
    {
        proof {
            lemma_find_from(code@, needle@, start as int);
        }
        match find_from_exec(code, needle, start) {
            None => {
                return false;
            },
            Some(pos) => {
                let after = pos + needle.len();
                if after >= code.len() || !continues_identifier_exec(code[after]) {
                    return true;
                }
                start = pos + 1;
            },
        }
    }
    proof {
        lemma_find_from(code@, needle@, start as int);
    }
    false
}

/// Whether `sym` appears in `code` with identifier/path boundaries.
pub fn qualified_symbol_in_code(code: &str, sym: &str) -> (r: bool)
    ensures
        r == symbol_in_code(code@, sym@),
{
    let c = chars_of(code);
    let s = chars_of(sym);
    if s.len() == 0 {
        return false;
    }
    let mut double_colon: Vec<char> = Vec::new();
    double_colon.push(':');
    double_colon.push(':');
    assert(double_colon@ =~= seq![':', ':']);
    let qualified = has_char_vec(s.as_slice(), '.') || has_char_vec(s.as_slice(), '/')
        || contains_vec(s.as_slice(), double_colon.as_slice());
    if qualified {
        return symbol_match_at_boundaries(c.as_slice(), s.as_slice());
    }
    if symbol_match_at_boundaries(c.as_slice(), s.as_slice()) {
        return true;
    }
    let mut needle: Vec<char> = Vec::new();
    needle.push('.');
    let mut k: usize = 0;
    while k < s.len()
        invariant
            k <= s.len(),
            needle@ == seq!['.'] + s@.take(k as int),
        decreases s.len() - k,
    {
        needle.push(s[k]);
        assert(needle@ =~= seq!['.'] + s@.take(k + 1));
        k = k + 1;
    }
    assert(s@.take(s.len() as int) =~= s@);
    member_access_symbol_in_code(c.as_slice(), needle.as_slice())
}

} // verus!
