//! The syntax of a document, as spec functions: for each rule of the
//! grammar, whether it matches at a character position, where it ends, and
//! whether it met a table whose rows differ in length. The parser in
//! `grammar` is proved to follow these functions exactly.

use vstd::prelude::*;
use crate::grammar::dedent_of;
use crate::keywords::{KeywordWords, language_words, supported_language};
use crate::parser::{best_match, miss_text, starts_with_at};
use crate::text::is_ws;
use crate::StepType;

verus! {

/// A blank: a space or a tab.
pub open spec fn is_blank(c: char) -> bool {
    c == ' ' || c == '\t'
}

/// The position after the blanks at `p`.
pub open spec fn skip_blanks(cs: Seq<char>, p: int) -> int
    decreases cs.len() - p,
{
    if 0 <= p < cs.len() && is_blank(cs[p]) {
        skip_blanks(cs, p + 1)
    } else {
        p
    }
}

/// A line break at `p`: `\n` or `\r\n`; the position after it.
pub open spec fn line_break(cs: Seq<char>, p: int) -> Option<int> {
    if 0 <= p < cs.len() && cs[p] == '\n' {
        Some(p + 1)
    } else if 0 <= p && p + 1 < cs.len() && cs[p] == '\r' && cs[p + 1] == '\n' {
        Some(p + 2)
    } else {
        None
    }
}

/// The position of the first line break at or after `p`, or the end.
pub open spec fn line_end(cs: Seq<char>, p: int) -> int
    decreases cs.len() - p,
{
    if 0 <= p < cs.len() && line_break(cs, p) is None {
        line_end(cs, p + 1)
    } else {
        p
    }
}

/// The position after the blanks and bare line breaks at `p`.
pub open spec fn skip_blank_lines(cs: Seq<char>, p: int) -> int
    decreases cs.len() - p,
{
    if 0 <= p < cs.len() && is_blank(cs[p]) {
        skip_blank_lines(cs, p + 1)
    } else if 0 <= p && line_break(cs, p) is Some {
        skip_blank_lines(cs, line_break(cs, p).unwrap())
    } else {
        p
    }
}

/// A comment at `p` up to its line break: blanks, `#`, the rest of the line.
pub open spec fn comment_text(cs: Seq<char>, p: int) -> Option<int> {
    let q = skip_blanks(cs, p);
    if 0 <= q < cs.len() && cs[q] == '#' {
        Some(line_end(cs, q + 1))
    } else {
        None
    }
}

/// A line break at `p`, after an optional comment.
pub open spec fn newline(cs: Seq<char>, p: int) -> Option<int> {
    match comment_text(cs, p) {
        Some(q) => line_break(cs, q),
        None => line_break(cs, p),
    }
}

/// The position after the line breaks (with their comments) and blanks at `q`.
pub open spec fn skip_breaks(cs: Seq<char>, q: int) -> int
    decreases cs.len() - q,
{
    match newline(cs, q) {
        Some(q2) => if q < q2 <= cs.len() {
            skip_breaks(cs, q2)
        } else {
            q
        },
        None => if 0 <= q < cs.len() && is_blank(cs[q]) {
            skip_breaks(cs, q + 1)
        } else {
            q
        },
    }
}

/// One or more line breaks or blanks at `p`, or the end of the input.
pub open spec fn line_done(cs: Seq<char>, p: int) -> Option<int> {
    let q = skip_breaks(cs, p);
    if q > p || p == cs.len() {
        Some(q)
    } else {
        None
    }
}

/// `s` without its trailing whitespace.
pub open spec fn trim_end(s: Seq<char>) -> Seq<char>
    decreases s.len(),
{
    if s.len() > 0 && is_ws(s.last()) {
        trim_end(s.drop_last())
    } else {
        s
    }
}

/// `s` without its leading whitespace.
pub open spec fn trim_start(s: Seq<char>) -> Seq<char>
    decreases s.len(),
{
    if s.len() > 0 && is_ws(s[0]) {
        trim_start(s.drop_first())
    } else {
        s
    }
}

/// `s` without leading and trailing whitespace, as `str::trim` gives it.
pub open spec fn trim(s: Seq<char>) -> Seq<char> {
    trim_end(trim_start(s))
}

/// The end of a cell's text from `q`: the next `|` or line break.
pub open spec fn cell_end(cs: Seq<char>, q: int) -> int
    decreases cs.len() - q,
{
    if 0 <= q < cs.len() && cs[q] != '|' && line_break(cs, q) is None {
        cell_end(cs, q + 1)
    } else {
        q
    }
}

/// A table cell at `p`: `|`, blanks, then text that does not start a line
/// break, up to the next `|` or line break; the text trimmed.
pub open spec fn cell_at(cs: Seq<char>, p: int) -> Option<(Seq<char>, int)> {
    if 0 <= p < cs.len() && cs[p] == '|' {
        let a = skip_blanks(cs, p + 1);
        if a >= cs.len() || line_break(cs, a) is Some {
            None
        } else {
            let b = cell_end(cs, a);
            Some((trim(cs.subrange(a, b)), b))
        }
    } else {
        None
    }
}

/// Further cells from `q`, each after blanks, and where they end.
pub open spec fn more_cells(cs: Seq<char>, q: int) -> (Seq<Seq<char>>, int)
    decreases cs.len() - q,
{
    match cell_at(cs, skip_blanks(cs, q)) {
        Some((c, q2)) => if q < q2 <= cs.len() {
            (seq![c] + more_cells(cs, q2).0, more_cells(cs, q2).1)
        } else {
            (seq![], q)
        },
        None => (seq![], q),
    }
}

/// A table row at `p`: its cells, then blanks, a closing `|`, blanks and the
/// end of the line.
pub open spec fn row_at(cs: Seq<char>, p: int) -> Option<(Seq<Seq<char>>, int)> {
    let (cells, q) = match cell_at(cs, p) {
        Some((c, q1)) => (seq![c] + more_cells(cs, q1).0, more_cells(cs, q1).1),
        None => (seq![], p),
    };
    let q2 = skip_blanks(cs, q);
    if 0 <= q2 < cs.len() && cs[q2] == '|' {
        match line_done(cs, skip_blanks(cs, q2 + 1)) {
            Some(e) => Some((cells, e)),
            None => None,
        }
    } else {
        None
    }
}

/// Further rows from `q`, each after blanks, and where they end.
pub open spec fn more_rows(cs: Seq<char>, q: int) -> (Seq<Seq<Seq<char>>>, int)
    decreases cs.len() - q,
{
    match row_at(cs, skip_blanks(cs, q)) {
        Some((r, q2)) => if q < q2 <= cs.len() {
            (seq![r] + more_rows(cs, q2).0, more_rows(cs, q2).1)
        } else {
            (seq![], q)
        },
        None => (seq![], q),
    }
}

/// The rows of a table at `p` (after blanks), and where the table ends.
pub open spec fn table_rows(cs: Seq<char>, p: int) -> Option<(Seq<Seq<Seq<char>>>, int)> {
    match row_at(cs, skip_blanks(cs, p)) {
        Some((r, q)) => Some((seq![r] + more_rows(cs, q).0, more_rows(cs, q).1)),
        None => None,
    }
}

/// The characters of each cell of a row.
pub open spec fn cells_view(v: Seq<String>) -> Seq<Seq<char>> {
    Seq::new(v.len(), |i: int| v[i]@)
}

/// The characters of each cell of each row.
pub open spec fn rows_view(rows: Seq<Vec<String>>) -> Seq<Seq<Seq<char>>> {
    Seq::new(rows.len(), |i: int| cells_view(rows[i]@))
}

/// All rows have the length of the first.
pub open spec fn same_widths(rows: Seq<Seq<Seq<char>>>) -> bool {
    forall|i: int| 0 <= i < rows.len() ==> #[trigger] rows[i].len() == rows[0].len()
}

/// A whole comment line at `p`, with the line breaks and blanks after it.
pub open spec fn comment_line(cs: Seq<char>, p: int) -> Option<int> {
    match comment_text(cs, p) {
        Some(q) => line_done(cs, q),
        None => None,
    }
}

/// The position after the comment lines at `q`.
pub open spec fn skip_comments(cs: Seq<char>, q: int) -> int
    decreases cs.len() - q,
{
    match comment_line(cs, q) {
        Some(q2) => if q < q2 <= cs.len() {
            skip_comments(cs, q2)
        } else {
            q
        },
        None => q,
    }
}

/// The position after the line breaks (each after an optional comment) at `q`.
pub open spec fn skip_newlines(cs: Seq<char>, q: int) -> int
    decreases cs.len() - q,
{
    match newline(cs, q) {
        Some(q2) => if q < q2 <= cs.len() {
            skip_newlines(cs, q2)
        } else {
            q
        },
        None => q,
    }
}

/// The position after the blanks and line breaks (with comments) at `q`.
pub open spec fn skip_space(cs: Seq<char>, q: int) -> int
    decreases cs.len() - q,
{
    if 0 <= q < cs.len() && is_blank(cs[q]) {
        skip_space(cs, q + 1)
    } else {
        match newline(cs, q) {
            Some(q2) => if q < q2 <= cs.len() {
                skip_space(cs, q2)
            } else {
                q
            },
            None => q,
        }
    }
}

/// The longest word of `ws` after the comment lines at `p`: where it starts
/// and ends.
pub open spec fn keyword_at(cs: Seq<char>, ws: Seq<Seq<char>>, p: int) -> Option<(int, int)> {
    let q = skip_comments(cs, p);
    if exists|i: int| #[trigger] best_match(cs, q, ws, i) {
        let i = choose|i: int| #[trigger] best_match(cs, q, ws, i);
        Some((q, q + ws[i].len()))
    } else {
        None
    }
}

/// A description line at `p`: neither a tag line nor one opened by a word of
/// `ex`; the position after it.
pub open spec fn desc_line_at(cs: Seq<char>, ex: Seq<Seq<char>>, p: int) -> Option<int> {
    let q = skip_blanks(cs, p);
    if (0 <= q < cs.len() && cs[q] == '@') || keyword_at(cs, ex, q) is Some {
        None
    } else {
        let a = skip_blanks(cs, q);
        let b = line_end(cs, a);
        if b > a {
            line_done(cs, b)
        } else {
            None
        }
    }
}

/// Further description lines from `q`, each after blanks.
pub open spec fn more_desc(cs: Seq<char>, ex: Seq<Seq<char>>, q: int) -> int
    decreases cs.len() - q,
{
    match desc_line_at(cs, ex, skip_blanks(cs, q)) {
        Some(q2) => if q < q2 <= cs.len() {
            more_desc(cs, ex, q2)
        } else {
            q
        },
        None => q,
    }
}

/// The trace of a keyword attempt of `ws` at `p`: the text recorded when no
/// word stands there.
pub open spec fn keyword_trace(cs: Seq<char>, ws: Seq<Seq<char>>, p: int) -> Trace {
    if keyword_at(cs, ws, p) is Some {
        quiet()
    } else {
        Trace { ragged: None, soft: miss_text(cs, skip_comments(cs, p), ws) }
    }
}

/// The trace of a description line attempt at `p`: a tag line tries no
/// keyword.
pub open spec fn desc_line_trace(cs: Seq<char>, ex: Seq<Seq<char>>, p: int) -> Trace {
    let q = skip_blanks(cs, p);
    if 0 <= q < cs.len() && cs[q] == '@' {
        quiet()
    } else {
        keyword_trace(cs, ex, q)
    }
}

/// The trace of further description lines from `q`.
pub open spec fn more_desc_trace(cs: Seq<char>, ex: Seq<Seq<char>>, q: int) -> Trace
    decreases cs.len() - q,
{
    let q1 = skip_blanks(cs, q);
    match desc_line_at(cs, ex, q1) {
        Some(q2) => if q < q2 <= cs.len() {
            chain(desc_line_trace(cs, ex, q1), more_desc_trace(cs, ex, q2))
        } else {
            desc_line_trace(cs, ex, q1)
        },
        None => desc_line_trace(cs, ex, q1),
    }
}

/// The trace of the description at `p`.
pub open spec fn description_trace(cs: Seq<char>, ex: Seq<Seq<char>>, p: int) -> Trace {
    match desc_line_at(cs, ex, p) {
        Some(q) => chain(desc_line_trace(cs, ex, p), more_desc_trace(cs, ex, q)),
        None => desc_line_trace(cs, ex, p),
    }
}

/// The text of the description line at `p`: after blanks, up to the line
/// break.
pub open spec fn desc_line_text(cs: Seq<char>, p: int) -> Seq<char> {
    let a = skip_blanks(cs, skip_blanks(cs, p));
    cs.subrange(a, line_end(cs, a))
}

/// The text of further description lines from `q`, each after a `\n`.
pub open spec fn more_desc_text(cs: Seq<char>, ex: Seq<Seq<char>>, q: int) -> Seq<char>
    decreases cs.len() - q,
{
    let q1 = skip_blanks(cs, q);
    match desc_line_at(cs, ex, q1) {
        Some(q2) => if q < q2 <= cs.len() {
            seq!['\n'] + desc_line_text(cs, q1) + more_desc_text(cs, ex, q2)
        } else {
            seq![]
        },
        None => seq![],
    }
}

/// The lines of the description at `p`, joined by `\n`.
pub open spec fn description_text(cs: Seq<char>, ex: Seq<Seq<char>>, p: int) -> Seq<char> {
    match desc_line_at(cs, ex, p) {
        Some(q) => desc_line_text(cs, p) + more_desc_text(cs, ex, q),
        None => seq![],
    }
}

/// The description at `p`: its text, or `None` when that is only whitespace.
pub open spec fn description_of(cs: Seq<char>, ex: Seq<Seq<char>>, p: int) -> Option<Seq<char>> {
    let t = description_text(cs, ex, p);
    if forall|k: int| 0 <= k < t.len() ==> is_ws(#[trigger] t[k]) {
        None
    } else {
        Some(t)
    }
}

/// The end of a description at `p`, with the blank space after it.
pub open spec fn description_end(cs: Seq<char>, ex: Seq<Seq<char>>, p: int) -> int {
    skip_space(
        cs,
        match desc_line_at(cs, ex, p) {
            Some(q) => more_desc(cs, ex, q),
            None => p,
        },
    )
}

/// The end of the tag characters from `q`.
pub open spec fn tag_chars_end(cs: Seq<char>, q: int) -> int
    decreases cs.len() - q,
{
    if 0 <= q < cs.len() && !is_ws(cs[q]) && cs[q] != '@' {
        tag_chars_end(cs, q + 1)
    } else {
        q
    }
}

/// A tag at `p`: `@` and one or more tag characters.
pub open spec fn tag_end(cs: Seq<char>, p: int) -> Option<int> {
    if 0 <= p < cs.len() && cs[p] == '@' && tag_chars_end(cs, p + 1) > p + 1 {
        Some(tag_chars_end(cs, p + 1))
    } else {
        None
    }
}

/// Further tags from `q`, each after blank space.
pub open spec fn more_tags(cs: Seq<char>, q: int) -> int
    decreases cs.len() - q,
{
    match tag_end(cs, skip_space(cs, q)) {
        Some(q2) => if q < q2 <= cs.len() {
            more_tags(cs, q2)
        } else {
            q
        },
        None => q,
    }
}

/// The name of the tag at `p`: what follows its `@`.
pub open spec fn tag_text(cs: Seq<char>, p: int) -> Seq<char> {
    cs.subrange(p + 1, tag_chars_end(cs, p + 1))
}

/// The names of further tags from `q`, each after blank space.
pub open spec fn more_tag_list(cs: Seq<char>, q: int) -> Seq<Seq<char>>
    decreases cs.len() - q,
{
    let q3 = skip_space(cs, q);
    match tag_end(cs, q3) {
        Some(q4) => if q < q4 <= cs.len() {
            seq![tag_text(cs, q3)] + more_tag_list(cs, q4)
        } else {
            seq![]
        },
        None => seq![],
    }
}

/// The names of the tags at `p`.
pub open spec fn tag_list(cs: Seq<char>, p: int) -> Seq<Seq<char>> {
    match tag_end(cs, p) {
        Some(q) => seq![tag_text(cs, p)] + more_tag_list(cs, q),
        None => seq![],
    }
}

/// The names of the tags of a block whose parse starts at `q`: after comment
/// lines and blanks.
pub open spec fn block_tags(cs: Seq<char>, q: int) -> Seq<Seq<char>> {
    tag_list(cs, skip_blanks(cs, skip_comments(cs, q)))
}

/// The names of the tags of a rule whose parse starts at `q`: after blanks.
pub open spec fn rule_tags(cs: Seq<char>, q: int) -> Seq<Seq<char>> {
    tag_list(cs, skip_blanks(cs, q))
}

/// The end of the tags at `p`, with the blanks and line breaks after them.
pub open spec fn tags_end(cs: Seq<char>, p: int) -> int {
    skip_newlines(
        cs,
        skip_blanks(
            cs,
            match tag_end(cs, p) {
                Some(q) => more_tags(cs, q),
                None => p,
            },
        ),
    )
}

/// Three `c` at `p`.
pub open spec fn fence(cs: Seq<char>, p: int, c: char) -> bool {
    0 <= p && p + 3 <= cs.len() && cs[p] == c && cs[p + 1] == c && cs[p + 2] == c
}

/// The position of the closing fence of `c` from `q` on.
pub open spec fn fence_close(cs: Seq<char>, c: char, q: int) -> Option<int>
    decreases cs.len() - q,
{
    if fence(cs, q, c) {
        Some(q)
    } else {
        match newline(cs, q) {
            Some(q2) => if q < q2 <= cs.len() {
                fence_close(cs, c, q2)
            } else {
                None
            },
            None => if 0 <= q < cs.len() {
                fence_close(cs, c, q + 1)
            } else {
                None
            },
        }
    }
}

/// A docstring at `p`: fenced by three `"` or three backticks, then the end
/// of the line.
pub open spec fn docstring_end(cs: Seq<char>, p: int) -> Option<int> {
    let c = if fence(cs, p, '"') {
        '"'
    } else {
        '`'
    };
    if fence(cs, p, c) {
        match fence_close(cs, c, p + 3) {
            Some(q) => line_done(cs, q + 3),
            None => None,
        }
    } else {
        None
    }
}

/// The text of a docstring at `p`: what stands between its fences, dedented
/// and without trailing whitespace.
pub open spec fn docstring_text(cs: Seq<char>, p: int) -> Option<Seq<char>> {
    let c = if fence(cs, p, '"') {
        '"'
    } else {
        '`'
    };
    if docstring_end(cs, p) is Some {
        Some(trim_end(dedent_of(cs.subrange(p + 3, fence_close(cs, c, p + 3).unwrap()))))
    } else {
        None
    }
}

/// What a rule leaves behind besides where it ends: the rows of the first
/// table it met whose rows differ in length, and the text at the last
/// keyword attempt that matched no keyword.
pub struct Trace {
    pub ragged: Option<Seq<Seq<Seq<char>>>>,
    pub soft: Option<Seq<char>>,
}

/// A trace of nothing.
pub open spec fn quiet() -> Trace {
    Trace { ragged: None, soft: None }
}

/// The trace of `a` followed by `b`: the first ragged table, the last failed
/// keyword attempt.
pub open spec fn chain(a: Trace, b: Trace) -> Trace {
    Trace {
        ragged: if a.ragged is Some {
            a.ragged
        } else {
            b.ragged
        },
        soft: if b.soft is Some {
            b.soft
        } else {
            a.soft
        },
    }
}

/// The table at `p`, if any: where what precedes the next item ends, and
/// whether its rows differ in length (the table then fails).
pub open spec fn table_end(cs: Seq<char>, p: int) -> (int, Trace) {
    match table_rows(cs, p) {
        Some((rows, q)) => if same_widths(rows) {
            (q, quiet())
        } else {
            (p, Trace { ragged: Some(rows), soft: None })
        },
        None => (p, quiet()),
    }
}

/// A header's rest after its keyword ends at `e`: `:`, an optional name, the
/// end of the line.
pub open spec fn header_end(cs: Seq<char>, e: int, blanks_after: bool) -> Option<int> {
    if 0 <= e < cs.len() && cs[e] == ':' {
        let b = line_end(cs, skip_blanks(cs, e + 1));
        line_done(
            cs,
            if blanks_after {
                skip_blanks(cs, b)
            } else {
                b
            },
        )
    } else {
        None
    }
}

/// A step whose keyword is a word of `ws`, at `p`: where it ends, and whether
/// a table with rows of unequal length was met.
pub open spec fn step_alt(cs: Seq<char>, ws: Seq<Seq<char>>, p: int) -> (Option<int>, Trace) {
    match keyword_at(cs, ws, p) {
        Some((_, e)) => {
            let v = skip_blanks(cs, e);
            let pb = line_end(cs, v);
            if pb > v {
                match line_done(cs, skip_blanks(cs, pb)) {
                    Some(q) => {
                        let q1 = skip_blanks(cs, q);
                        let q2 = match docstring_end(cs, q1) {
                            Some(d) => d,
                            None => q1,
                        };
                        (Some(table_end(cs, q2).0), table_end(cs, q2).1)
                    },
                    None => (None, quiet()),
                }
            } else {
                (None, quiet())
            }
        },
        None => (None, keyword_trace(cs, ws, p)),
    }
}

/// A step at `p` after `last`'s type: where it ends and its type, and whether
/// a table with rows of unequal length was met.
pub open spec fn step_at(cs: Seq<char>, kw: KeywordWords, p: int, last: Option<StepType>) -> (Option<(int, StepType)>, Trace) {
    let p0 = skip_comments(cs, p);
    let g = step_alt(cs, kw.given, p0);
    let w = step_alt(cs, kw.when, p0);
    let t = step_alt(cs, kw.then_, p0);
    let a = step_alt(cs, kw.and, p0);
    let b = step_alt(cs, kw.but, p0);
    let gw = chain(g.1, w.1);
    let gwt = chain(gw, t.1);
    let gwta = chain(gwt, a.1);
    if g.0 is Some {
        (Some((g.0.unwrap(), StepType::Given)), g.1)
    } else if w.0 is Some {
        (Some((w.0.unwrap(), StepType::When)), gw)
    } else if t.0 is Some {
        (Some((t.0.unwrap(), StepType::Then)), gwt)
    } else if last is Some && a.0 is Some {
        (Some((a.0.unwrap(), last.unwrap())), gwta)
    } else if last is Some && b.0 is Some {
        (Some((b.0.unwrap(), last.unwrap())), chain(gwta, b.1))
    } else if last is Some {
        (None, chain(gwta, b.1))
    } else {
        (None, gwt)
    }
}

/// Further steps from `q`, each after blanks, the one before of type `last`.
pub open spec fn more_steps(cs: Seq<char>, kw: KeywordWords, q: int, last: StepType) -> (int, Trace)
    decreases cs.len() - q,
{
    let s = step_at(cs, kw, skip_blanks(cs, q), Some(last));
    match s.0 {
        Some((q2, ty)) => if q < q2 <= cs.len() {
            (more_steps(cs, kw, q2, ty).0, chain(s.1, more_steps(cs, kw, q2, ty).1))
        } else {
            (q, s.1)
        },
        None => (q, s.1),
    }
}

/// Where a step at `p` starts: at its keyword, after comment lines.
pub open spec fn step_start(cs: Seq<char>, p: int) -> int {
    skip_comments(cs, skip_comments(cs, p))
}

/// Where each further step from `q` starts, and its type.
pub open spec fn more_step_marks(cs: Seq<char>, kw: KeywordWords, q: int, last: StepType) -> Seq<(int, StepType)>
    decreases cs.len() - q,
{
    let q2 = skip_blanks(cs, q);
    match step_at(cs, kw, q2, Some(last)).0 {
        Some((e, ty)) => if q < e <= cs.len() {
            seq![(step_start(cs, q2), ty)] + more_step_marks(cs, kw, e, ty)
        } else {
            seq![]
        },
        None => seq![],
    }
}

/// Where each of the steps at `p` starts, and its type.
pub open spec fn step_marks(cs: Seq<char>, kw: KeywordWords, p: int) -> Seq<(int, StepType)> {
    match step_at(cs, kw, p, None).0 {
        Some((e, ty)) => seq![(step_start(cs, p), ty)] + more_step_marks(cs, kw, e, ty),
        None => seq![],
    }
}

/// The end of the steps at `p`.
pub open spec fn steps_end(cs: Seq<char>, kw: KeywordWords, p: int) -> (int, Trace) {
    let s = step_at(cs, kw, p, None);
    match s.0 {
        Some((q, ty)) => (more_steps(cs, kw, q, ty).0, chain(s.1, more_steps(cs, kw, q, ty).1)),
        None => (p, s.1),
    }
}

/// The words that end a feature's description.
pub open spec fn ex_feature(kw: KeywordWords) -> Seq<Seq<char>> {
    kw.background + kw.rule + kw.scenario + kw.scenario_outline
}

/// The words that end a rule's description.
pub open spec fn ex_rule(kw: KeywordWords) -> Seq<Seq<char>> {
    kw.background + kw.scenario + kw.scenario_outline
}

/// The words that end a scenario's description: those of scenarios,
/// examples and steps.
pub open spec fn ex_scenario(kw: KeywordWords) -> Seq<Seq<char>> {
    kw.scenario + kw.scenario_outline + kw.examples + kw.given + kw.when + kw.then_ + kw.and
        + kw.but
}

/// The words that end a background's description: those of scenarios and
/// steps.
pub open spec fn ex_background(kw: KeywordWords) -> Seq<Seq<char>> {
    kw.scenario + kw.scenario_outline + kw.given + kw.when + kw.then_ + kw.and + kw.but
}

/// The words that end an examples block's description: those of a
/// background, and the `|` that opens a table row.
pub open spec fn ex_examples(kw: KeywordWords) -> Seq<Seq<char>> {
    ex_background(kw) + seq!["|"@]
}

/// A background at `p`: where it ends, and whether a table with rows of
/// unequal length was met.
pub open spec fn background_at(cs: Seq<char>, kw: KeywordWords, p: int) -> (Option<int>, Trace) {
    let pre = skip_blanks(cs, skip_comments(cs, p));
    match keyword_at(cs, kw.background, pre) {
        Some((_, e)) => match header_end(cs, e, false) {
            Some(q) => {
                let s = steps_end(cs, kw, description_end(cs, ex_background(kw), q));
                (Some(s.0), chain(description_trace(cs, ex_background(kw), q), s.1))
            },
            None => (None, quiet()),
        },
        None => (None, keyword_trace(cs, kw.background, pre)),
    }
}

/// An examples block at `p`.
pub open spec fn examples_at(cs: Seq<char>, kw: KeywordWords, p: int) -> (Option<int>, Trace) {
    let q = skip_blanks(cs, tags_end(cs, skip_blanks(cs, skip_comments(cs, p))));
    match keyword_at(cs, kw.examples, q) {
        Some((_, e)) => match header_end(cs, e, false) {
            Some(q2) => {
                let t = table_end(cs, description_end(cs, ex_examples(kw), q2));
                (Some(t.0), chain(description_trace(cs, ex_examples(kw), q2), t.1))
            },
            None => (None, quiet()),
        },
        None => (None, keyword_trace(cs, kw.examples, q)),
    }
}

/// Further examples blocks from `q`.
pub open spec fn more_examples(cs: Seq<char>, kw: KeywordWords, q: int) -> (int, Trace)
    decreases cs.len() - q,
{
    let x = examples_at(cs, kw, q);
    match x.0 {
        Some(q2) => if q < q2 <= cs.len() {
            (more_examples(cs, kw, q2).0, chain(x.1, more_examples(cs, kw, q2).1))
        } else {
            (q, x.1)
        },
        None => (q, x.1),
    }
}

/// Where the keyword of a block at `q` (an examples block or a scenario) is
/// looked for: after comment lines, blanks, tags and blanks.
pub open spec fn block_pre(cs: Seq<char>, q: int) -> int {
    skip_blanks(cs, tags_end(cs, skip_blanks(cs, skip_comments(cs, q))))
}

/// The keyword list of the scenario at `q`: the scenario words when the
/// scenario alternative matches there, else the scenario outline words.
pub open spec fn scenario_words(cs: Seq<char>, kw: KeywordWords, q: int) -> Seq<Seq<char>> {
    if scenario_alt(cs, kw, kw.scenario, q).0 is Some {
        kw.scenario
    } else {
        kw.scenario_outline
    }
}

/// Where the parse of each examples block from `q` starts.
pub open spec fn examples_marks(cs: Seq<char>, kw: KeywordWords, q: int) -> Seq<int>
    decreases cs.len() - q,
{
    match examples_at(cs, kw, q).0 {
        Some(q2) => if q < q2 <= cs.len() {
            seq![q] + examples_marks(cs, kw, q2)
        } else {
            seq![]
        },
        None => seq![],
    }
}

/// A scenario whose keyword is a word of `ws`, at `p`.
pub open spec fn scenario_alt(cs: Seq<char>, kw: KeywordWords, ws: Seq<Seq<char>>, p: int) -> (Option<int>, Trace) {
    let q = skip_blanks(cs, tags_end(cs, skip_blanks(cs, skip_comments(cs, p))));
    match keyword_at(cs, ws, q) {
        Some((_, e)) => match header_end(cs, e, true) {
            Some(q2) => {
                let s = steps_end(cs, kw, description_end(cs, ex_scenario(kw), q2));
                let x = more_examples(cs, kw, s.0);
                (Some(x.0), chain(description_trace(cs, ex_scenario(kw), q2), chain(s.1, x.1)))
            },
            None => (None, quiet()),
        },
        None => (None, keyword_trace(cs, ws, q)),
    }
}

/// A scenario, or else a scenario outline, at `p`.
pub open spec fn scenario_at(cs: Seq<char>, kw: KeywordWords, p: int) -> (Option<int>, Trace) {
    let first = scenario_alt(cs, kw, kw.scenario, p);
    let second = scenario_alt(cs, kw, kw.scenario_outline, p);
    if first.0 is Some {
        first
    } else {
        (second.0, chain(first.1, second.1))
    }
}

/// Further scenarios from `q`, each after blanks.
pub open spec fn more_scenarios(cs: Seq<char>, kw: KeywordWords, q: int) -> (int, Trace)
    decreases cs.len() - q,
{
    let x = scenario_at(cs, kw, skip_blanks(cs, q));
    match x.0 {
        Some(q2) => if q < q2 <= cs.len() {
            (more_scenarios(cs, kw, q2).0, chain(x.1, more_scenarios(cs, kw, q2).1))
        } else {
            (q, x.1)
        },
        None => (q, x.1),
    }
}

/// Where the parse of each further scenario from `q` starts.
pub open spec fn more_scenario_marks(cs: Seq<char>, kw: KeywordWords, q: int) -> Seq<int>
    decreases cs.len() - q,
{
    let q2 = skip_blanks(cs, q);
    match scenario_at(cs, kw, q2).0 {
        Some(e) => if q < e <= cs.len() {
            seq![q2] + more_scenario_marks(cs, kw, e)
        } else {
            seq![]
        },
        None => seq![],
    }
}

/// Where the parse of each of the scenarios at `p` (after blanks) starts.
pub open spec fn scenario_marks(cs: Seq<char>, kw: KeywordWords, p: int) -> Seq<int> {
    let q = skip_blanks(cs, p);
    match scenario_at(cs, kw, q).0 {
        Some(e) => seq![q] + more_scenario_marks(cs, kw, e),
        None => seq![],
    }
}

/// The end of the scenarios at `p` (after blanks).
pub open spec fn scenarios_end(cs: Seq<char>, kw: KeywordWords, p: int) -> (int, Trace) {
    let q = skip_blanks(cs, p);
    let x = scenario_at(cs, kw, q);
    match x.0 {
        Some(q2) => (more_scenarios(cs, kw, q2).0, chain(x.1, more_scenarios(cs, kw, q2).1)),
        None => (q, x.1),
    }
}

/// A rule at `p`.
pub open spec fn rule_at(cs: Seq<char>, kw: KeywordWords, p: int) -> (Option<int>, Trace) {
    let q = skip_blanks(cs, tags_end(cs, skip_blanks(cs, p)));
    match keyword_at(cs, kw.rule, q) {
        Some((_, e)) => match header_end(cs, e, true) {
            Some(q2) => {
                let d = description_end(cs, ex_rule(kw), q2);
                let b = background_at(cs, kw, d);
                let after_b = match b.0 {
                    Some(x) => x,
                    None => d,
                };
                let s = scenarios_end(cs, kw, skip_newlines(cs, after_b));
                (Some(skip_newlines(cs, s.0)), chain(description_trace(cs, ex_rule(kw), q2), chain(b.1, s.1)))
            },
            None => (None, quiet()),
        },
        None => (None, keyword_trace(cs, kw.rule, q)),
    }
}

/// Where the keyword of a rule at `q` is looked for: after blanks, tags and
/// blanks.
pub open spec fn rule_pre(cs: Seq<char>, q: int) -> int {
    skip_blanks(cs, tags_end(cs, skip_blanks(cs, q)))
}

/// Where the parse of each further rule from `q` starts.
pub open spec fn more_rule_marks(cs: Seq<char>, kw: KeywordWords, q: int) -> Seq<int>
    decreases cs.len() - q,
{
    let q2 = skip_blanks(cs, q);
    match rule_at(cs, kw, q2).0 {
        Some(e) => if q < e <= cs.len() {
            seq![q2] + more_rule_marks(cs, kw, e)
        } else {
            seq![]
        },
        None => seq![],
    }
}

/// Where the parse of each of the rules at `p` (after blanks) starts.
pub open spec fn rule_marks(cs: Seq<char>, kw: KeywordWords, p: int) -> Seq<int> {
    let q = skip_blanks(cs, p);
    match rule_at(cs, kw, q).0 {
        Some(e) => seq![q] + more_rule_marks(cs, kw, e),
        None => seq![],
    }
}

/// Further rules from `q`, each after blanks.
pub open spec fn more_rules(cs: Seq<char>, kw: KeywordWords, q: int) -> (int, Trace)
    decreases cs.len() - q,
{
    let x = rule_at(cs, kw, skip_blanks(cs, q));
    match x.0 {
        Some(q2) => if q < q2 <= cs.len() {
            (more_rules(cs, kw, q2).0, chain(x.1, more_rules(cs, kw, q2).1))
        } else {
            (q, x.1)
        },
        None => (q, x.1),
    }
}

/// The end of the rules at `p` (after blanks).
pub open spec fn rules_end(cs: Seq<char>, kw: KeywordWords, p: int) -> (int, Trace) {
    let q = skip_blanks(cs, p);
    let x = rule_at(cs, kw, q);
    match x.0 {
        Some(q2) => (more_rules(cs, kw, q2).0, chain(x.1, more_rules(cs, kw, q2).1)),
        None => (q, x.1),
    }
}

/// A feature at `p` (after the language directive): where it ends, and
/// whether a table with rows of unequal length was met.
pub open spec fn feature_at(cs: Seq<char>, kw: KeywordWords, p: int) -> (Option<int>, Trace) {
    let q = tags_end(cs, skip_newlines(cs, p));
    match keyword_at(cs, kw.feature, q) {
        Some((_, e)) => match header_end(cs, e, true) {
            Some(q2) => {
                let d = description_end(cs, ex_feature(kw), q2);
                let b = background_at(cs, kw, d);
                let after_b = match b.0 {
                    Some(x) => x,
                    None => d,
                };
                let s = scenarios_end(cs, kw, skip_newlines(cs, after_b));
                let r = rules_end(cs, kw, skip_newlines(cs, s.0));
                (
                    Some(skip_newlines(cs, r.0)),
                    chain(description_trace(cs, ex_feature(kw), q2), chain(chain(b.1, s.1), r.1)),
                )
            },
            None => (None, quiet()),
        },
        None => (None, keyword_trace(cs, kw.feature, q)),
    }
}

/// A `# language:` directive at the start of `cs`: after blanks and blank
/// lines, `#`, `language`, `:` (blanks allowed between them), then the rest of
/// the line, which must end in a line break. Gives the language named and the
/// position after the line.
pub open spec fn directive(cs: Seq<char>) -> Option<(Seq<char>, int)> {
    let b = skip_blank_lines(cs, skip_blanks(cs, 0));
    if b < cs.len() && cs[b] == '#' {
        let c = skip_blanks(cs, b + 1);
        if starts_with_at(cs, c, "language"@) {
            let d = skip_blanks(cs, c + "language"@.len());
            if d < cs.len() && cs[d] == ':' {
                let e = skip_blanks(cs, d + 1);
                let f = line_end(cs, e);
                if f > e && line_break(cs, f) is Some {
                    Some((cs.subrange(e, f), line_break(cs, f).unwrap()))
                } else {
                    None
                }
            } else {
                None
            }
        } else {
            None
        }
    } else {
        None
    }
}

/// The language that a directive at the start of `cs` names.
pub open spec fn directive_language(cs: Seq<char>) -> Option<Seq<char>> {
    match directive(cs) {
        Some((l, _)) => Some(l),
        None => None,
    }
}

/// Where the feature of `cs` starts: after a directive that names a language
/// with keywords, else after the first blanks.
pub open spec fn body_start(cs: Seq<char>) -> int {
    match directive(cs) {
        Some((l, q)) => if supported_language(l) {
            q
        } else {
            skip_blanks(cs, 0)
        },
        None => skip_blanks(cs, 0),
    }
}

/// Document `cs` is a feature under keywords `kw`: the feature from
/// `body_start` reaches the end, and no table on the way has rows of unequal
/// length.
pub open spec fn accepts(cs: Seq<char>, kw: KeywordWords) -> bool {
    let f = feature_at(cs, kw, body_start(cs));
    f.0 == Some(cs.len() as int) && f.1.ragged is None
}

/// The keyword table in force for document `cs`: that of the language its
/// directive names, if it names one that has a table, else `default`.
pub open spec fn active_words(default: KeywordWords, cs: Seq<char>) -> KeywordWords {
    match directive_language(cs) {
        Some(l) => match language_words(l) {
            Some(w) => w,
            None => default,
        },
        None => default,
    }
}

/// The language a directive in `cs` names, where it has no keywords.
pub open spec fn unsupported_directive(cs: Seq<char>) -> Option<Seq<char>> {
    match directive_language(cs) {
        Some(l) => if supported_language(l) {
            None
        } else {
            Some(l)
        },
        None => None,
    }
}

/// The document that is parsed for input `s`: `s` with a final line break.
pub open spec fn document(s: Seq<char>) -> Seq<char> {
    if s.len() > 0 && s.last() == '\n' {
        s
    } else {
        s.push('\n')
    }
}

} // verus!
