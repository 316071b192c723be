//! The document grammar: an ordered-choice recursive-descent parser over the
//! characters of a document. Each rule takes a character position and, on
//! success, returns what it built and the position after it.

use vstd::prelude::*;
use crate::keywords::{KeywordWords, Keywords, words};
use crate::parser::{EnvError, GherkinEnv, soft_text, best_match, char_words, prefix_at, starts_with_at};
use crate::source::{MAX_CHARS, Source, line_col_at};
use crate::syntax::{
    keyword_trace, desc_line_trace, more_desc_trace, description_trace, quiet,
    Trace, chain,
    accepts, active_words, background_at, block_pre, block_tags, body_start, cell_at, cell_end,
    cells_view, comment_line, comment_text, desc_line_at, desc_line_text, description_end,
    description_of, description_text, directive, docstring_end, docstring_text, document,
    ex_background, ex_examples, ex_feature, ex_rule, ex_scenario, examples_at, examples_marks,
    feature_at, fence, fence_close, header_end, is_blank, keyword_at, line_break, line_done,
    line_end, more_cells, more_desc, more_desc_text, more_examples, more_rows, more_rule_marks,
    more_rules, more_scenario_marks, more_scenarios, more_step_marks, more_steps, more_tag_list,
    more_tags, newline, row_at, rows_view, rule_at, rule_marks, rules_end, same_widths,
    scenario_alt, scenario_at, scenario_marks, scenarios_end, skip_blank_lines, skip_blanks,
    skip_breaks, skip_comments, skip_newlines, skip_space, step_alt, step_at, step_marks,
    step_start, steps_end, table_end, table_rows, tag_chars_end, tag_end, tag_list, tag_text,
    tags_end, trim_end, trim_start, unsupported_directive,
};
use crate::text::{chars_of, is_whitespace, is_ws, string_of};
use crate::{
    Background, Examples, Feature, Rule, Scenario, Step, StepType, Table, background_ok, examples_ok,
    rectangular, rule_ok, scenario_ok, scenarios_ok, step_ok, steps_ok, step_kind_ok, table_ok,
};

verus! {

fn blank(c: char) -> (r: bool)
    ensures
        r == is_blank(c),
{
    c == ' ' || c == '\t'
}

/// `_`: the blanks at `p`.
pub(crate) fn sp(cs: &Vec<char>, p: usize) -> (q: usize)
    requires
        p <= cs@.len(),
    ensures
        q == skip_blanks(cs@, p as int),
        p <= q <= cs@.len(),
{
    let mut q = p;
    while q < cs.len() && blank(cs[q])
        invariant
            p <= q <= cs@.len(),
            skip_blanks(cs@, p as int) == skip_blanks(cs@, q as int),
        decreases cs@.len() - q,
    {
        q += 1;
    }
    q
}

/// A bare line break.
fn nl0(cs: &Vec<char>, p: usize) -> (r: Option<usize>)
    requires
        p <= cs@.len(),
    ensures
        r matches Some(q) ==> line_break(cs@, p as int) == Some(q as int) && p < q <= cs@.len(),
        r is None ==> line_break(cs@, p as int) is None,
{
    if p < cs.len() && cs[p] == '\n' {
        Some(p + 1)
    } else if p < cs.len() && cs[p] == '\r' && p + 1 < cs.len() && cs[p + 1] == '\n' {
        Some(p + 2)
    } else {
        None
    }
}

/// The rest of the line from `p`, up to its line break.
fn to_line_end(cs: &Vec<char>, p: usize) -> (q: usize)
    requires
        p <= cs@.len(),
    ensures
        q == line_end(cs@, p as int),
        p <= q <= cs@.len(),
{
    let mut q = p;
    while q < cs.len() && nl0(cs, q).is_none()
        invariant
            p <= q <= cs@.len(),
            line_end(cs@, p as int) == line_end(cs@, q as int),
        decreases cs@.len() - q,
    {
        q += 1;
    }
    q
}

/// A comment up to (not including) its line break: blanks, `#`, text.
fn comment_no_nl(cs: &Vec<char>, p: usize) -> (r: Option<usize>)
    requires
        p <= cs@.len(),
    ensures
        r matches Some(q) ==> p < q <= cs@.len() && comment_text(cs@, p as int) == Some(q as int),
        r is None ==> comment_text(cs@, p as int) is None,
{
    let q = sp(cs, p);
    if q < cs.len() && cs[q] == '#' {
        Some(to_line_end(cs, q + 1))
    } else {
        None
    }
}

/// A line break, after an optional comment.
fn nl(cs: &Vec<char>, p: usize) -> (r: Option<usize>)
    requires
        p <= cs@.len(),
    ensures
        r matches Some(q) ==> p < q <= cs@.len() && newline(cs@, p as int) == Some(q as int),
        r is None ==> newline(cs@, p as int) is None,
{
    let q = match comment_no_nl(cs, p) {
        Some(q) => q,
        None => p,
    };
    nl0(cs, q)
}

/// One or more line breaks or blanks, or the end of the input.
fn nl_eof(cs: &Vec<char>, p: usize) -> (r: Option<usize>)
    requires
        p <= cs@.len(),
    ensures
        r matches Some(q) ==> p <= q <= cs@.len() && line_done(cs@, p as int) == Some(q as int),
        r is None ==> line_done(cs@, p as int) is None,
{
    let mut q = p;
    while nl(cs, q).is_some() || (q < cs.len() && blank(cs[q]))
        invariant
            p <= q <= cs@.len(),
            skip_breaks(cs@, p as int) == skip_breaks(cs@, q as int),
        decreases cs@.len() - q,
    {
        match nl(cs, q) {
            Some(q2) => q = q2,
            None => q += 1,
        }
    }
    if q > p || p == cs.len() {
        Some(q)
    } else {
        None
    }
}

/// Line breaks, each after an optional comment.
fn nls(cs: &Vec<char>, p: usize) -> (q: usize)
    requires
        p <= cs@.len(),
    ensures
        p <= q <= cs@.len(),
        q == skip_newlines(cs@, p as int),
{
    let mut q = p;
    while nl(cs, q).is_some()
        invariant
            p <= q <= cs@.len(),
            skip_newlines(cs@, p as int) == skip_newlines(cs@, q as int),
        decreases cs@.len() - q,
    {
        match nl(cs, q) {
            Some(q2) => q = q2,
            None => {},
        }
    }
    q
}

/// `__`: blanks and line breaks (with their comments).
fn ws(cs: &Vec<char>, p: usize) -> (q: usize)
    requires
        p <= cs@.len(),
    ensures
        p <= q <= cs@.len(),
        q == skip_space(cs@, p as int),
{
    let mut q = p;
    while (q < cs.len() && blank(cs[q])) || nl(cs, q).is_some()
        invariant
            p <= q <= cs@.len(),
            skip_space(cs@, p as int) == skip_space(cs@, q as int),
        decreases cs@.len() - q,
    {
        if q < cs.len() && blank(cs[q]) {
            q += 1;
        } else {
            match nl(cs, q) {
                Some(q2) => q = q2,
                None => {},
            }
        }
    }
    q
}

/// A whole comment line, with the line breaks and blanks after it.
fn comment(cs: &Vec<char>, p: usize) -> (r: Option<usize>)
    requires
        p <= cs@.len(),
    ensures
        r matches Some(q) ==> p < q <= cs@.len() && comment_line(cs@, p as int) == Some(q as int),
        r is None ==> comment_line(cs@, p as int) is None,
{
    match comment_no_nl(cs, p) {
        Some(q) => nl_eof(cs, q),
        None => None,
    }
}

/// Any number of comment lines.
fn comments(cs: &Vec<char>, p: usize) -> (q: usize)
    requires
        p <= cs@.len(),
    ensures
        p <= q <= cs@.len(),
        q == skip_comments(cs@, p as int),
{
    let mut q = p;
    while comment(cs, q).is_some()
        invariant
            p <= q <= cs@.len(),
            skip_comments(cs@, p as int) == skip_comments(cs@, q as int),
        decreases cs@.len() - q,
    {
        match comment(cs, q) {
            Some(q2) => q = q2,
            None => {},
        }
    }
    q
}

/// One or more characters up to the line break.
fn not_nl(cs: &Vec<char>, p: usize) -> (r: Option<usize>)
    requires
        p <= cs@.len(),
    ensures
        r matches Some(q) ==> p < q <= cs@.len() && q == line_end(cs@, p as int),
        r is None ==> line_end(cs@, p as int) == p,
{
    let q = to_line_end(cs, p);
    if q > p {
        Some(q)
    } else {
        None
    }
}

/// The end of `cs[a..b]` once trailing whitespace is removed.
fn trim_end_at(cs: &Vec<char>, a: usize, b: usize) -> (r: usize)
    requires
        a <= b <= cs@.len(),
    ensures
        a <= r <= b,
        forall|k: int| r <= k < b ==> is_ws(#[trigger] cs@[k]),
        r > a ==> !is_ws(cs@[r - 1]),
{
    let mut r = b;
    while r > a && is_whitespace(cs[r - 1])
        invariant
            a <= r <= b <= cs@.len(),
            forall|k: int| r <= k < b ==> is_ws(#[trigger] cs@[k]),
        decreases r,
    {
        r -= 1;
    }
    r
}

/// The start of `cs[a..b]` once leading whitespace is removed.
fn trim_start_at(cs: &Vec<char>, a: usize, b: usize) -> (r: usize)
    requires
        a <= b <= cs@.len(),
    ensures
        a <= r <= b,
        forall|k: int| a <= k < r ==> is_ws(#[trigger] cs@[k]),
        r < b ==> !is_ws(cs@[r as int]),
{
    let mut r = a;
    while r < b && is_whitespace(cs[r])
        invariant
            a <= r <= b <= cs@.len(),
            forall|k: int| a <= k < r ==> is_ws(#[trigger] cs@[k]),
        decreases b - r,
    {
        r += 1;
    }
    r
}

/// What `textwrap::dedent` returns for a text.
pub uninterp spec fn dedent_of(s: Seq<char>) -> Seq<char>;

/// Relies on `textwrap::dedent`: removes the longest whitespace prefix common
/// to the non-blank lines. Its result depends on the text alone, and the empty
/// text stays empty.
#[verifier::external_body]
fn dedent(s: &str) -> (r: String)
    ensures
        r@ == dedent_of(s@),
        s@.len() == 0 ==> r@.len() == 0,
{
    textwrap::dedent(s)
}

/// The keyword lists of the active language, as characters, with the lists
/// that end each kind of description.
pub struct Lexicon {
    pub feature: Vec<Vec<char>>,
    pub background: Vec<Vec<char>>,
    pub rule: Vec<Vec<char>>,
    pub scenario: Vec<Vec<char>>,
    pub scenario_outline: Vec<Vec<char>>,
    pub examples: Vec<Vec<char>>,
    pub given: Vec<Vec<char>>,
    pub when: Vec<Vec<char>>,
    pub then_: Vec<Vec<char>>,
    pub and: Vec<Vec<char>>,
    pub but: Vec<Vec<char>>,
    pub ex_feature: Vec<Vec<char>>,
    pub ex_rule: Vec<Vec<char>>,
    pub ex_background: Vec<Vec<char>>,
    pub ex_scenario: Vec<Vec<char>>,
    pub ex_examples: Vec<Vec<char>>,
}

fn char_lists(v: &Vec<&'static str>) -> (r: Vec<Vec<char>>)
    ensures
        char_words(r@) == words(v@),
{
    let mut r: Vec<Vec<char>> = Vec::new();
    let mut i: usize = 0;
    while i < v.len()
        invariant
            i <= v@.len(),
            r@.len() == i,
            forall|k: int| 0 <= k < i ==> #[trigger] r@[k]@ == v@[k]@,
        decreases v@.len() - i,
    {
        r.push(chars_of(v[i]));
        i += 1;
    }
    assert(char_words(r@) =~= words(v@));
    r
}

impl Lexicon {
    /// The lists are those of `kw`.
    pub open spec fn of(&self, kw: Keywords) -> bool {
        let w = kw.words();
        &&& char_words(self.feature@) == w.feature
        &&& char_words(self.background@) == w.background
        &&& char_words(self.rule@) == w.rule
        &&& char_words(self.scenario@) == w.scenario
        &&& char_words(self.scenario_outline@) == w.scenario_outline
        &&& char_words(self.examples@) == w.examples
        &&& char_words(self.given@) == w.given
        &&& char_words(self.when@) == w.when
        &&& char_words(self.then_@) == w.then_
        &&& char_words(self.and@) == w.and
        &&& char_words(self.but@) == w.but
        &&& char_words(self.ex_feature@) == ex_feature(w)
        &&& char_words(self.ex_rule@) == ex_rule(w)
        &&& char_words(self.ex_background@) == ex_background(w)
        &&& char_words(self.ex_scenario@) == ex_scenario(w)
        &&& char_words(self.ex_examples@) == ex_examples(w)
    }

    pub fn new(kw: &Keywords) -> (r: Lexicon)
        ensures
            r.of(*kw),
    {
        proof {
            let w = kw.words();
            assert(words(kw.background@ + kw.rule@ + kw.scenario@ + kw.scenario_outline@)
                =~= ex_feature(w));
            assert(words(kw.background@ + kw.scenario@ + kw.scenario_outline@) =~= ex_rule(w));
            assert(words(kw.scenario@ + kw.scenario_outline@ + kw.given@ + kw.when@ + kw.then_@
                + kw.and@ + kw.but@) =~= ex_background(w));
            assert(words(kw.scenario@ + kw.scenario_outline@ + kw.examples@ + kw.given@ + kw.when@
                + kw.then_@ + kw.and@ + kw.but@) =~= ex_scenario(w));
            assert(words(kw.scenario@ + kw.scenario_outline@ + kw.given@ + kw.when@ + kw.then_@
                + kw.and@ + kw.but@ + seq!["|"]) =~= ex_examples(w));
        }
        Lexicon {
            feature: char_lists(&kw.feature),
            background: char_lists(&kw.background),
            rule: char_lists(&kw.rule),
            scenario: char_lists(&kw.scenario),
            scenario_outline: char_lists(&kw.scenario_outline),
            examples: char_lists(&kw.examples),
            given: char_lists(&kw.given),
            when: char_lists(&kw.when),
            then_: char_lists(&kw.then_),
            and: char_lists(&kw.and),
            but: char_lists(&kw.but),
            ex_feature: char_lists(&kw.excluded_feature()),
            ex_rule: char_lists(&kw.excluded_rule()),
            ex_background: char_lists(&kw.excluded_background()),
            ex_scenario: char_lists(&kw.excluded_scenario()),
            ex_examples: char_lists(&kw.excluded_examples()),
        }
    }
}

/// A keyword of `list`, after any comment lines: the keyword, where it starts
/// and where it ends.
fn keyword(src: &Source, env: &mut GherkinEnv, list: &Vec<Vec<char>>, p: usize, what: &'static str) -> (r:
    Option<(String, usize, usize)>)
    requires
        p <= src.cs@.len(),
    ensures
        final(env).keeps(*old(env)),
        env_after(*old(env), *final(env), keyword_trace(src.cs@, char_words(list@), p as int)),
        final(env).fatal() == old(env).fatal(),
        r matches Some((k, a, b)) ==> char_words(list@).contains(k@) && p <= a <= b
            <= src.cs@.len() && keyword_at(src.cs@, char_words(list@), p as int) == Some(
            (a as int, b as int),
        ) && starts_with_at(src.cs@, a as int, k@) && b == a + k@.len(),
        r is None ==> keyword_at(src.cs@, char_words(list@), p as int) is None,
{
    let q = comments(&src.cs, p);
    match env.match_keyword(src, q, list) {
        Some(i) => {
            let k = env.take_keyword();
            let _n = src.cs.len();
            assert(char_words(list@)[i as int] == k@);
            proof {
                let ws = char_words(list@);
                let j = choose|j: int| #[trigger] best_match(src.cs@, q as int, ws, j);
                lemma_best_match_len(src.cs@, q as int, ws, i as int, j);
            }
            Some((k, q, q + list[i].len()))
        },
        None => {
            proof {
                let ws = char_words(list@);
                assert forall|j: int| !#[trigger] best_match(src.cs@, q as int, ws, j) by {
                    if 0 <= j < ws.len() {
                        assert(!starts_with_at(src.cs@, q as int, ws[j]));
                    }
                };
            }
            env.expect(q, what);
            None
        },
    }
}

proof fn lemma_best_match_len(cs: Seq<char>, q: int, ws: Seq<Seq<char>>, i: int, j: int)
    requires
        best_match(cs, q, ws, i),
        best_match(cs, q, ws, j),
    ensures
        ws[i].len() == ws[j].len(),
{
    assert(starts_with_at(cs, q, ws[j]));
    assert(starts_with_at(cs, q, ws[i]));
}

/// Whether a keyword of `list` comes next, after any comment lines.
fn keyword_ahead(src: &Source, env: &mut GherkinEnv, list: &Vec<Vec<char>>, p: usize) -> (r: bool)
    requires
        p <= src.cs@.len(),
    ensures
        final(env).keeps(*old(env)),
        env_after(*old(env), *final(env), keyword_trace(src.cs@, char_words(list@), p as int)),
        final(env).fatal() == old(env).fatal(),
        r == keyword_at(src.cs@, char_words(list@), p as int) is Some,
{
    let q = comments(&src.cs, p);
    match env.match_keyword(src, q, list) {
        Some(_) => {
            let _ = env.take_keyword();
            true
        },
        None => {
            proof {
                let ws = char_words(list@);
                assert forall|j: int| !#[trigger] best_match(src.cs@, q as int, ws, j) by {
                    if 0 <= j < ws.len() {
                        assert(!starts_with_at(src.cs@, q as int, ws[j]));
                    }
                };
            }
            false
        },
    }
}

/// Whether `cs[p]` is `c`.
fn char_at(cs: &Vec<char>, p: usize, c: char) -> (r: bool)
    ensures
        r == (p < cs@.len() && cs@[p as int] == c),
{
    p < cs.len() && cs[p] == c
}

/// One description line: not a tag line and not opened by a keyword of
/// `excluded`. Gives the text's start and end and the position after it.
fn description_line(src: &Source, env: &mut GherkinEnv, excluded: &Vec<Vec<char>>, p: usize) -> (r:
    Option<(usize, usize, usize)>)
    requires
        p <= src.cs@.len(),
    ensures
        final(env).keeps(*old(env)),
        env_after(*old(env), *final(env), desc_line_trace(src.cs@, char_words(excluded@), p as int)),
        final(env).fatal() == old(env).fatal(),
        r matches Some((a, b, q)) ==> p <= a < b <= q <= src.cs@.len() && desc_line_at(
            src.cs@,
            char_words(excluded@),
            p as int,
        ) == Some(q as int) && src.cs@.subrange(a as int, b as int) == desc_line_text(
            src.cs@,
            p as int,
        ),
        r is None ==> desc_line_at(src.cs@, char_words(excluded@), p as int) is None,
{
    let cs = &src.cs;
    let q = sp(cs, p);
    if char_at(cs, q, '@') || keyword_ahead(src, env, excluded, q) {
        return None;
    }
    let a = sp(cs, q);
    match not_nl(cs, a) {
        Some(b) => match nl_eof(cs, b) {
            Some(e) => Some((a, b, e)),
            None => None,
        },
        None => None,
    }
}

/// Appends `cs[a..b]` to `buf`.
fn append_chars(buf: &mut Vec<char>, cs: &Vec<char>, a: usize, b: usize)
    requires
        a <= b <= cs@.len(),
    ensures
        final(buf)@ == old(buf)@ + cs@.subrange(a as int, b as int),
{
    let mut i = a;
    while i < b
        invariant
            a <= i <= b <= cs@.len(),
            buf@ == old(buf)@ + cs@.subrange(a as int, i as int),
        decreases b - i,
    {
        buf.push(cs[i]);
        assert(cs@.subrange(a as int, i + 1) == cs@.subrange(a as int, i as int).push(cs@[i as int]));
        i += 1;
    }
}

/// Whether `cs` holds only whitespace.
fn all_whitespace(cs: &Vec<char>) -> (r: bool)
    ensures
        r == forall|k: int| 0 <= k < cs@.len() ==> is_ws(#[trigger] cs@[k]),
{
    trim_start_at(cs, 0, cs.len()) == cs.len()
}

/// A description: its lines joined by `\n`, or `None` when that holds only
/// whitespace.
#[verifier::rlimit(100)]
fn description(src: &Source, env: &mut GherkinEnv, excluded: &Vec<Vec<char>>, p: usize) -> (r: (
    Option<String>,
    usize,
))
    requires
        p <= src.cs@.len(),
    ensures
        final(env).keeps(*old(env)),
        env_after(*old(env), *final(env), description_trace(src.cs@, char_words(excluded@), p as int)),
        final(env).fatal() == old(env).fatal(),
        p <= r.1 <= src.cs@.len(),
        r.1 == description_end(src.cs@, char_words(excluded@), p as int),
        crate::opt_view(r.0) == description_of(src.cs@, char_words(excluded@), p as int),
{
    let cs = &src.cs;
    let ghost ex = char_words(excluded@);
    let ghost env0 = *env;
    let mut buf: Vec<char> = Vec::new();
    let mut q = p;
    match description_line(src, env, excluded, q) {
        Some((a, b, q2)) => {
            append_chars(&mut buf, cs, a, b);
            q = q2;
            assert(buf@ == desc_line_text(cs@, p as int));
            let ghost mut acc = desc_line_trace(cs@, ex, p as int);
            loop
                invariant_except_break
                    env0 == *old(env),
                    description_trace(cs@, ex, p as int) == chain(acc, more_desc_trace(cs@, ex, q as int)),
                    env_after(env0, *env, acc),
                    p < q2 <= q <= cs@.len(),
                    description_text(cs@, ex, p as int) == buf@ + more_desc_text(cs@, ex, q as int),
                    cs@ == src.cs@,
                    env.keeps(*old(env)),
                    env.fatal() == old(env).fatal(),
                    ex == char_words(excluded@),
                    more_desc(cs@, ex, q2 as int) == more_desc(cs@, ex, q as int),
                ensures
                    p <= q <= cs@.len(),
                    env.keeps(*old(env)),
                    env.fatal() == old(env).fatal(),
                    more_desc(cs@, ex, q2 as int) == q,
                    description_text(cs@, ex, p as int) == buf@,
                    env_after(env0, *env, description_trace(cs@, ex, p as int)),
                decreases cs@.len() - q,
            {
                let q3 = sp(cs, q);
                let ghost e1 = *env;
                let ghost t = desc_line_trace(cs@, ex, q3 as int);
                match description_line(src, env, excluded, q3) {
                    Some((a, b, q4)) => {
                        proof {
                            lemma_env_after_chain(env0, e1, *env, acc, t);
                            lemma_chain_assoc(acc, t, more_desc_trace(cs@, ex, q4 as int));
                            acc = chain(acc, t);
                        }
                        let ghost before = buf@;
                        buf.push('\n');
                        append_chars(&mut buf, cs, a, b);
                        assert(buf@ + more_desc_text(cs@, ex, q4 as int) =~= before + more_desc_text(
                            cs@,
                            ex,
                            q as int,
                        ));
                        q = q4;
                    },
                    None => {
                        assert(buf@ + more_desc_text(cs@, ex, q as int) =~= buf@);
                        proof {
                            lemma_env_after_chain(env0, e1, *env, acc, t);
                        }
                        break;
                    },
                }
            }
        },
        None => {
            assert(buf@ =~= description_text(cs@, ex, p as int));
        },
    }
    let q = ws(cs, q);
    if all_whitespace(&buf) {
        (None, q)
    } else {
        (Some(string_of(&buf, 0, buf.len())), q)
    }
}

/// A tag: `@` and one or more characters that are neither whitespace nor `@`.
fn tag(cs: &Vec<char>, p: usize) -> (r: Option<(String, usize)>)
    requires
        p <= cs@.len(),
    ensures
        r matches Some((t, q)) ==> p < q <= cs@.len() && tag_end(cs@, p as int) == Some(q as int)
            && t@ == cs@.subrange(p + 1, q as int),
        r is None ==> tag_end(cs@, p as int) is None,
{
    let _n = cs.len();
    if !char_at(cs, p, '@') {
        return None;
    }
    let mut q = p + 1;
    while q < cs.len() && !is_whitespace(cs[q]) && cs[q] != '@'
        invariant
            p < q <= cs@.len(),
            tag_chars_end(cs@, p + 1) == tag_chars_end(cs@, q as int),
        decreases cs@.len() - q,
    {
        q += 1;
    }
    if q == p + 1 {
        None
    } else {
        Some((string_of(cs, p + 1, q), q))
    }
}

/// Tags separated by whitespace, with the line breaks after them.
fn tags(cs: &Vec<char>, p: usize) -> (r: (Vec<String>, usize))
    requires
        p <= cs@.len(),
    ensures
        p <= r.1 <= cs@.len(),
        r.1 == tags_end(cs@, p as int),
        crate::strings_view(r.0@) == tag_list(cs@, p as int),
{
    let mut v: Vec<String> = Vec::new();
    let mut q = p;
    match tag(cs, q) {
        Some((t, q2)) => {
            v.push(t);
            q = q2;
            assert(crate::strings_view(v@) + more_tag_list(cs@, q as int) =~= tag_list(cs@, p as int));
            loop
                invariant
                    p < q2 <= q <= cs@.len(),
                    more_tags(cs@, q2 as int) == more_tags(cs@, q as int),
                    tag_list(cs@, p as int) == crate::strings_view(v@) + more_tag_list(cs@, q as int),
                ensures
                    p <= q <= cs@.len(),
                    more_tags(cs@, q2 as int) == q,
                    tag_list(cs@, p as int) == crate::strings_view(v@),
                decreases cs@.len() - q,
            {
                let q3 = ws(cs, q);
                match tag(cs, q3) {
                    Some((t, q4)) => {
                        let ghost before = v@;
                        v.push(t);
                        assert(crate::strings_view(v@) =~= crate::strings_view(before).push(tag_text(cs@, q3 as int)));
                        assert(crate::strings_view(v@) + more_tag_list(cs@, q4 as int) =~= crate::strings_view(before) + more_tag_list(cs@, q as int));
                        q = q4;
                    },
                    None => {
                        assert(crate::strings_view(v@) + more_tag_list(cs@, q as int) =~= crate::strings_view(v@));
                        break;
                    },
                }
            }
        },
        None => {
            assert(crate::strings_view(v@) =~= tag_list(cs@, p as int));
        },
    }
    let q = sp(cs, q);
    (v, nls(cs, q))
}

/// Whether the three characters at `p` are `c`.
fn fence_at(cs: &Vec<char>, p: usize, c: char) -> (r: bool)
    ensures
        r ==> p + 3 <= cs@.len(),
        r == fence(cs@, p as int, c),
{
    p < cs.len() && cs.len() - p >= 3 && cs[p] == c && cs[p + 1] == c && cs[p + 2] == c
}

/// `s` without its trailing whitespace, as a `String`.
fn trimmed_end(s: &String) -> (r: String)
    ensures
        r@ == trim_end(s@),
{
    let v = chars_of(s.as_str());
    let e = trim_end_at(&v, 0, v.len());
    proof {
        lemma_trim_end_sub(v@, 0, e as int, v@.len() as int);
        assert(v@.subrange(0, v@.len() as int) == v@);
    }
    string_of(&v, 0, e)
}

/// A docstring fenced by three `"` or three backticks. Its text is dedented
/// and loses its trailing whitespace.
fn docstring(cs: &Vec<char>, p: usize) -> (r: Option<(String, usize)>)
    requires
        p <= cs@.len(),
    ensures
        r matches Some((d, q)) ==> p < q <= cs@.len() && docstring_end(cs@, p as int) == Some(
            q as int,
        ) && docstring_text(cs@, p as int) == Some(d@),
        r is None ==> docstring_end(cs@, p as int) is None,
{
    let _n = cs.len();
    let fc = if fence_at(cs, p, '"') {
        '"'
    } else if fence_at(cs, p, '`') {
        '`'
    } else {
        return None;
    };
    let mut q = p + 3;
    assert(fence(cs@, p as int, fc));
    assert(fc == (if fence(cs@, p as int, '"') {
        '"'
    } else {
        '`'
    }));
    while !fence_at(cs, q, fc)
        invariant
            p + 3 <= q <= cs@.len(),
            fence_close(cs@, fc, p + 3) == fence_close(cs@, fc, q as int),
            fence(cs@, p as int, fc),
            fc == (if fence(cs@, p as int, '"') {
                '"'
            } else {
                '`'
            }),
        decreases cs@.len() - q,
    {
        match nl(cs, q) {
            Some(q2) => q = q2,
            None => {
                if q < cs.len() {
                    q += 1;
                } else {
                    assert(fence_close(cs@, fc, q as int) is None);
                    assert(fence_close(cs@, fc, p + 3) is None);
                    assert(docstring_end(cs@, p as int) is None);
                    return None;
                }
            },
        }
    }
    let end = match nl_eof(cs, q + 3) {
        Some(e) => e,
        None => return None,
    };
    let raw = string_of(cs, p + 3, q);
    let d = dedent(raw.as_str());
    let t = trimmed_end(&d);
    assert(t@ == trim_end(dedent_of(cs@.subrange(p + 3, q as int))));
    Some((t, end))
}

proof fn lemma_trim_start_sub(cs: Seq<char>, a: int, r: int, b: int)
    requires
        0 <= a <= r <= b <= cs.len(),
        forall|k: int| a <= k < r ==> is_ws(#[trigger] cs[k]),
        r < b ==> !is_ws(cs[r]),
    ensures
        trim_start(cs.subrange(a, b)) == cs.subrange(r, b),
    decreases r - a,
{
    if a < r {
        assert(cs.subrange(a, b).drop_first() == cs.subrange(a + 1, b));
        lemma_trim_start_sub(cs, a + 1, r, b);
    } else if a < b {
        assert(cs.subrange(a, b)[0] == cs[a]);
    }
}

proof fn lemma_trim_end_sub(cs: Seq<char>, a: int, r: int, b: int)
    requires
        0 <= a <= r <= b <= cs.len(),
        forall|k: int| r <= k < b ==> is_ws(#[trigger] cs[k]),
        r > a ==> !is_ws(cs[r - 1]),
    ensures
        trim_end(cs.subrange(a, b)) == cs.subrange(a, r),
    decreases b - r,
{
    if b > r {
        assert(cs.subrange(a, b).drop_last() == cs.subrange(a, b - 1));
        lemma_trim_end_sub(cs, a, r, b - 1);
    } else if r > a {
        assert(cs.subrange(a, b).last() == cs[r - 1]);
    }
}

/// A table cell: `|`, then text up to the next `|` or line break, trimmed.
fn table_cell(cs: &Vec<char>, p: usize) -> (r: Option<(String, usize)>)
    requires
        p <= cs@.len(),
    ensures
        r matches Some((c, q)) ==> p < q <= cs@.len() && cell_at(cs@, p as int) == Some((c@, q as int)),
        r is None ==> cell_at(cs@, p as int) is None,
{
    let _n = cs.len();
    if !char_at(cs, p, '|') {
        return None;
    }
    let a = sp(cs, p + 1);
    if a == cs.len() || nl0(cs, a).is_some() {
        return None;
    }
    let mut b = a;
    while b < cs.len() && cs[b] != '|' && nl0(cs, b).is_none()
        invariant
            p < a <= b <= cs@.len(),
            cell_end(cs@, a as int) == cell_end(cs@, b as int),
        decreases cs@.len() - b,
    {
        b += 1;
    }
    let s = trim_start_at(cs, a, b);
    let e = trim_end_at(cs, s, b);
    proof {
        lemma_trim_start_sub(cs@, a as int, s as int, b as int);
        lemma_trim_end_sub(cs@, s as int, e as int, b as int);
    }
    Some((string_of(cs, s, e), b))
}

/// A table row: cells, a closing `|`, and the line break.
fn table_row(cs: &Vec<char>, p: usize) -> (r: Option<(Vec<String>, usize)>)
    requires
        p <= cs@.len(),
    ensures
        r matches Some((row, q)) ==> p < q <= cs@.len() && row_at(cs@, p as int) == Some(
            (cells_view(row@), q as int),
        ),
        r is None ==> row_at(cs@, p as int) is None,
{
    let _n = cs.len();
    let mut cells: Vec<String> = Vec::new();
    let mut q = p;
    match table_cell(cs, q) {
        Some((c, q1)) => {
            cells.push(c);
            q = q1;
            assert(cells_view(cells@).subrange(1, 1) + more_cells(cs@, q as int).0 =~= more_cells(
                cs@,
                q1 as int,
            ).0);
            loop
                invariant
                    p < q1 <= q <= cs@.len(),
                    cells@.len() >= 1,
                    cells_view(cells@)[0] == c@,
                    more_cells(cs@, q1 as int).0 == cells_view(cells@).subrange(
                        1,
                        cells@.len() as int,
                    ) + more_cells(cs@, q as int).0,
                    more_cells(cs@, q1 as int).1 == more_cells(cs@, q as int).1,
                ensures
                    p < q1 <= q <= cs@.len(),
                    cells_view(cells@) == seq![c@] + more_cells(cs@, q1 as int).0,
                    more_cells(cs@, q1 as int).1 == q,
                decreases cs@.len() - q,
            {
                let q3 = sp(cs, q);
                match table_cell(cs, q3) {
                    Some((c2, q4)) => {
                        let ghost before = cells_view(cells@);
                        cells.push(c2);
                        assert(cells_view(cells@) =~= before.push(c2@));
                        assert(cells_view(cells@).subrange(1, cells@.len() as int) + more_cells(
                            cs@,
                            q4 as int,
                        ).0 =~= before.subrange(1, before.len() as int) + more_cells(cs@, q as int).0);
                        q = q4;
                    },
                    None => {
                        assert(cells_view(cells@) =~= seq![c@] + more_cells(cs@, q1 as int).0);
                        break;
                    },
                }
            }
        },
        None => {
            assert(cells_view(cells@) =~= seq![]);
        },
    }
    let q = sp(cs, q);
    if !char_at(cs, q, '|') {
        return None;
    }
    let q = sp(cs, q + 1);
    match nl_eof(cs, q) {
        Some(e) => Some((cells, e)),
        None => None,
    }
}

/// Whether every row is as long as the first.
fn is_rectangular(rows: &Vec<Vec<String>>) -> (r: bool)
    ensures
        r == rectangular(rows@),
{
    let mut i: usize = 0;
    while i < rows.len()
        invariant
            i <= rows@.len(),
            forall|k: int| 0 <= k < i ==> #[trigger] rows@[k]@.len() == rows@[0]@.len(),
        decreases rows@.len() - i,
    {
        if rows[i].len() != rows[0].len() {
            return false;
        }
        i += 1;
    }
    true
}

/// A data table: one or more rows. Rows of unequal length record a fatal
/// `InconsistentCellCount` error, with the rows, and fail the table.
fn table(src: &Source, env: &mut GherkinEnv, p: usize) -> (r: Option<(Table, usize)>)
    requires
        src.wf(),
        p <= src.cs@.len(),
    ensures
        final(env).keeps(*old(env)),
        env_after(*old(env), *final(env), table_end(src.cs@, p as int).1),
        r matches Some((t, q)) ==> table_ok(src.cs@, t) && p < q <= src.cs@.len() && q == table_end(
            src.cs@,
            p as int,
        ).0 && crate::start_index(src.cs@, t.span) == p,
        r is None ==> table_end(src.cs@, p as int).0 == p,
        match table_rows(src.cs@, p as int) {
            Some((rows, q)) => if same_widths(rows) {
                r matches Some((t, e)) && e == q && rows_view(t.rows@) == rows
            } else {
                r is None && (old(env).fatal() is None ==> (final(env).fatal() matches Some(
                    EnvError::InconsistentCellCount(x),
                ) && rows_view(x@) == rows))
            },
            None => r is None,
        },
{
    let cs = &src.cs;
    let q0 = sp(cs, p);
    let mut rows: Vec<Vec<String>> = Vec::new();
    let (first, q1) = match table_row(cs, q0) {
        Some(m) => m,
        None => return None,
    };
    rows.push(first);
    let mut q = q1;
    assert(rows_view(rows@).subrange(1, 1) + more_rows(cs@, q as int).0 =~= more_rows(
        cs@,
        q1 as int,
    ).0);
    loop
        invariant
            p < q1 <= q <= cs@.len(),
            cs@ == src.cs@,
            rows@.len() >= 1,
            rows_view(rows@)[0] == cells_view(first@),
            more_rows(cs@, q1 as int).0 == rows_view(rows@).subrange(1, rows@.len() as int)
                + more_rows(cs@, q as int).0,
            more_rows(cs@, q1 as int).1 == more_rows(cs@, q as int).1,
        ensures
            p < q1 <= q <= cs@.len(),
            rows_view(rows@) == seq![cells_view(first@)] + more_rows(cs@, q1 as int).0,
            more_rows(cs@, q1 as int).1 == q,
        decreases cs@.len() - q,
    {
        let q3 = sp(cs, q);
        match table_row(cs, q3) {
            Some((row, q4)) => {
                let ghost before = rows_view(rows@);
                rows.push(row);
                assert(rows_view(rows@) =~= before.push(cells_view(row@)));
                assert(rows_view(rows@).subrange(1, rows@.len() as int) + more_rows(cs@, q4 as int).0
                    =~= before.subrange(1, before.len() as int) + more_rows(cs@, q as int).0);
                q = q4;
            },
            None => {
                assert(rows_view(rows@) =~= seq![cells_view(first@)] + more_rows(cs@, q1 as int).0);
                break;
            },
        }
    }
    assert(table_rows(cs@, p as int) == Some((rows_view(rows@), q as int)));
    proof {
        let v = rows_view(rows@);
        assert(v.len() == rows@.len());
        assert(v[0].len() == rows@[0]@.len());
        if rectangular(rows@) {
            assert forall|i: int| 0 <= i < v.len() implies #[trigger] v[i].len() == v[0].len() by {
                assert(v[i].len() == rows@[i]@.len());
                assert(rows@[i]@.len() == rows@[0]@.len());
            };
        }
        if same_widths(v) {
            assert forall|i: int| 0 <= i < rows@.len() implies #[trigger] rows@[i]@.len()
                == rows@[0]@.len() by {
                assert(v[i].len() == rows@[i]@.len());
                assert(v[i].len() == v[0].len());
            };
        }
    }
    if !is_rectangular(&rows) {
        env.set_fatal_error(EnvError::InconsistentCellCount(rows));
        return None;
    }
    let (span, position) = src.locate(p, q);
    Some((Table { rows, span, position }, q))
}

/// What a rule with trace `t` did to the recorded errors. With no fatal error
/// before, an `InconsistentCellCount` with the rows of the first ragged table
/// met is recorded exactly when `t` met one; a fatal error stays. The unknown
/// keyword recorded is the last one of `t`, else the one before.
pub open spec fn env_after(before: GherkinEnv, after: GherkinEnv, t: Trace) -> bool {
    &&& if before.fatal() is Some {
        after.fatal() == before.fatal()
    } else {
        &&& (after.fatal() is None) == (t.ragged is None)
        &&& (t.ragged matches Some(rows) ==> (after.fatal() matches Some(
            EnvError::InconsistentCellCount(x),
        ) && rows_view(x@) == rows))
    }
    &&& soft_text(after) == if t.soft is Some {
        t.soft
    } else {
        soft_text(before)
    }
}

proof fn lemma_chain_assoc(a: Trace, b: Trace, c: Trace)
    ensures
        chain(chain(a, b), c) == chain(a, chain(b, c)),
{
}

proof fn lemma_chain_quiet(a: Trace)
    ensures
        chain(quiet(), a) == a,
{
}

proof fn lemma_env_after_chain(e0: GherkinEnv, e1: GherkinEnv, e2: GherkinEnv, a: Trace, b: Trace)
    requires
        env_after(e0, e1, a),
        env_after(e1, e2, b),
    ensures
        env_after(e0, e2, chain(a, b)),
{
}

/// The rest of a header line after its keyword and `:`: the name's start and
/// end (trailing whitespace removed), whether there is a name, and the
/// position after the line.
fn header_rest(cs: &Vec<char>, e: usize, blanks_after: bool) -> (r: Option<(usize, usize, bool, usize)>)
    requires
        e <= cs@.len(),
    ensures
        r matches Some((a, b, named, q)) ==> e < a <= b <= q <= cs@.len() && header_end(
            cs@,
            e as int,
            blanks_after,
        ) == Some(q as int) && cs@[e as int] == ':' && cs@.subrange(a as int, b as int)
            == crate::name_text(cs@, e + 1) && named == (line_end(cs@, skip_blanks(cs@, e + 1))
            > skip_blanks(cs@, e + 1)),
        r is None ==> header_end(cs@, e as int, blanks_after) is None,
{
    let _n = cs.len();
    if !char_at(cs, e, ':') {
        return None;
    }
    let a = sp(cs, e + 1);
    let (b, named) = match not_nl(cs, a) {
        Some(b) => (b, true),
        None => (a, false),
    };
    let c = if blanks_after { sp(cs, b) } else { b };
    match nl_eof(cs, c) {
        Some(q) => {
            let t = trim_end_at(cs, a, b);
            proof {
                lemma_trim_end_sub(cs@, a as int, t as int, b as int);
            }
            Some((a, t, named, q))
        },
        None => None,
    }
}

/// One step whose keyword is from `list`, with type `ty`.
fn step_with(
    src: &Source,
    env: &mut GherkinEnv,
    list: &Vec<Vec<char>>,
    p: usize,
    ty: StepType,
) -> (r: Option<(Step, usize)>)
    requires
        src.wf(),
        p <= src.cs@.len(),
    ensures
        final(env).keeps(*old(env)),
        r matches Some((s, q)) ==> p < q <= src.cs@.len() && step_ok(src.cs@, s) && s.ty == ty
            && char_words(list@).contains(s.keyword@),
        r matches Some((s, q)) ==> step_alt(src.cs@, char_words(list@), p as int).0 == Some(
            q as int,
        ),
        r is None ==> step_alt(src.cs@, char_words(list@), p as int).0 is None,
        r matches Some((s, q)) ==> crate::start_index(src.cs@, s.span) == skip_comments(
            src.cs@,
            p as int,
        ),
        env_after(*old(env), *final(env), step_alt(src.cs@, char_words(list@), p as int).1),
{
    let cs = &src.cs;
    let (k, pa, e) = match keyword(src, env, list, p, "step") {
        Some(m) => m,
        None => return None,
    };
    let v = sp(cs, e);
    let pb = match not_nl(cs, v) {
        Some(b) => b,
        None => return None,
    };
    let q = match nl_eof(cs, sp(cs, pb)) {
        Some(q) => sp(cs, q),
        None => return None,
    };
    let (docstring, q) = match docstring(cs, q) {
        Some((d, q2)) => (Some(d), q2),
        None => (None, q),
    };
    let (table, q) = match table(src, env, q) {
        Some((t, q2)) => (Some(t), q2),
        None => (None, q),
    };
    let ve = trim_end_at(cs, v, pb);
    proof {
        lemma_trim_end_sub(cs@, v as int, ve as int, pb as int);
    }
    let value = string_of(cs, v, ve);
    let (span, position) = src.locate(pa, pb);
    Some((Step { keyword: k, ty, value, docstring, table, span, position }, q))
}

/// One step. A given, when or then keyword sets the type; an and or but
/// keyword takes `last`, the type of the step before, and fails without one.
fn step(src: &Source, lex: &Lexicon, env: &mut GherkinEnv, p: usize, last: Option<StepType>) -> (r:
    Option<(Step, usize)>)
    requires
        src.wf(),
        p <= src.cs@.len(),
        lex.of(old(env).kw()),
    ensures
        final(env).keeps(*old(env)),
        r matches Some((s, q)) ==> step_at(src.cs@, old(env).kw().words(), p as int, last).0 == Some(
            (q as int, s.ty),
        ),
        r is None ==> step_at(src.cs@, old(env).kw().words(), p as int, last).0 is None,
        r matches Some((s, q)) ==> crate::start_index(src.cs@, s.span) == step_start(
            src.cs@,
            p as int,
        ),
        env_after(*old(env), *final(env), step_at(src.cs@, old(env).kw().words(), p as int, last).1),
        r matches Some((s, q)) ==> p < q <= src.cs@.len() && step_ok(src.cs@, s) && {
            let kw = old(env).kw();
            ||| s.ty == StepType::Given && words(kw.given@).contains(s.keyword@)
            ||| s.ty == StepType::When && words(kw.when@).contains(s.keyword@)
            ||| s.ty == StepType::Then && words(kw.then_@).contains(s.keyword@)
            ||| last == Some(s.ty) && (words(kw.and@).contains(s.keyword@) || words(
                kw.but@,
            ).contains(s.keyword@))
        },
{
    let p0 = comments(&src.cs, p);
    if let Some(r) = step_with(src, env, &lex.given, p0, StepType::Given) {
        return Some(r);
    }
    if let Some(r) = step_with(src, env, &lex.when, p0, StepType::When) {
        return Some(r);
    }
    if let Some(r) = step_with(src, env, &lex.then_, p0, StepType::Then) {
        return Some(r);
    }
    if let Some(t) = last {
        if let Some(r) = step_with(src, env, &lex.and, p0, t) {
            return Some(r);
        }
        if let Some(r) = step_with(src, env, &lex.but, p0, t) {
            return Some(r);
        }
    }
    None
}

/// Steps separated by blanks; `And` and `But` take the type of the step
/// before.
#[verifier::rlimit(100)]
fn steps(src: &Source, lex: &Lexicon, env: &mut GherkinEnv, p: usize) -> (r: (Vec<Step>, usize))
    requires
        src.wf(),
        p <= src.cs@.len(),
        lex.of(old(env).kw()),
    ensures
        final(env).keeps(*old(env)),
        p <= r.1 <= src.cs@.len(),
        steps_ok(src.cs@, old(env).kw().words(), r.0@),
        r.1 == steps_end(src.cs@, old(env).kw().words(), p as int).0,
        crate::marks(src.cs@, r.0@) == step_marks(src.cs@, old(env).kw().words(), p as int),
        env_after(*old(env), *final(env), steps_end(src.cs@, old(env).kw().words(), p as int).1),
{
    let cs = &src.cs;
    let ghost kw = env.kw();
    let ghost kww = kw.words();
    let ghost env0 = *env;
    let mut v: Vec<Step> = Vec::new();
    let (s0, q0) = match step(src, lex, env, p, None) {
        Some(m) => m,
        None => {
            assert(crate::marks(cs@, v@) =~= step_marks(cs@, kww, p as int));
            return (v, p);
        },
    };
    let ghost acc = step_at(cs@, kww, p as int, None).1;
    let mut last: StepType = s0.ty;
    v.push(s0);
    let mut q = q0;
    assert(crate::marks(cs@, v@) + more_step_marks(cs@, kww, q as int, last) =~= step_marks(
        cs@,
        kww,
        p as int,
    ));
    loop
        invariant_except_break
            p < q <= cs@.len(),
            cs@ == src.cs@,
            src.wf(),
            step_marks(cs@, kww, p as int) == crate::marks(cs@, v@) + more_step_marks(
                cs@,
                kww,
                q as int,
                last,
            ),
            env.keeps(env0),
            env0 == *old(env),
            kw == old(env).kw(),
            kww == kw.words(),
            lex.of(kw),
            v@.len() > 0,
            last == v@.last().ty,
            steps_ok(cs@, kww, v@),
            steps_end(cs@, kww, p as int).0 == more_steps(cs@, kww, q as int, last).0,
            steps_end(cs@, kww, p as int).1 == chain(acc, more_steps(cs@, kww, q as int, last).1),
            env_after(env0, *env, acc),
        ensures
            p < q <= cs@.len(),
            env.keeps(env0),
            steps_ok(cs@, kww, v@),
            step_marks(cs@, kww, p as int) == crate::marks(cs@, v@),
            steps_end(cs@, kww, p as int).0 == q,
            env_after(env0, *env, steps_end(cs@, kww, p as int).1),
        decreases cs@.len() - q,
    {
        let q2 = sp(cs, q);
        let ghost before = *env;
        let ghost e_pre = *env;
        let ghost t_call = step_at(cs@, kww, q2 as int, Some(last)).1;
        match step(src, lex, env, q2, Some(last)) {
            Some((s, q3)) => {
                let ghost old_v = v@;
                proof {
                    lemma_env_after_chain(env0, e_pre, *env, acc, t_call);
                    acc = chain(acc, t_call);
                }
                let ghost old_last = last;
                last = s.ty;
                v.push(s);
                assert(crate::marks(cs@, v@) =~= crate::marks(cs@, old_v).push(
                    (step_start(cs@, q2 as int), s.ty),
                ));
                assert(crate::marks(cs@, v@) + more_step_marks(cs@, kww, q3 as int, last) =~= crate::marks(
                    cs@,
                    old_v,
                ) + more_step_marks(cs@, kww, q as int, old_last));
                proof {
                    assert forall|k: int| 0 <= k < v@.len() implies step_ok(cs@, #[trigger] v@[k])
                        && step_kind_ok(kww, v@, k) by {
                        if k < old_v.len() {
                            assert(v@[k] == old_v[k]);
                            assert(step_kind_ok(kww, old_v, k));
                            if k > 0 {
                                assert(v@[k - 1] == old_v[k - 1]);
                            }
                        }
                    };
                }
                q = q3;
            },
            None => {
                assert(crate::marks(cs@, v@) + more_step_marks(cs@, kww, q as int, last) =~= crate::marks(
                    cs@,
                    v@,
                ));
                proof {
                    lemma_env_after_chain(env0, e_pre, *env, acc, t_call);
                }
                break;
            },
        }
    }
    (v, q)
}

/// A background: keyword, `:`, optional name, description and steps.
#[verifier::rlimit(100)]
fn background(src: &Source, lex: &Lexicon, env: &mut GherkinEnv, p: usize) -> (r: Option<(Background, usize)>)
    requires
        src.wf(),
        p <= src.cs@.len(),
        lex.of(old(env).kw()),
    ensures
        final(env).keeps(*old(env)),
        r matches Some((b, q)) ==> p < q <= src.cs@.len() && background_ok(src.cs@, old(env).kw().words(), b),
        r matches Some((b, q)) ==> background_at(src.cs@, old(env).kw().words(), p as int).0 == Some(
            q as int,
        ),
        r is None ==> background_at(src.cs@, old(env).kw().words(), p as int).0 is None,
        r matches Some((b, q)) ==> crate::keyword_found(
            src.cs@,
            old(env).kw().words().background,
            skip_blanks(src.cs@, skip_comments(src.cs@, p as int)),
            b.span,
            b.keyword@,
        ),
        env_after(*old(env), *final(env), background_at(src.cs@, old(env).kw().words(), p as int).1),
{
    let cs = &src.cs;
    let q = sp(cs, comments(cs, p));
    let (k, pa, e) = match keyword(src, env, &lex.background, q, "background") {
        Some(m) => m,
        None => return None,
    };
    let (a, b, _, q) = match header_rest(cs, e, false) {
        Some(h) => h,
        None => {
            env.expect(e, ":");
            return None;
        },
    };
    let (description, q) = description(src, env, &lex.ex_background, q);
    let (steps, q) = steps(src, lex, env, q);
    let (span, position) = src.locate(pa, q);
    let name = string_of(cs, a, b);
    Some((Background { keyword: k, name, description, steps, span, position }, q))
}

/// An examples block: tags, keyword, `:`, optional name, description and an
/// optional table.
#[verifier::rlimit(100)]
fn examples(src: &Source, lex: &Lexicon, env: &mut GherkinEnv, p: usize) -> (r: Option<(Examples, usize)>)
    requires
        src.wf(),
        p <= src.cs@.len(),
        lex.of(old(env).kw()),
    ensures
        final(env).keeps(*old(env)),
        r matches Some((x, q)) ==> p < q <= src.cs@.len() && examples_ok(src.cs@, old(env).kw().words(), x),
        r matches Some((x, q)) ==> examples_at(src.cs@, old(env).kw().words(), p as int).0 == Some(
            q as int,
        ),
        r is None ==> examples_at(src.cs@, old(env).kw().words(), p as int).0 is None,
        r matches Some((x, q)) ==> crate::example_at_mark(src.cs@, old(env).kw().words(), x, p as int),
        env_after(*old(env), *final(env), examples_at(src.cs@, old(env).kw().words(), p as int).1),
{
    let cs = &src.cs;
    let q = sp(cs, comments(cs, p));
    let (tags, q) = tags(cs, q);
    let q = sp(cs, q);
    let (k, pa, e) = match keyword(src, env, &lex.examples, q, "examples") {
        Some(m) => m,
        None => return None,
    };
    let (a, b, named, q) = match header_rest(cs, e, false) {
        Some(h) => h,
        None => {
            env.expect(e, ":");
            return None;
        },
    };
    let (description, q) = description(src, env, &lex.ex_examples, q);
    let (table, q) = match table(src, env, q) {
        Some((t, q2)) => (Some(t), q2),
        None => (None, q),
    };
    let (span, position) = src.locate(pa, q);
    let name = if named {
        Some(string_of(cs, a, b))
    } else {
        None
    };
    Some((Examples { keyword: k, name, description, table, tags, span, position }, q))
}

/// A scenario whose keyword is from `list`: tags, keyword, `:`, optional
/// name, description, steps and examples blocks.
#[verifier::rlimit(100)]
fn scenario_with(
    src: &Source,
    lex: &Lexicon,
    env: &mut GherkinEnv,
    list: &Vec<Vec<char>>,
    p: usize,
) -> (r: Option<(Scenario, usize)>)
    requires
        src.wf(),
        p <= src.cs@.len(),
        lex.of(old(env).kw()),
    ensures
        final(env).keeps(*old(env)),
        r matches Some((x, q)) ==> p < q <= src.cs@.len() && scenario_ok(src.cs@, old(env).kw().words(), x),
        r matches Some((x, q)) ==> scenario_alt(
            src.cs@,
            old(env).kw().words(),
            char_words(list@),
            p as int,
        ).0 == Some(q as int),
        r is None ==> scenario_alt(src.cs@, old(env).kw().words(), char_words(list@), p as int).0 is None,
        r matches Some((x, q)) ==> crate::keyword_found(
            src.cs@,
            char_words(list@),
            block_pre(src.cs@, p as int),
            x.span,
            x.keyword@,
        ),
        r matches Some((x, q)) ==> crate::strings_view(x.tags@) == block_tags(src.cs@, p as int),
        env_after(
            *old(env),
            *final(env),
            scenario_alt(src.cs@, old(env).kw().words(), char_words(list@), p as int).1,
        ),
{
    let cs = &src.cs;
    let ghost kww = env.kw().words();
    let ghost env0 = *env;
    let q = sp(cs, comments(cs, p));
    let (tags, q) = tags(cs, q);
    let q = sp(cs, q);
    let ghost kq = q;
    let (k, pa, e) = match keyword(src, env, list, q, "scenario") {
        Some(m) => m,
        None => return None,
    };
    let (a, b, _, q) = match header_rest(cs, e, true) {
        Some(h) => h,
        None => {
            env.expect(e, ":");
            return None;
        },
    };
    let ghost hq = q;
    let ghost e_h = *env;
    let ghost dt = description_trace(cs@, ex_scenario(kww), hq as int);
    let (description, q) = description(src, env, &lex.ex_scenario, q);
    let ghost e_d = *env;
    let ghost d = q;
    let (steps, q) = steps(src, lex, env, q);
    let ghost se = q;
    proof {
        assert(keyword_trace(cs@, char_words(list@), kq as int) == quiet());
        assert(env_after(env0, e_h, quiet()));
        lemma_env_after_chain(env0, e_h, e_d, quiet(), dt);
        lemma_chain_quiet(dt);
        lemma_env_after_chain(env0, e_d, *env, dt, steps_end(cs@, kww, d as int).1);
    }
    let ghost acc = chain(dt, steps_end(cs@, kww, d as int).1);
    let mut ex: Vec<Examples> = Vec::new();
    let mut q = q;
    let ghost mut qs: Seq<int> = seq![];
    assert(qs + examples_marks(cs@, kww, q as int) =~= examples_marks(cs@, kww, se as int));
    loop
        invariant_except_break
            p < q <= cs@.len(),
            pa <= q,
            cs@ == src.cs@,
            src.wf(),
            env.keeps(env0),
            env0 == *old(env),
            kww == old(env).kw().words(),
            lex.of(old(env).kw()),
            forall|i: int| 0 <= i < ex@.len() ==> examples_ok(cs@, kww, #[trigger] ex@[i]),
            examples_marks(cs@, kww, se as int) == qs + examples_marks(cs@, kww, q as int),
            crate::examples_at_marks(cs@, kww, ex@, qs),
            more_examples(cs@, kww, se as int).0 == more_examples(cs@, kww, q as int).0,
            chain(dt, chain(steps_end(cs@, kww, d as int).1, more_examples(cs@, kww, se as int).1))
                == chain(acc, more_examples(cs@, kww, q as int).1),
            env_after(env0, *env, acc),
        ensures
            p < q <= cs@.len(),
            pa <= q,
            env.keeps(env0),
            forall|i: int| 0 <= i < ex@.len() ==> examples_ok(cs@, kww, #[trigger] ex@[i]),
            crate::examples_at_marks(cs@, kww, ex@, examples_marks(cs@, kww, se as int)),
            more_examples(cs@, kww, se as int).0 == q,
            env_after(
                env0,
                *env,
                chain(dt, chain(steps_end(cs@, kww, d as int).1, more_examples(cs@, kww, se as int).1)),
            ),
        decreases cs@.len() - q,
    {
        let ghost e_pre = *env;
        let ghost t_call = examples_at(cs@, kww, q as int).1;
        match examples(src, lex, env, q) {
            Some((x, q2)) => {
                proof {
                    lemma_env_after_chain(env0, e_pre, *env, acc, t_call);
                    acc = chain(acc, t_call);
                }
                let ghost old_ex = ex@;
                let ghost old_qs = qs;
                ex.push(x);
                proof {
                    qs = qs.push(q as int);
                    assert(qs + examples_marks(cs@, kww, q2 as int) =~= old_qs + examples_marks(
                        cs@,
                        kww,
                        q as int,
                    ));
                    assert forall|k: int| 0 <= k < ex@.len() implies crate::example_at_mark(
                        cs@,
                        kww,
                        #[trigger] ex@[k],
                        qs[k],
                    ) by {
                        if k < old_ex.len() {
                            assert(ex@[k] == old_ex[k]);
                        }
                    };
                }
                q = q2;
            },
            None => {
                assert(qs + examples_marks(cs@, kww, q as int) =~= qs);
                proof {
                    lemma_env_after_chain(env0, e_pre, *env, acc, t_call);
                }
                break;
            },
        }
    }
    let (span, position) = src.locate(pa, q);
    let name = string_of(cs, a, b);
    Some((Scenario { keyword: k, name, description, steps, examples: ex, tags, span, position }, q))
}

/// A scenario, or else a scenario outline.
fn scenario(src: &Source, lex: &Lexicon, env: &mut GherkinEnv, p: usize) -> (r: Option<(Scenario, usize)>)
    requires
        src.wf(),
        p <= src.cs@.len(),
        lex.of(old(env).kw()),
    ensures
        final(env).keeps(*old(env)),
        r matches Some((x, q)) ==> p < q <= src.cs@.len() && scenario_ok(src.cs@, old(env).kw().words(), x),
        r matches Some((x, q)) ==> scenario_at(src.cs@, old(env).kw().words(), p as int).0 == Some(
            q as int,
        ),
        r is None ==> scenario_at(src.cs@, old(env).kw().words(), p as int).0 is None,
        r matches Some((x, q)) ==> crate::scenario_at_mark(src.cs@, old(env).kw().words(), x, p as int),
        env_after(*old(env), *final(env), scenario_at(src.cs@, old(env).kw().words(), p as int).1),
{
    match scenario_with(src, lex, env, &lex.scenario, p) {
        Some(r) => Some(r),
        None => scenario_with(src, lex, env, &lex.scenario_outline, p),
    }
}

/// Scenarios separated by blanks.
#[verifier::rlimit(100)]
fn scenarios(src: &Source, lex: &Lexicon, env: &mut GherkinEnv, p: usize) -> (r: (Vec<Scenario>, usize))
    requires
        src.wf(),
        p <= src.cs@.len(),
        lex.of(old(env).kw()),
    ensures
        final(env).keeps(*old(env)),
        p <= r.1 <= src.cs@.len(),
        scenarios_ok(src.cs@, old(env).kw().words(), r.0@),
        r.1 == scenarios_end(src.cs@, old(env).kw().words(), p as int).0,
        crate::scenarios_at_marks(src.cs@, old(env).kw().words(), r.0@, scenario_marks(src.cs@, old(env).kw().words(), p as int)),
        env_after(*old(env), *final(env), scenarios_end(src.cs@, old(env).kw().words(), p as int).1),
{
    let cs = &src.cs;
    let ghost kw = env.kw();
    let ghost kww = kw.words();
    let ghost env0 = *env;
    let mut v: Vec<Scenario> = Vec::new();
    let start = sp(cs, p);
    let (x0, q0) = match scenario(src, lex, env, start) {
        Some(m) => m,
        None => {
            assert(scenario_marks(cs@, kww, p as int) =~= seq![]);
            return (v, start);
        },
    };
    let ghost acc = scenario_at(cs@, kww, start as int).1;
    v.push(x0);
    let mut q = q0;
    let ghost mut qs: Seq<int> = seq![start as int];
    assert(qs + more_scenario_marks(cs@, kww, q as int) =~= scenario_marks(cs@, kww, p as int));
    loop
        invariant_except_break
            p <= start < q <= cs@.len(),
            cs@ == src.cs@,
            src.wf(),
            env.keeps(env0),
            env0 == *old(env),
            kw == old(env).kw(),
            kww == kw.words(),
            lex.of(kw),
            scenarios_ok(cs@, kww, v@),
            scenario_marks(cs@, kww, p as int) == qs + more_scenario_marks(cs@, kww, q as int),
            crate::scenarios_at_marks(cs@, kww, v@, qs),
            scenarios_end(cs@, kww, p as int).0 == more_scenarios(cs@, kww, q as int).0,
            scenarios_end(cs@, kww, p as int).1 == chain(acc, more_scenarios(cs@, kww, q as int).1),
            env_after(env0, *env, acc),
        ensures
            p < q <= cs@.len(),
            env.keeps(env0),
            scenarios_ok(cs@, kww, v@),
            crate::scenarios_at_marks(cs@, kww, v@, scenario_marks(cs@, kww, p as int)),
            scenarios_end(cs@, kww, p as int).0 == q,
            env_after(env0, *env, scenarios_end(cs@, kww, p as int).1),
        decreases cs@.len() - q,
    {
        let q2 = sp(cs, q);
        let ghost e_pre = *env;
        let ghost t_call = scenario_at(cs@, kww, q2 as int).1;
        match scenario(src, lex, env, q2) {
            Some((x, q3)) => {
                proof {
                    lemma_env_after_chain(env0, e_pre, *env, acc, t_call);
                    acc = chain(acc, t_call);
                }
                let ghost old_v = v@;
                let ghost old_qs = qs;
                v.push(x);
                proof {
                    qs = qs.push(q2 as int);
                    assert(qs + more_scenario_marks(cs@, kww, q3 as int) =~= old_qs + more_scenario_marks(
                        cs@,
                        kww,
                        q as int,
                    ));
                    assert forall|k: int| 0 <= k < v@.len() implies crate::scenario_at_mark(
                        cs@,
                        kww,
                        #[trigger] v@[k],
                        qs[k],
                    ) by {
                        if k < old_v.len() {
                            assert(v@[k] == old_v[k]);
                        }
                    };
                }
                q = q3;
            },
            None => {
                assert(qs + more_scenario_marks(cs@, kww, q as int) =~= qs);
                proof {
                    lemma_env_after_chain(env0, e_pre, *env, acc, t_call);
                }
                break;
            },
        }
    }
    (v, q)
}

/// A rule: tags, keyword, `:`, optional name, description, an optional
/// background and scenarios.
#[verifier::rlimit(100)]
fn rule(src: &Source, lex: &Lexicon, env: &mut GherkinEnv, p: usize) -> (r: Option<(Rule, usize)>)
    requires
        src.wf(),
        p <= src.cs@.len(),
        lex.of(old(env).kw()),
    ensures
        final(env).keeps(*old(env)),
        r matches Some((x, q)) ==> p < q <= src.cs@.len() && rule_ok(src.cs@, old(env).kw().words(), x),
        r matches Some((x, q)) ==> rule_at(src.cs@, old(env).kw().words(), p as int).0 == Some(
            q as int,
        ),
        r is None ==> rule_at(src.cs@, old(env).kw().words(), p as int).0 is None,
        r matches Some((x, q)) ==> crate::rule_at_mark(src.cs@, old(env).kw().words(), x, p as int),
        env_after(*old(env), *final(env), rule_at(src.cs@, old(env).kw().words(), p as int).1),
{
    let cs = &src.cs;
    let q = sp(cs, p);
    let (tags, q) = tags(cs, q);
    let q = sp(cs, q);
    let (k, pa, e) = match keyword(src, env, &lex.rule, q, "rule") {
        Some(m) => m,
        None => return None,
    };
    let (a, b, _, q) = match header_rest(cs, e, true) {
        Some(h) => h,
        None => {
            env.expect(e, ":");
            return None;
        },
    };
    let (description, q) = description(src, env, &lex.ex_rule, q);
    let (background, q) = match background(src, lex, env, q) {
        Some((b, q2)) => (Some(b), q2),
        None => (None, q),
    };
    let q = nls(cs, q);
    let (scenarios, q) = scenarios(src, lex, env, q);
    let q = nls(cs, q);
    let (span, position) = src.locate(pa, q);
    let name = string_of(cs, a, b);
    Some((Rule { keyword: k, name, description, background, scenarios, tags, span, position }, q))
}

/// Rules separated by blanks.
#[verifier::rlimit(100)]
fn rules(src: &Source, lex: &Lexicon, env: &mut GherkinEnv, p: usize) -> (r: (Vec<Rule>, usize))
    requires
        src.wf(),
        p <= src.cs@.len(),
        lex.of(old(env).kw()),
    ensures
        final(env).keeps(*old(env)),
        p <= r.1 <= src.cs@.len(),
        forall|i: int| 0 <= i < r.0@.len() ==> rule_ok(src.cs@, old(env).kw().words(), #[trigger] r.0@[i]),
        r.1 == rules_end(src.cs@, old(env).kw().words(), p as int).0,
        crate::rules_at_marks(src.cs@, old(env).kw().words(), r.0@, rule_marks(src.cs@, old(env).kw().words(), p as int)),
        env_after(*old(env), *final(env), rules_end(src.cs@, old(env).kw().words(), p as int).1),
{
    let cs = &src.cs;
    let ghost kw = env.kw();
    let ghost kww = kw.words();
    let ghost env0 = *env;
    let mut v: Vec<Rule> = Vec::new();
    let start = sp(cs, p);
    let (x0, q0) = match rule(src, lex, env, start) {
        Some(m) => m,
        None => {
            assert(rule_marks(cs@, kww, p as int) =~= seq![]);
            return (v, start);
        },
    };
    let ghost acc = rule_at(cs@, kww, start as int).1;
    v.push(x0);
    let mut q = q0;
    let ghost mut qs: Seq<int> = seq![start as int];
    assert(qs + more_rule_marks(cs@, kww, q as int) =~= rule_marks(cs@, kww, p as int));
    loop
        invariant_except_break
            p <= start < q <= cs@.len(),
            cs@ == src.cs@,
            src.wf(),
            env.keeps(env0),
            env0 == *old(env),
            kw == old(env).kw(),
            kww == kw.words(),
            lex.of(kw),
            forall|i: int| 0 <= i < v@.len() ==> rule_ok(cs@, kww, #[trigger] v@[i]),
            rule_marks(cs@, kww, p as int) == qs + more_rule_marks(cs@, kww, q as int),
            crate::rules_at_marks(cs@, kww, v@, qs),
            rules_end(cs@, kww, p as int).0 == more_rules(cs@, kww, q as int).0,
            rules_end(cs@, kww, p as int).1 == chain(acc, more_rules(cs@, kww, q as int).1),
            env_after(env0, *env, acc),
        ensures
            p < q <= cs@.len(),
            env.keeps(env0),
            forall|i: int| 0 <= i < v@.len() ==> rule_ok(cs@, kww, #[trigger] v@[i]),
            crate::rules_at_marks(cs@, kww, v@, rule_marks(cs@, kww, p as int)),
            rules_end(cs@, kww, p as int).0 == q,
            env_after(env0, *env, rules_end(cs@, kww, p as int).1),
        decreases cs@.len() - q,
    {
        let q2 = sp(cs, q);
        let ghost e_pre = *env;
        let ghost t_call = rule_at(cs@, kww, q2 as int).1;
        match rule(src, lex, env, q2) {
            Some((x, q3)) => {
                proof {
                    lemma_env_after_chain(env0, e_pre, *env, acc, t_call);
                    acc = chain(acc, t_call);
                }
                let ghost old_v = v@;
                let ghost old_qs = qs;
                v.push(x);
                proof {
                    qs = qs.push(q2 as int);
                    assert(qs + more_rule_marks(cs@, kww, q3 as int) =~= old_qs + more_rule_marks(
                        cs@,
                        kww,
                        q as int,
                    ));
                    assert forall|k: int| 0 <= k < v@.len() implies crate::rule_at_mark(
                        cs@,
                        kww,
                        #[trigger] v@[k],
                        qs[k],
                    ) by {
                        if k < old_v.len() {
                            assert(v@[k] == old_v[k]);
                        }
                    };
                }
                q = q3;
            },
            None => {
                assert(qs + more_rule_marks(cs@, kww, q as int) =~= qs);
                proof {
                    lemma_env_after_chain(env0, e_pre, *env, acc, t_call);
                }
                break;
            },
        }
    }
    (v, q)
}

/// A feature after the language directive: tags, keyword, `:`, optional
/// name, description, an optional background, scenarios, then rules.
#[verifier::rlimit(100)]
fn grammar_feature(src: &Source, lex: &Lexicon, env: &mut GherkinEnv, p: usize) -> (r: Option<(Feature, usize)>)
    requires
        src.wf(),
        p <= src.cs@.len(),
        lex.of(old(env).kw()),
    ensures
        final(env).keeps(*old(env)),
        r matches Some((f, q)) ==> p <= q <= src.cs@.len() && crate::feature_ok(src.cs@, old(env).kw().words(), f),
        r matches Some((f, q)) ==> feature_at(src.cs@, old(env).kw().words(), p as int).0 == Some(
            q as int,
        ),
        r is None ==> feature_at(src.cs@, old(env).kw().words(), p as int).0 is None,
        r matches Some((f, q)) ==> crate::keyword_found(
            src.cs@,
            old(env).kw().words().feature,
            tags_end(src.cs@, skip_newlines(src.cs@, p as int)),
            f.span,
            f.keyword@,
        ),
        r matches Some((f, q)) ==> crate::strings_view(f.tags@) == tag_list(
            src.cs@,
            skip_newlines(src.cs@, p as int),
        ),
        env_after(*old(env), *final(env), feature_at(src.cs@, old(env).kw().words(), p as int).1),
{
    let cs = &src.cs;
    let q = nls(cs, p);
    let (tags, q) = tags(cs, q);
    let (k, pa, e) = match keyword(src, env, &lex.feature, q, "feature") {
        Some(m) => m,
        None => return None,
    };
    let (a, b, _, q) = match header_rest(cs, e, true) {
        Some(h) => h,
        None => {
            env.expect(e, ":");
            return None;
        },
    };
    let (description, q) = description(src, env, &lex.ex_feature, q);
    let (background, q) = match background(src, lex, env, q) {
        Some((b, q2)) => (Some(b), q2),
        None => (None, q),
    };
    let q = nls(cs, q);
    let (scenarios, q) = scenarios(src, lex, env, q);
    let q = nls(cs, q);
    let (rules, pb) = rules(src, lex, env, q);
    let q = nls(cs, pb);
    let (span, position) = src.locate(pa, pb);
    let name = string_of(cs, a, b);
    Some((
        Feature {
            keyword: k,
            name,
            description,
            background,
            scenarios,
            rules,
            tags,
            span,
            position,
            path: None,
        },
        q,
    ))
}

/// `r` failed with `UnsupportedLanguage(l)`.
pub open spec fn fails_unsupported(r: Result<Feature, crate::ParseError>, l: Seq<char>) -> bool {
    match r {
        Err(e) => match e.error {
            Some(EnvError::UnsupportedLanguage(m)) => m@ == l,
            _ => false,
        },
        Ok(_) => false,
    }
}

/// When the trace `t` met a table with rows of unequal length, `r` failed
/// with `InconsistentCellCount` holding the trimmed cells of the first such
/// table.
pub open spec fn fails_ragged(r: Result<Feature, crate::ParseError>, t: Trace) -> bool {
    match t.ragged {
        Some(rows) => match r {
            Err(e) => match e.error {
                Some(EnvError::InconsistentCellCount(x)) => rows_view(x@) == rows,
                _ => false,
            },
            Ok(_) => false,
        },
        None => true,
    }
}

/// The trace of parsing document `cs`, with `kw` the keywords before its
/// directive.
pub open spec fn parse_trace(kw: KeywordWords, cs: Seq<char>) -> Trace {
    feature_at(cs, active_words(kw, cs), body_start(cs)).1
}

/// If `r` failed, its error is the unknown keyword `soft` (the text at the
/// last keyword attempt that matched nothing), else the one recorded
/// `before`, and none when there is neither.
pub open spec fn reports_soft(
    r: Result<Feature, crate::ParseError>,
    soft: Option<Seq<char>>,
    before: Option<Seq<char>>,
) -> bool {
    match r {
        Err(e) => match if soft is Some {
            soft
        } else {
            before
        } {
            Some(x) => e.error matches Some(EnvError::UnknownKeyword(m)) && m@ == x,
            None => e.error is None,
        },
        Ok(_) => true,
    }
}

/// An `InconsistentCellCount` that `r` failed with holds rows of unequal
/// length.
pub open spec fn cell_errors_ragged(r: Result<Feature, crate::ParseError>) -> bool {
    match r {
        Err(e) => match e.error {
            Some(EnvError::InconsistentCellCount(rows)) => !rectangular(rows@),
            _ => true,
        },
        Ok(_) => true,
    }
}

fn skip_blank_lines_at(cs: &Vec<char>, p: usize) -> (q: usize)
    requires
        p <= cs@.len(),
    ensures
        q == skip_blank_lines(cs@, p as int),
        p <= q <= cs@.len(),
{
    let mut q = p;
    while q < cs.len() && (blank(cs[q]) || nl0(cs, q).is_some())
        invariant
            p <= q <= cs@.len(),
            skip_blank_lines(cs@, p as int) == skip_blank_lines(cs@, q as int),
        decreases cs@.len() - q,
    {
        if blank(cs[q]) {
            q += 1;
        } else {
            match nl0(cs, q) {
                Some(q2) => q = q2,
                None => {},
            }
        }
    }
    q
}

/// A `# language:` directive at the start of `cs`: where the language's name
/// starts and ends, and the position after the directive's line.
fn language_directive(cs: &Vec<char>) -> (r: Option<(usize, usize, usize)>)
    ensures
        r matches Some((e, f, q)) ==> directive(cs@) == Some((cs@.subrange(e as int, f as int), q as int))
            && e < f < q <= cs@.len(),
        r is None ==> directive(cs@) is None,
{
    let _n = cs.len();
    let b = skip_blank_lines_at(cs, sp(cs, 0));
    if !char_at(cs, b, '#') {
        return None;
    }
    let c = sp(cs, b + 1);
    let word = chars_of("language");
    if !prefix_at(cs, c, &word) {
        return None;
    }
    let d = sp(cs, c + word.len());
    if !char_at(cs, d, ':') {
        return None;
    }
    let e = sp(cs, d + 1);
    let f = to_line_end(cs, e);
    if f == e {
        return None;
    }
    match nl0(cs, f) {
        Some(q) => Some((e, f, q)),
        None => None,
    }
}

/// Parses the document for `input`: an optional language directive, then a
/// feature that must reach the end of the document.
#[verifier::rlimit(100)]
pub fn parse_document(input: &str, env: GherkinEnv) -> (r: Result<Feature, crate::ParseError>)
    requires
        input@.len() < MAX_CHARS,
    ensures
        r matches Ok(f) ==> crate::feature_ok(
            document(input@),
            active_words(env.kw().words(), document(input@)),
            f,
        ),
        r matches Ok(f) ==> crate::strings_view(f.tags@) == tag_list(
            document(input@),
            skip_newlines(document(input@), body_start(document(input@))),
        ),
        r matches Ok(f) ==> crate::keyword_found(
            document(input@),
            active_words(env.kw().words(), document(input@)).feature,
            tags_end(document(input@), skip_newlines(document(input@), body_start(document(input@)))),
            f.span,
            f.keyword@,
        ),
        env.fatal() is None && unsupported_directive(document(input@)) is None ==> fails_ragged(
            r,
            parse_trace(env.kw().words(), document(input@)),
        ),
        env.errors_ok() && env.fatal() is None && unsupported_directive(document(input@)) is None
            && parse_trace(env.kw().words(), document(input@)).ragged is None ==> reports_soft(
            r,
            parse_trace(env.kw().words(), document(input@)).soft,
            soft_text(env),
        ),
        env.fatal() is Some ==> (r matches Err(e) && e.error == env.fatal()),
        env.fatal() is None && unsupported_directive(document(input@)) is Some ==> fails_unsupported(
            r,
            unsupported_directive(document(input@)).unwrap(),
        ),
        env.errors_ok() ==> cell_errors_ragged(r),
        r is Ok <==> (env.fatal() is None && unsupported_directive(document(input@)) is None
            && accepts(document(input@), active_words(env.kw().words(), document(input@)))),
        r matches Err(e) ==> exists|i: int|
            0 <= i <= document(input@).len() && e.position == #[trigger] line_col_at(
                document(input@),
                i,
            ),
{
    let mut cs = chars_of(input);
    if cs.len() == 0 || cs[cs.len() - 1] != '\n' {
        cs.push('\n');
    }
    assert(cs@ == document(input@));
    let src = Source::new(cs);
    let cs = &src.cs;
    let n = cs.len();
    let mut env = env;
    let ghost env0 = env;
    let p0 = sp(cs, 0);
    let p = match language_directive(cs) {
        Some((e, f, q)) => {
            let l = string_of(cs, e, f);
            match env.set_language(l.as_str()) {
                Ok(()) => q,
                Err(_) => p0,
            }
        },
        None => p0,
    };
    assert(env.kw().words() == active_words(env0.kw().words(), cs@));
    assert(p == body_start(cs@));
    assert(env.fatal() is None <==> (env0.fatal() is None && unsupported_directive(cs@) is None));
    let lex = Lexicon::new(env.keywords());
    let ghost env1 = env;
    let parsed = grammar_feature(&src, &lex, &mut env, p);
    match parsed {
        Some((f, q)) => {
            if q == n && env.assert_no_error().is_ok() {
                assert(crate::feature_ok(cs@, env1.kw().words(), f));
                return Ok(f);
            }
            if q < n {
                env.expect(q, "end of input");
            }
        },
        None => {},
    }
    let (at, expected) = env.failure();
    let at = if at > n { n } else { at };
    let position = src.position(at);
    assert(position == line_col_at(cs@, at as int));
    Err(crate::ParseError { position, expected, error: env.take_error() })
}

} // verus!
