//! A Gherkin parser: turns `.feature` documents into a typed syntax tree with
//! exact source positions, and parses boolean tag expressions.
//!
//! A document holds, in order: an optional `# language:` directive, the
//! feature's tags and header, a description, an optional background, its
//! scenarios, and its rules (each with an optional background and scenarios).
//! Comments and indentation are skipped; everything else is reachable from
//! the returned [`Feature`].

mod grammar;
pub mod keywords;
mod parser;
mod source;
mod syntax;
pub mod tagexpr;
mod text;

use vstd::prelude::*;

pub use keywords::Keywords;
pub use parser::{EnvError, GherkinEnv};
pub use source::MAX_CHARS;
pub use tagexpr::{TagOperation, TagSyntaxError};

use grammar::{cell_errors_ragged, fails_ragged, fails_unsupported, parse_trace, reports_soft};
use keywords::{KeywordWords, supported_language};
use parser::starts_with_at;
use source::{line_col_at, located};
use syntax::{
    accepts, active_words, background_at, block_pre, block_tags, body_start, description_end,
    description_of, docstring_end, docstring_text, document, ex_background, ex_examples,
    ex_feature, ex_rule, ex_scenario, examples_marks, feature_at, header_end, keyword_at,
    line_done, line_end, more_examples, rows_view, rule_marks, rule_pre, rule_tags, rules_end,
    same_widths, scenario_marks, scenario_words, scenarios_end, skip_blanks, skip_comments,
    skip_newlines, step_marks, steps_end, table_end, table_rows, tag_list, tags_end, trim_end,
    unsupported_directive,
};
use text::byte_offset;

verus! {

/// A file system path, as `std::path::PathBuf`; carried through unread.
#[verifier::external_type_specification]
#[verifier::external_body]
pub struct ExPathBuf(std::path::PathBuf);

/// A half-open range of byte offsets into the parsed document.
#[derive(Debug, Clone, Copy, PartialEq, Eq, Hash, Default, Structural)]
pub struct Span {
    pub start: usize,
    pub end: usize,
}

impl Span {
    /// The start offset as an `i32` (truncated, as `as` does).
    pub fn start(&self) -> (r: i32)
        ensures
            r == self.start as i32,
    {
        self.start as i32
    }

    /// The end offset as an `i32` (truncated, as `as` does).
    pub fn end(&self) -> (r: i32)
        ensures
            r == self.end as i32,
    {
        self.end as i32
    }
}

/// A 1-based line and column (the column counts bytes).
#[derive(Debug, Clone, Copy, PartialEq, Eq, Hash, Default, Structural)]
pub struct LineCol {
    pub line: usize,
    pub col: usize,
}

impl LineCol {
    /// The line as an `i32` (truncated, as `as` does).
    pub fn line(&self) -> (r: i32)
        ensures
            r == self.line as i32,
    {
        self.line as i32
    }

    /// The column as an `i32` (truncated, as `as` does).
    pub fn col(&self) -> (r: i32)
        ensures
            r == self.col as i32,
    {
        self.col as i32
    }
}

/// A feature background.
#[derive(Debug, Clone, PartialEq, Eq, Hash)]
pub struct Background {
    /// The raw keyword used in the source.
    pub keyword: String,
    /// The name of the background.
    pub name: String,
    /// The description of the background, if found.
    pub description: Option<String>,
    /// The steps of the background.
    pub steps: Vec<Step>,
    /// The byte range of the background in the source.
    pub span: Span,
    /// The line and column where the background starts.
    pub position: LineCol,
}

/// Examples for a scenario outline.
#[derive(Debug, Clone, PartialEq, Eq, Hash)]
pub struct Examples {
    /// The raw keyword used in the source.
    pub keyword: String,
    /// The name of the examples, if given.
    pub name: Option<String>,
    /// The description of the examples, if found.
    pub description: Option<String>,
    /// The data table of the examples.
    pub table: Option<Table>,
    /// The tags of the examples.
    pub tags: Vec<String>,
    /// The byte range of the examples in the source.
    pub span: Span,
    /// The line and column where the examples start.
    pub position: LineCol,
}

/// A feature: the root of a parsed document.
#[derive(Debug, Clone, PartialEq, Eq, Hash)]
pub struct Feature {
    /// The raw keyword used in the source.
    pub keyword: String,
    /// The name of the feature.
    pub name: String,
    /// The description of the feature, if found.
    pub description: Option<String>,
    /// The background of the feature, if found.
    pub background: Option<Background>,
    /// The scenarios of the feature.
    pub scenarios: Vec<Scenario>,
    /// The rules of the feature.
    pub rules: Vec<Rule>,
    /// The tags of the feature.
    pub tags: Vec<String>,
    /// The byte range of the feature in the source.
    pub span: Span,
    /// The line and column where the feature starts.
    pub position: LineCol,
    /// The path the feature was read from, if known.
    pub path: Option<std::path::PathBuf>,
}

impl Feature {
    /// Parses one feature from `input`; a final line break is added when
    /// missing (`document`). The document may open with a `# language:`
    /// directive, which switches from the keywords of `env`.
    ///
    /// It succeeds exactly when `env` holds no fatal error, a directive names
    /// a supported language, and the document is a feature under the keywords
    /// in force (`accepts`): one that reaches the end of the document without
    /// meeting a table whose rows differ in length. The feature starts at the
    /// feature keyword found after its tags, and every node of the tree it
    /// returns stands at its place in the document (`feature_ok`).
    ///
    /// On failure: a fatal error already in `env` is the error returned; else
    /// a directive naming an unsupported language gives
    /// `UnsupportedLanguage`; else a table met with rows of unequal length
    /// gives `InconsistentCellCount` with the trimmed cells of the first such
    /// table; else the error is the text at the last keyword attempt that
    /// matched nothing (`parse_trace`), or none when no attempt failed
    /// (`errors_ok` holds, and no unknown keyword is recorded, in every
    /// environment that `new` and `default` make).
    pub fn parse(input: &str, env: GherkinEnv) -> (r: Result<Feature, ParseError>)
        requires
            input@.len() < source::MAX_CHARS,
        ensures
            r matches Ok(f) ==> feature_ok(
                document(input@),
                active_words(env.kw().words(), document(input@)),
                f,
            ),
            r matches Ok(f) ==> strings_view(f.tags@) == tag_list(
                document(input@),
                skip_newlines(document(input@), body_start(document(input@))),
            ),
            r matches Ok(f) ==> keyword_found(
                document(input@),
                active_words(env.kw().words(), document(input@)).feature,
                tags_end(document(input@), skip_newlines(document(input@), body_start(document(input@)))),
                f.span,
                f.keyword@,
            ),
            env.fatal() is None && unsupported_directive(document(input@)) is None ==> fails_ragged(
                r,
                parse_trace(env.kw().words(), document(input@)),
            ),
            env.errors_ok() && env.fatal() is None && unsupported_directive(document(input@)) is None
                && parse_trace(env.kw().words(), document(input@)).ragged is None ==> reports_soft(
                r,
                parse_trace(env.kw().words(), document(input@)).soft,
                parser::soft_text(env),
            ),
            env.fatal() is Some ==> (r matches Err(e) && e.error == env.fatal()),
            env.fatal() is None && unsupported_directive(document(input@)) is Some
                ==> fails_unsupported(r, unsupported_directive(document(input@)).unwrap()),
            env.errors_ok() ==> cell_errors_ragged(r),
            r is Ok <==> (env.fatal() is None && unsupported_directive(document(input@)) is None
                && accepts(document(input@), active_words(env.kw().words(), document(input@)))),
            r matches Err(e) ==> exists|i: int|
                0 <= i <= document(input@).len() && e.position == #[trigger] line_col_at(
                    document(input@),
                    i,
                ),
    {
        grammar::parse_document(input, env)
    }

    /// Orders features by name alone, in the order of `str`.
    pub fn cmp_by_name(&self, other: &Feature) -> (r: core::cmp::Ordering)
        ensures
            (r is Equal) == (self.name@ == other.name@),
            (r is Less) == (text::lex_le(self.name@, other.name@) && self.name@ != other.name@),
    {
        text::compare(self.name.as_str(), other.name.as_str())
    }
}

/// Whether `lang` names a language with a keyword table.
pub fn is_language_supported(lang: &str) -> (r: bool)
    ensures
        r == supported_language(lang@),
{
    Keywords::get(lang).is_some()
}

/// A rule, as introduced in Gherkin 6.
#[derive(Debug, Clone, PartialEq, Eq, Hash)]
pub struct Rule {
    /// The raw keyword used in the source.
    pub keyword: String,
    /// The name of the rule.
    pub name: String,
    /// The description of the rule, if found.
    pub description: Option<String>,
    /// The background of the rule, if found.
    pub background: Option<Background>,
    /// The scenarios of the rule.
    pub scenarios: Vec<Scenario>,
    /// The tags of the rule.
    pub tags: Vec<String>,
    /// The byte range of the rule in the source.
    pub span: Span,
    /// The line and column where the rule starts.
    pub position: LineCol,
}

/// A scenario, or a scenario outline (the keyword tells which).
#[derive(Debug, Clone, PartialEq, Eq, Hash)]
pub struct Scenario {
    /// The raw keyword used in the source.
    pub keyword: String,
    /// The name of the scenario.
    pub name: String,
    /// The description of the scenario, if found.
    pub description: Option<String>,
    /// The steps of the scenario.
    pub steps: Vec<Step>,
    /// The examples of the scenario.
    pub examples: Vec<Examples>,
    /// The tags of the scenario.
    pub tags: Vec<String>,
    /// The byte range of the scenario in the source.
    pub span: Span,
    /// The line and column where the scenario starts.
    pub position: LineCol,
}

/// A scenario step.
#[derive(Debug, Clone, PartialEq, Eq, Hash)]
pub struct Step {
    /// The raw keyword used in the source, `And` and `But` included.
    pub keyword: String,
    /// The step type, with `And` and `But` resolved from the steps before.
    pub ty: StepType,
    /// The text of the step after its keyword.
    pub value: String,
    /// A docstring, if given.
    pub docstring: Option<String>,
    /// A data table, if given.
    pub table: Option<Table>,
    /// The byte range of the step line in the source.
    pub span: Span,
    /// The line and column where the step starts.
    pub position: LineCol,
}

impl Step {
    /// The docstring, if the step has one.
    pub fn docstring(&self) -> (r: Option<&String>)
        ensures
            r.is_some() == self.docstring.is_some(),
            r.is_some() ==> *r.unwrap() == self.docstring.unwrap(),
    {
        match &self.docstring {
            Some(d) => Some(d),
            None => None,
        }
    }

    /// The step as written: its keyword, a space, and its value.
    pub fn to_string(&self) -> (r: String)
        ensures
            r@ == self.keyword@ + seq![' '] + self.value@,
    {
        let mut cs = text::chars_of(self.keyword.as_str());
        cs.push(' ');
        let v = text::chars_of(self.value.as_str());
        let mut i: usize = 0;
        while i < v.len()
            invariant
                i <= v@.len(),
                v@ == self.value@,
                cs@ == self.keyword@ + seq![' '] + v@.subrange(0, i as int),
            decreases v@.len() - i,
        {
            cs.push(v[i]);
            assert(v@.subrange(0, i + 1) == v@.subrange(0, i as int).push(v@[i as int]));
            i += 1;
        }
        assert(v@.subrange(0, v@.len() as int) == v@);
        let r = text::string_of(&cs, 0, cs.len());
        assert(cs@.subrange(0, cs@.len() as int) == cs@);
        r
    }

    /// The data table, if the step has one.
    pub fn table(&self) -> (r: Option<&Table>)
        ensures
            r.is_some() == self.table.is_some(),
            r.is_some() ==> *r.unwrap() == self.table.unwrap(),
    {
        match &self.table {
            Some(t) => Some(t),
            None => None,
        }
    }
}

/// The type of a step once `And` and `But` are resolved.
#[derive(Debug, Clone, Copy, PartialEq, Eq, Hash, Structural)]
pub enum StepType {
    Given,
    When,
    Then,
}

/// A data table.
#[derive(Debug, Clone, PartialEq, Eq, Hash)]
pub struct Table {
    /// The rows of the table, each as long as the first.
    pub rows: Vec<Vec<String>>,
    /// The byte range of the table in the source.
    pub span: Span,
    /// The line and column where the table starts.
    pub position: LineCol,
}

impl Table {
    /// The number of cells in a row.
    pub fn row_width(&self) -> (r: usize)
        ensures
            r == if self.rows@.len() > 0 { self.rows@[0]@.len() } else { 0 },
    {
        if self.rows.len() > 0 {
            self.rows[0].len()
        } else {
            0
        }
    }
}

/// A failure to parse a document.
#[derive(Debug, Clone, PartialEq, Eq)]
pub struct ParseError {
    /// Where the parse got furthest before it failed.
    pub position: LineCol,
    /// What would have been accepted there.
    pub expected: Vec<&'static str>,
    /// The error the parse recorded, if any: a fatal one first, else the last
    /// unknown keyword.
    pub error: Option<EnvError>,
}

/// The characters of an optional string.
pub open spec fn opt_view(o: Option<String>) -> Option<Seq<char>> {
    match o {
        Some(s) => Some(s@),
        None => None,
    }
}

/// All rows have the length of the first.
pub open spec fn rectangular(rows: Seq<Vec<String>>) -> bool {
    forall|i: int| 0 <= i < rows.len() ==> #[trigger] rows[i]@.len() == rows[0]@.len()
}

/// The character position of `cs` where `span` starts.
pub open spec fn start_index(cs: Seq<char>, span: Span) -> int {
    choose|i: int| 0 <= i <= cs.len() && byte_offset(cs, i) == span.start
}

/// A header at character `i`: `keyword`, then `:`.
pub open spec fn header_text(cs: Seq<char>, i: int, keyword: Seq<char>) -> bool {
    &&& starts_with_at(cs, i, keyword)
    &&& 0 <= i + keyword.len() < cs.len()
    &&& cs[i + keyword.len()] == ':'
}

/// A header's name from `p`: the rest of the line after blanks, without its
/// trailing whitespace.
pub open spec fn name_text(cs: Seq<char>, p: int) -> Seq<char> {
    let a = skip_blanks(cs, p);
    trim_end(cs.subrange(a, line_end(cs, a)))
}

/// The name of an examples block from `p`, which it has when the rest of the
/// line after blanks is not empty.
pub open spec fn optional_name(cs: Seq<char>, p: int) -> Option<Seq<char>> {
    if line_end(cs, skip_blanks(cs, p)) > skip_blanks(cs, p) {
        Some(name_text(cs, p))
    } else {
        None
    }
}

/// A header node whose span starts at `keyword`, `:` and a name `name`.
pub open spec fn header_ok(
    cs: Seq<char>,
    span: Span,
    position: LineCol,
    keyword: Seq<char>,
    name: Seq<char>,
) -> bool {
    let i = start_index(cs, span);
    &&& located(cs, span, position)
    &&& header_text(cs, i, keyword)
    &&& name == name_text(cs, i + keyword.len() + 1)
}

/// The table's rows are the cells of the rows at its start, all as long as
/// the first.
pub open spec fn table_ok(cs: Seq<char>, t: Table) -> bool {
    &&& located(cs, t.span, t.position)
    &&& rectangular(t.rows@)
    &&& table_rows(cs, start_index(cs, t.span)) matches Some((rows, end))
    &&& rows == rows_view(t.rows@)
    &&& t.span.end == byte_offset(cs, end)
}

/// Step `k` of `steps` has a type that its keyword allows: a given, when or
/// then keyword gives its own type; an and or but keyword takes the type of
/// the step before, and so cannot stand first.
pub open spec fn step_kind_ok(kw: KeywordWords, steps: Seq<Step>, k: int) -> bool {
    let s = steps[k];
    ||| s.ty == StepType::Given && kw.given.contains(s.keyword@)
    ||| s.ty == StepType::When && kw.when.contains(s.keyword@)
    ||| s.ty == StepType::Then && kw.then_.contains(s.keyword@)
    ||| k > 0 && s.ty == steps[k - 1].ty && (kw.and.contains(s.keyword@) || kw.but.contains(
        s.keyword@,
    ))
}

/// The step's span starts at its keyword and ends with its line; its value
/// is the rest of the line after blanks, without trailing whitespace. A
/// docstring and a table follow the line when they stand there, the table
/// only when its rows have equal length.
pub open spec fn step_ok(cs: Seq<char>, s: Step) -> bool {
    let i = start_index(cs, s.span);
    let v = skip_blanks(cs, i + s.keyword@.len());
    let after = line_done(cs, skip_blanks(cs, line_end(cs, v)));
    let d = skip_blanks(cs, after.unwrap());
    let t = match docstring_end(cs, d) {
        Some(e) => e,
        None => d,
    };
    &&& located(cs, s.span, s.position)
    &&& starts_with_at(cs, i, s.keyword@)
    &&& s.span.end == byte_offset(cs, line_end(cs, v))
    &&& s.value@ == trim_end(cs.subrange(v, line_end(cs, v)))
    &&& after is Some
    &&& docstring_text(cs, d) == match s.docstring {
        Some(x) => Some(x@),
        None => None,
    }
    &&& (s.table is Some) == (table_rows(cs, t) matches Some((rows, _)) && same_widths(rows))
    &&& (s.table matches Some(x) ==> table_ok(cs, x) && start_index(cs, x.span) == t)
}

/// Every step is at its place, with a type its keyword allows.
pub open spec fn steps_ok(cs: Seq<char>, kw: KeywordWords, steps: Seq<Step>) -> bool {
    forall|k: int| 0 <= k < steps.len() ==> step_ok(cs, #[trigger] steps[k]) && step_kind_ok(kw, steps, k)
}

/// Where each step starts, and its type.
pub open spec fn marks(cs: Seq<char>, steps: Seq<Step>) -> Seq<(int, StepType)> {
    Seq::new(steps.len(), |k: int| (start_index(cs, steps[k].span), steps[k].ty))
}

/// Where the steps of a header node start: after its line and its
/// description, which the words `ex` end.
pub open spec fn steps_start(
    cs: Seq<char>,
    ex: Seq<Seq<char>>,
    span: Span,
    keyword: Seq<char>,
    blanks_after: bool,
) -> int {
    let e = start_index(cs, span) + keyword.len();
    description_end(cs, ex, header_end(cs, e, blanks_after).unwrap())
}

/// A background at its place, with the steps that follow its description.
pub open spec fn background_ok(cs: Seq<char>, kw: KeywordWords, b: Background) -> bool {
    let e = start_index(cs, b.span) + b.keyword@.len();
    &&& header_ok(cs, b.span, b.position, b.keyword@, b.name@)
    &&& opt_view(b.description) == description_of(cs, ex_background(kw), header_end(cs, e, false).unwrap())
    &&& steps_ok(cs, kw, b.steps@)
    &&& marks(cs, b.steps@) == step_marks(cs, kw, steps_start(cs, ex_background(kw), b.span, b.keyword@, false))
    &&& b.span.end == byte_offset(cs, steps_end(cs, kw, steps_start(cs, ex_background(kw), b.span, b.keyword@, false)).0)
}

/// An examples block at its place: its keyword, `:`, its name if the line
/// has one, and the table after its description when one stands there with
/// rows of equal length.
pub open spec fn examples_ok(cs: Seq<char>, kw: KeywordWords, e: Examples) -> bool {
    let i = start_index(cs, e.span);
    let h = header_end(cs, i + e.keyword@.len(), false).unwrap();
    let t = description_end(cs, ex_examples(kw), h);
    &&& located(cs, e.span, e.position)
    &&& opt_view(e.description) == description_of(cs, ex_examples(kw), h)
    &&& (e.table is Some) == (table_rows(cs, t) matches Some((rows, _)) && same_widths(rows))
    &&& (e.table matches Some(x) ==> start_index(cs, x.span) == t)
    &&& e.span.end == byte_offset(cs, table_end(cs, t).0)
    &&& header_text(cs, i, e.keyword@)
    &&& optional_name(cs, i + e.keyword@.len() + 1) == match e.name {
        Some(n) => Some(n@),
        None => None,
    }
    &&& (e.table matches Some(t) ==> table_ok(cs, t))
}

/// The characters of each string.
pub open spec fn strings_view(v: Seq<String>) -> Seq<Seq<char>> {
    Seq::new(v.len(), |k: int| v[k]@)
}

/// A node's keyword is the one the grammar finds in `list` at `pre` (the
/// longest word there, after comment lines), and the node starts at it.
pub open spec fn keyword_found(
    cs: Seq<char>,
    list: Seq<Seq<char>>,
    pre: int,
    span: Span,
    keyword: Seq<char>,
) -> bool {
    let i = start_index(cs, span);
    &&& keyword_at(cs, list, pre) == Some((i, i + keyword.len()))
    &&& list.contains(keyword)
}

/// The examples block whose parse starts at `q`: its keyword is the one found
/// there, after its tags, which are those written there.
pub open spec fn example_at_mark(cs: Seq<char>, kw: KeywordWords, x: Examples, q: int) -> bool {
    &&& keyword_found(cs, kw.examples, block_pre(cs, q), x.span, x.keyword@)
    &&& strings_view(x.tags@) == block_tags(cs, q)
}

/// The scenario whose parse starts at `q`.
pub open spec fn scenario_at_mark(cs: Seq<char>, kw: KeywordWords, x: Scenario, q: int) -> bool {
    &&& keyword_found(cs, scenario_words(cs, kw, q), block_pre(cs, q), x.span, x.keyword@)
    &&& strings_view(x.tags@) == block_tags(cs, q)
}

/// The rule whose parse starts at `q`.
pub open spec fn rule_at_mark(cs: Seq<char>, kw: KeywordWords, x: Rule, q: int) -> bool {
    &&& keyword_found(cs, kw.rule, rule_pre(cs, q), x.span, x.keyword@)
    &&& strings_view(x.tags@) == rule_tags(cs, q)
}

/// The examples blocks whose parses start at `marks`, in order.
pub open spec fn examples_at_marks(cs: Seq<char>, kw: KeywordWords, xs: Seq<Examples>, marks: Seq<int>) -> bool {
    &&& xs.len() == marks.len()
    &&& forall|k: int| 0 <= k < xs.len() ==> example_at_mark(cs, kw, #[trigger] xs[k], marks[k])
}

/// The scenarios whose parses start at `marks`, in order.
pub open spec fn scenarios_at_marks(cs: Seq<char>, kw: KeywordWords, xs: Seq<Scenario>, marks: Seq<int>) -> bool {
    &&& xs.len() == marks.len()
    &&& forall|k: int| 0 <= k < xs.len() ==> scenario_at_mark(cs, kw, #[trigger] xs[k], marks[k])
}

/// The rules whose parses start at `marks`, in order.
pub open spec fn rules_at_marks(cs: Seq<char>, kw: KeywordWords, xs: Seq<Rule>, marks: Seq<int>) -> bool {
    &&& xs.len() == marks.len()
    &&& forall|k: int| 0 <= k < xs.len() ==> rule_at_mark(cs, kw, #[trigger] xs[k], marks[k])
}

/// A scenario at its place, with the steps that follow its description and
/// the examples blocks that follow its steps.
pub open spec fn scenario_ok(cs: Seq<char>, kw: KeywordWords, s: Scenario) -> bool {
    let first_step = steps_start(cs, ex_scenario(kw), s.span, s.keyword@, true);
    let e = start_index(cs, s.span) + s.keyword@.len();
    &&& header_ok(cs, s.span, s.position, s.keyword@, s.name@)
    &&& opt_view(s.description) == description_of(cs, ex_scenario(kw), header_end(cs, e, true).unwrap())
    &&& steps_ok(cs, kw, s.steps@)
    &&& marks(cs, s.steps@) == step_marks(cs, kw, first_step)
    &&& examples_at_marks(cs, kw, s.examples@, examples_marks(cs, kw, steps_end(cs, kw, first_step).0))
    &&& s.span.end == byte_offset(cs, more_examples(cs, kw, steps_end(cs, kw, first_step).0).0)
    &&& forall|k: int| 0 <= k < s.examples@.len() ==> examples_ok(cs, kw, #[trigger] s.examples@[k])
}

/// Every scenario is well-formed.
pub open spec fn scenarios_ok(cs: Seq<char>, kw: KeywordWords, ss: Seq<Scenario>) -> bool {
    forall|k: int| 0 <= k < ss.len() ==> scenario_ok(cs, kw, #[trigger] ss[k])
}

/// The background that follows a description ending at `d`, if one stands
/// there, and where its scenarios start.
pub open spec fn background_then_scenarios(
    cs: Seq<char>,
    kw: KeywordWords,
    d: int,
    background: Option<Background>,
    scenarios: Seq<Scenario>,
) -> bool {
    let b = background_at(cs, kw, d).0;
    let s0 = skip_newlines(
        cs,
        match b {
            Some(x) => x,
            None => d,
        },
    );
    &&& (background is Some) == (b is Some)
    &&& (background matches Some(bg) ==> background_ok(cs, kw, bg) && keyword_found(
        cs,
        kw.background,
        skip_blanks(cs, skip_comments(cs, d)),
        bg.span,
        bg.keyword@,
    ))
    &&& scenarios_ok(cs, kw, scenarios)
    &&& scenarios_at_marks(cs, kw, scenarios, scenario_marks(cs, kw, s0))
}

/// Where the scenarios after a description ending at `d` end.
pub open spec fn scenarios_after(cs: Seq<char>, kw: KeywordWords, d: int) -> int {
    let b = background_at(cs, kw, d).0;
    let s0 = skip_newlines(
        cs,
        match b {
            Some(x) => x,
            None => d,
        },
    );
    scenarios_end(cs, kw, s0).0
}

/// A rule at its place, with the background and scenarios that follow its
/// description.
pub open spec fn rule_ok(cs: Seq<char>, kw: KeywordWords, r: Rule) -> bool {
    let e = start_index(cs, r.span) + r.keyword@.len();
    let d = description_end(cs, ex_rule(kw), header_end(cs, e, true).unwrap());
    &&& header_ok(cs, r.span, r.position, r.keyword@, r.name@)
    &&& opt_view(r.description) == description_of(cs, ex_rule(kw), header_end(cs, e, true).unwrap())
    &&& background_then_scenarios(cs, kw, d, r.background, r.scenarios@)
    &&& r.span.end == byte_offset(cs, skip_newlines(cs, scenarios_after(cs, kw, d)))
}

/// Every node of `f` starts with its keyword where its span and position say
/// in `cs`, with its name or value taken from that line; every list of nodes
/// (steps, examples, scenarios, rules) holds the nodes that start where the
/// grammar finds them, in order; every table holds the cells written at its
/// place and is rectangular; every step's type is one its keyword allows
/// under `kw`.
pub open spec fn feature_ok(cs: Seq<char>, kw: KeywordWords, f: Feature) -> bool {
    let e = start_index(cs, f.span) + f.keyword@.len();
    let d = description_end(cs, ex_feature(kw), header_end(cs, e, true).unwrap());
    &&& header_ok(cs, f.span, f.position, f.keyword@, f.name@)
    &&& opt_view(f.description) == description_of(cs, ex_feature(kw), header_end(cs, e, true).unwrap())
    &&& background_then_scenarios(cs, kw, d, f.background, f.scenarios@)
    &&& forall|k: int| 0 <= k < f.rules@.len() ==> rule_ok(cs, kw, #[trigger] f.rules@[k])
    &&& rules_at_marks(cs, kw, f.rules@, rule_marks(cs, kw, skip_newlines(cs, scenarios_after(cs, kw, d))))
    &&& f.span.end == byte_offset(cs, rules_end(cs, kw, skip_newlines(cs, scenarios_after(cs, kw, d))).0)
    &&& f.path is None
}

/// In every step list of a parsed feature, the first step's keyword is a
/// given, when or then keyword: no list opens with an and or but keyword that
/// is nothing else.
pub proof fn lemma_first_step_opens_with_type(cs: Seq<char>, kw: KeywordWords, f: Feature)
    requires
        feature_ok(cs, kw, f),
    ensures
        forall|i: int|
            0 <= i < f.scenarios@.len() && (#[trigger] f.scenarios@[i]).steps@.len() > 0
                ==> opens_with_type(kw, f.scenarios@[i].steps@),
        forall|i: int, j: int|
            0 <= i < f.rules@.len() && 0 <= j < f.rules@[i].scenarios@.len()
                && (#[trigger] f.rules@[i].scenarios@[j]).steps@.len() > 0 ==> opens_with_type(
                kw,
                f.rules@[i].scenarios@[j].steps@,
            ),
        f.background matches Some(b) ==> (b.steps@.len() > 0 ==> opens_with_type(kw, b.steps@)),
{
    assert forall|i: int|
        0 <= i < f.scenarios@.len() && (#[trigger] f.scenarios@[i]).steps@.len() > 0 implies opens_with_type(
        kw,
        f.scenarios@[i].steps@,
    ) by {
        assert(scenario_ok(cs, kw, f.scenarios@[i]));
        assert(step_kind_ok(kw, f.scenarios@[i].steps@, 0));
    };
    assert forall|i: int, j: int|
        0 <= i < f.rules@.len() && 0 <= j < f.rules@[i].scenarios@.len()
            && (#[trigger] f.rules@[i].scenarios@[j]).steps@.len() > 0 implies opens_with_type(
        kw,
        f.rules@[i].scenarios@[j].steps@,
    ) by {
        assert(rule_ok(cs, kw, f.rules@[i]));
        assert(scenario_ok(cs, kw, f.rules@[i].scenarios@[j]));
        assert(step_kind_ok(kw, f.rules@[i].scenarios@[j].steps@, 0));
    };
    if let Some(b) = f.background {
        if b.steps@.len() > 0 {
            assert(step_kind_ok(kw, b.steps@, 0));
        }
    }
}

/// The first of `steps` has a given, when or then keyword of `kw`.
pub open spec fn opens_with_type(kw: KeywordWords, steps: Seq<Step>) -> bool {
    ||| kw.given.contains(steps[0].keyword@)
    ||| kw.when.contains(steps[0].keyword@)
    ||| kw.then_.contains(steps[0].keyword@)
}

} // verus!
