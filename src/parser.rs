//! The parse environment: the state one document parse carries from rule to
//! rule (active keywords, the keyword just matched, recorded errors, and the
//! furthest point a rule failed at).

use vstd::prelude::*;
use crate::keywords::{Keywords, language_words, supported_language};
use crate::source::Source;
use crate::text::{chars_of, string_of};

verus! {

/// An error recorded while parsing a document.
#[derive(Debug, Clone, PartialEq, Eq)]
pub enum EnvError {
    /// A `# language:` directive named a language without keywords.
    UnsupportedLanguage(String),
    /// Text where a keyword was tried matched none; the text is attached.
    UnknownKeyword(String),
    /// A table whose rows differ in length; its rows are attached.
    InconsistentCellCount(Vec<Vec<String>>),
}

/// The characters of each word of a list of keywords.
pub open spec fn char_words(v: Seq<Vec<char>>) -> Seq<Seq<char>> {
    Seq::new(v.len(), |i: int| v[i]@)
}

/// `w` stands in `cs` at position `pos`.
pub open spec fn starts_with_at(cs: Seq<char>, pos: int, w: Seq<char>) -> bool {
    pos + w.len() <= cs.len() && cs.subrange(pos, pos + w.len()) == w
}

/// Word `i` of `ws` is the longest that stands at `pos`, and the first of the
/// longest.
pub open spec fn best_match(cs: Seq<char>, pos: int, ws: Seq<Seq<char>>, i: int) -> bool {
    &&& 0 <= i < ws.len()
    &&& starts_with_at(cs, pos, ws[i])
    &&& forall|j: int|
        0 <= j < ws.len() && #[trigger] starts_with_at(cs, pos, ws[j]) ==> ws[j].len() <= ws[i].len()
            && (j < i ==> ws[j].len() < ws[i].len())
}

/// The length of the longest word of `ws`.
pub open spec fn max_len(ws: Seq<Seq<char>>) -> nat
    decreases ws.len(),
{
    if ws.len() == 0 {
        0
    } else if max_len(ws.drop_last()) < ws.last().len() {
        ws.last().len()
    } else {
        max_len(ws.drop_last())
    }
}

/// The text recorded when no word of `ws` stands at `pos`: as many
/// characters as the longest word has (fewer at the end), if any.
pub open spec fn miss_text(cs: Seq<char>, pos: int, ws: Seq<Seq<char>>) -> Option<Seq<char>> {
    let end = if pos + max_len(ws) < cs.len() {
        pos + max_len(ws)
    } else {
        cs.len() as int
    };
    if end > pos {
        Some(cs.subrange(pos, end))
    } else {
        None
    }
}

/// The text of the unknown keyword recorded in `e`, if any.
pub open spec fn soft_text(e: GherkinEnv) -> Option<Seq<char>> {
    match e.soft_error() {
        Some(EnvError::UnknownKeyword(t)) => Some(t@),
        _ => None,
    }
}

/// State of one document parse.
pub struct GherkinEnv {
    keywords: Keywords,
    last_error: Option<EnvError>,
    fatal_error: Option<EnvError>,
    last_keyword: Option<String>,
    furthest: usize,
    expected: Vec<&'static str>,
}

impl GherkinEnv {
    /// The active keyword table.
    pub closed spec fn kw(&self) -> Keywords {
        self.keywords
    }

    /// The first fatal error recorded, if any.
    pub closed spec fn fatal(&self) -> Option<EnvError> {
        self.fatal_error
    }

    /// The keyword matched last and not yet taken.
    pub closed spec fn cached_keyword(&self) -> Option<String> {
        self.last_keyword
    }

    /// The last unknown keyword recorded, if any.
    pub closed spec fn soft_error(&self) -> Option<EnvError> {
        self.last_error
    }

    /// The furthest character position where a rule failed.
    pub closed spec fn furthest_failure(&self) -> usize {
        self.furthest
    }

    /// What would have been accepted at the furthest failure.
    pub closed spec fn expected_there(&self) -> Seq<&'static str> {
        self.expected@
    }

    /// A recorded `InconsistentCellCount` is fatal and holds rows of unequal
    /// length; the last error recorded is an unknown keyword.
    pub closed spec fn errors_ok(&self) -> bool {
        &&& (self.fatal_error matches Some(EnvError::InconsistentCellCount(rows))
            ==> !crate::rectangular(rows@))
        &&& (self.last_error matches Some(e) ==> e is UnknownKeyword)
    }

    /// What a rule may change: no keyword table, no fatal error once one is
    /// recorded, and the recorded errors stay well-formed.
    pub open spec fn keeps(&self, before: GherkinEnv) -> bool {
        &&& self.kw() == before.kw()
        &&& (before.fatal() is Some ==> self.fatal() == before.fatal())
        &&& (before.errors_ok() ==> self.errors_ok())
    }

    fn with_keywords(keywords: Keywords) -> (r: GherkinEnv)
        ensures
            r.kw() == keywords,
            r.fatal() is None,
            r.errors_ok(),
            r.soft_error() is None,
            r.cached_keyword() is None,
    {
        GherkinEnv {
            keywords,
            last_error: None,
            fatal_error: None,
            last_keyword: None,
            furthest: 0,
            expected: Vec::new(),
        }
    }

    /// An environment for documents in `language`.
    pub fn new(language: &str) -> (r: Result<GherkinEnv, EnvError>)
        ensures
            r is Ok <==> supported_language(language@),
            r matches Ok(e) ==> e.fatal() is None && e.errors_ok() && Some(e.kw().words())
                == language_words(language@) && e.soft_error() is None && e.cached_keyword() is None,
            r matches Err(e) ==> (e matches EnvError::UnsupportedLanguage(l) && l@ == language@),
    {
        match Keywords::get(language) {
            Some(k) => Ok(GherkinEnv::with_keywords(k)),
            None => {
                let cs = chars_of(language);
                let l = string_of(&cs, 0, cs.len());
                assert(cs@.subrange(0, cs@.len() as int) == cs@);
                Err(EnvError::UnsupportedLanguage(l))
            },
        }
    }

    /// Switches the keyword table to `language`; when that is not supported,
    /// records a fatal `UnsupportedLanguage` error and keeps the table.
    pub fn set_language(&mut self, language: &str) -> (r: Result<(), &'static str>)
        ensures
            final(self).cached_keyword() == old(self).cached_keyword(),
            final(self).soft_error() == old(self).soft_error(),
            r is Err ==> r == Err::<(), &'static str>("Unsupported language"),
            r is Ok <==> supported_language(language@),
            r is Ok ==> final(self).fatal() == old(self).fatal(),
            r is Ok ==> Some(final(self).kw().words()) == language_words(language@),
            old(self).errors_ok() ==> final(self).errors_ok(),
            r is Err ==> final(self).kw() == old(self).kw(),
            r is Err && old(self).fatal() is None ==> (final(self).fatal() matches Some(
                EnvError::UnsupportedLanguage(l),
            ) && l@ == language@),
            r is Err && old(self).fatal() is Some ==> final(self).fatal() == old(self).fatal(),
    {
        match Keywords::get(language) {
            Some(k) => {
                self.keywords = k;
                Ok(())
            },
            None => {
                let cs = chars_of(language);
                let l = string_of(&cs, 0, cs.len());
                assert(cs@.subrange(0, cs@.len() as int) == cs@);
                self.set_fatal_error(EnvError::UnsupportedLanguage(l));
                Err("Unsupported language")
            },
        }
    }

    /// Fails once a fatal error is recorded.
    pub(crate) fn assert_no_error(&self) -> (r: Result<(), &'static str>)
        ensures
            r is Err ==> r == Err::<(), &'static str>("fatal error"),
            r is Ok <==> self.fatal() is None,
    {
        if self.fatal_error.is_some() {
            return Err("fatal error");
        }
        Ok(())
    }

    /// Records `error` as fatal unless a fatal error is recorded already.
    pub(crate) fn set_fatal_error(&mut self, error: EnvError)
        ensures
            final(self).soft_error() == old(self).soft_error(),
            old(self).errors_ok() && (error matches EnvError::InconsistentCellCount(rows)
                ==> !crate::rectangular(rows@)) ==> final(self).errors_ok(),
            final(self).kw() == old(self).kw(),
            final(self).fatal() == if old(self).fatal() is Some {
                old(self).fatal()
            } else {
                Some(error)
            },
            final(self).cached_keyword() == old(self).cached_keyword(),
    {
        if self.fatal_error.is_some() {
            return;
        }
        self.fatal_error = Some(error);
    }

    pub(crate) fn set_last_error(&mut self, error: EnvError)
        ensures
            final(self).soft_error() == Some(error),
            old(self).errors_ok() && error is UnknownKeyword ==> final(self).errors_ok(),
            final(self).kw() == old(self).kw(),
            final(self).fatal() == old(self).fatal(),
            final(self).cached_keyword() == old(self).cached_keyword(),
    {
        self.last_error = Some(error);
    }

    /// The error to report for a failed parse: the fatal one, else the last.
    pub(crate) fn take_error(&mut self) -> (r: Option<EnvError>)
        ensures
            old(self).fatal() is Some ==> r == old(self).fatal(),
            old(self).fatal() is None ==> r == old(self).soft_error(),
            old(self).errors_ok() ==> !(r matches Some(EnvError::InconsistentCellCount(rows))
                && crate::rectangular(rows@)),
            old(self).errors_ok() && old(self).fatal() is None ==> (r is None || r matches Some(
                EnvError::UnknownKeyword(_),
            )),
    {
        if self.fatal_error.is_some() {
            self.fatal_error.take()
        } else {
            self.last_error.take()
        }
    }

    pub fn keywords(&self) -> (r: &Keywords)
        ensures
            *r == self.kw(),
    {
        &self.keywords
    }

    pub(crate) fn set_keyword(&mut self, kw: String)
        ensures
            final(self).soft_error() == old(self).soft_error(),
            old(self).errors_ok() ==> final(self).errors_ok(),
            final(self).kw() == old(self).kw(),
            final(self).fatal() == old(self).fatal(),
            final(self).cached_keyword() == Some(kw),
    {
        self.last_keyword = Some(kw);
    }

    pub(crate) fn clear_keyword(&mut self)
        ensures
            final(self).soft_error() == old(self).soft_error(),
            old(self).errors_ok() ==> final(self).errors_ok(),
            final(self).kw() == old(self).kw(),
            final(self).fatal() == old(self).fatal(),
            final(self).cached_keyword() is None,
    {
        self.last_keyword = None;
    }

    pub(crate) fn take_keyword(&mut self) -> (r: String)
        requires
            old(self).cached_keyword() is Some,
        ensures
            final(self).soft_error() == old(self).soft_error(),
            old(self).errors_ok() ==> final(self).errors_ok(),
            final(self).kw() == old(self).kw(),
            final(self).fatal() == old(self).fatal(),
            final(self).cached_keyword() is None,
            r == old(self).cached_keyword().unwrap(),
    {
        let r = self.last_keyword.take();
        r.unwrap()
    }

    /// Notes that `what` would have been accepted at character position
    /// `pos`, where a rule failed.
    pub(crate) fn expect(&mut self, pos: usize, what: &'static str)
        ensures
            final(self).soft_error() == old(self).soft_error(),
            old(self).errors_ok() ==> final(self).errors_ok(),
            final(self).kw() == old(self).kw(),
            final(self).fatal() == old(self).fatal(),
            final(self).cached_keyword() == old(self).cached_keyword(),
    {
        if pos > self.furthest {
            self.furthest = pos;
            self.expected = Vec::new();
            self.expected.push(what);
        } else if pos == self.furthest {
            let mut i: usize = 0;
            while i < self.expected.len()
                invariant
                    i <= self.expected@.len(),
                decreases self.expected@.len() - i,
            {
                if crate::text::str_eq(self.expected[i], what) {
                    return;
                }
                i += 1;
            }
            self.expected.push(what);
        }
    }

    /// The furthest failure point and what was expected there.
    pub(crate) fn failure(&self) -> (r: (usize, Vec<&'static str>))
        ensures
            r.0 == self.furthest_failure(),
            r.1@ == self.expected_there(),
    {
        let mut v: Vec<&'static str> = Vec::new();
        let mut i: usize = 0;
        while i < self.expected.len()
            invariant
                i <= self.expected@.len(),
                v@ == self.expected@.subrange(0, i as int),
            decreases self.expected@.len() - i,
        {
            v.push(self.expected[i]);
            assert(self.expected@.subrange(0, i + 1) == self.expected@.subrange(0, i as int).push(
                self.expected@[i as int],
            ));
            i += 1;
        }
        assert(self.expected@.subrange(0, self.expected@.len() as int) == self.expected@);
        (self.furthest, v)
    }

    /// Finds the longest word of `list` that stands at `pos` (the first such
    /// on a tie). On success the word is cached for `take_keyword`; on failure
    /// the cache is cleared and the text there is recorded as an unknown
    /// keyword.
    pub(crate) fn match_keyword(&mut self, src: &Source, pos: usize, list: &Vec<Vec<char>>) -> (r:
        Option<usize>)
        requires
            pos <= src.cs@.len(),
        ensures
            r is Some ==> final(self).soft_error() == old(self).soft_error(),
            r is None ==> soft_text(*final(self)) == match miss_text(
                src.cs@,
                pos as int,
                char_words(list@),
            ) {
                Some(t) => Some(t),
                None => soft_text(*old(self)),
            },
            r is None ==> (final(self).soft_error() == old(self).soft_error()
                || final(self).soft_error() matches Some(EnvError::UnknownKeyword(_))),
            old(self).errors_ok() ==> final(self).errors_ok(),
            final(self).kw() == old(self).kw(),
            final(self).fatal() == old(self).fatal(),
            r matches Some(i) ==> best_match(src.cs@, pos as int, char_words(list@), i as int)
                && (final(self).cached_keyword() matches Some(k) && k@ == list@[i as int]@),
            r is None ==> final(self).cached_keyword() is None && forall|j: int|
                0 <= j < list@.len() ==> !#[trigger] starts_with_at(
                    src.cs@,
                    pos as int,
                    char_words(list@)[j],
                ),
    {
        let ghost ws = char_words(list@);
        let mut best: Option<usize> = None;
        let mut best_len: usize = 0;
        let mut longest: usize = 0;
        let mut i: usize = 0;
        while i < list.len()
            invariant
                i <= list@.len(),
                ws == char_words(list@),
                pos <= src.cs@.len(),
                best matches Some(b) ==> b < i && best_match(
                    src.cs@,
                    pos as int,
                    ws.subrange(0, i as int),
                    b as int,
                ),
                best matches Some(b) ==> best_len == ws[b as int].len(),
                best is None ==> forall|j: int|
                    0 <= j < i ==> !#[trigger] starts_with_at(src.cs@, pos as int, ws[j]),
                longest == max_len(ws.subrange(0, i as int)),
            decreases list@.len() - i,
        {
            let w = &list[i];
            let m = prefix_at(&src.cs, pos, w);
            let ghost old_best = best;
            assert(ws[i as int] == w@);
            if m && (best.is_none() || w.len() > best_len) {
                best = Some(i);
                best_len = w.len();
            }
            if w.len() > longest {
                longest = w.len();
            }
            assert(ws.subrange(0, i + 1).drop_last() == ws.subrange(0, i as int));
            proof {
                let wsi = ws.subrange(0, i + 1);
                if let Some(b) = best {
                    assert forall|j: int|
                        0 <= j < wsi.len() && #[trigger] starts_with_at(
                            src.cs@,
                            pos as int,
                            wsi[j],
                        ) implies wsi[j].len() <= wsi[b as int].len() && (j < b ==> wsi[j].len()
                        < wsi[b as int].len()) by {
                        if j < i {
                            assert(wsi[j] == ws.subrange(0, i as int)[j]);
                            assert(starts_with_at(src.cs@, pos as int, ws[j]));
                            if b == i {
                                if let Some(b0) = old_best {
                                    assert(ws.subrange(0, i as int)[j] == ws[j]);
                                    assert(ws.subrange(0, i as int)[b0 as int] == ws[b0 as int]);
                                }
                            }
                        }
                    };
                }
            }
            i += 1;
        }
        assert(ws.subrange(0, list@.len() as int) == ws);
        match best {
            Some(b) => {
                let k = string_of(&list[b], 0, list[b].len());
                assert(list@[b as int]@.subrange(0, list@[b as int]@.len() as int) == list@[b as int]@);
                self.set_keyword(k);
            },
            None => {
                self.clear_keyword();
                let n = src.cs.len();
                let end = if longest < n - pos { pos + longest } else { n };
                if end > pos {
                    let t = string_of(&src.cs, pos, end);
                    self.set_last_error(EnvError::UnknownKeyword(t));
                }
                assert(miss_text(src.cs@, pos as int, ws) == if end > pos {
                    Some(src.cs@.subrange(pos as int, end as int))
                } else {
                    None
                });
            },
        }
        best
    }
}

/// Whether `w` stands in `cs` at `pos`.
pub fn prefix_at(cs: &Vec<char>, pos: usize, w: &Vec<char>) -> (r: bool)
    requires
        pos <= cs@.len(),
    ensures
        r == starts_with_at(cs@, pos as int, w@),
{
    if w.len() > cs.len() - pos {
        return false;
    }
    let mut i: usize = 0;
    while i < w.len()
        invariant
            pos <= cs@.len(),
            pos + w@.len() <= cs@.len(),
            cs@.len() == cs.len(),
            cs.len() <= usize::MAX,
            i <= w@.len(),
            forall|k: int| 0 <= k < i ==> cs@[pos + k] == w@[k],
        decreases w@.len() - i,
    {
        let k: usize = pos + i;
        if cs[k] != w[i] {
            assert(cs@.subrange(pos as int, pos + w@.len())[i as int] != w@[i as int]);
            return false;
        }
        i += 1;
    }
    assert(cs@.subrange(pos as int, pos + w@.len()) =~= w@);
    true
}

impl Default for GherkinEnv {
    /// An environment with the English keywords.
    fn default() -> (r: GherkinEnv)
        ensures
            r.fatal() is None,
            r.errors_ok(),
            r.kw().words() == crate::keywords::en_words(),
            r.soft_error() is None,
            r.cached_keyword() is None,
    {
        GherkinEnv::with_keywords(Keywords::default())
    }
}

} // verus!
