//! Keyword tables: for each supported language, the surface words of the
//! eleven keyword categories.

use vstd::prelude::*;
use crate::text::str_eq;

verus! {

/// The keyword synonyms of one language, one list per category.
#[derive(Debug, Clone)]
pub struct Keywords {
    pub feature: Vec<&'static str>,
    pub background: Vec<&'static str>,
    pub rule: Vec<&'static str>,
    pub scenario: Vec<&'static str>,
    pub scenario_outline: Vec<&'static str>,
    pub examples: Vec<&'static str>,
    pub given: Vec<&'static str>,
    pub when: Vec<&'static str>,
    pub then_: Vec<&'static str>,
    pub and: Vec<&'static str>,
    pub but: Vec<&'static str>,
}

/// The words of each keyword category of a table.
#[verifier::ext_equal]
pub struct KeywordWords {
    pub feature: Seq<Seq<char>>,
    pub background: Seq<Seq<char>>,
    pub rule: Seq<Seq<char>>,
    pub scenario: Seq<Seq<char>>,
    pub scenario_outline: Seq<Seq<char>>,
    pub examples: Seq<Seq<char>>,
    pub given: Seq<Seq<char>>,
    pub when: Seq<Seq<char>>,
    pub then_: Seq<Seq<char>>,
    pub and: Seq<Seq<char>>,
    pub but: Seq<Seq<char>>,
}

/// The keyword table of the language `code`, if it has one.
pub open spec fn language_words(code: Seq<char>) -> Option<KeywordWords> {
    if code == "en"@ {
        Some(en_words())
    } else if code == "sv"@ {
        Some(sv_words())
    } else if code == "de"@ {
        Some(de_words())
    } else if code == "formal"@ {
        Some(formal_words())
    } else {
        None
    }
}

/// The language codes that have a keyword table.
pub open spec fn supported_language(code: Seq<char>) -> bool {
    language_words(code) is Some
}

/// The characters of each word of a keyword list.
pub open spec fn words(v: Seq<&'static str>) -> Seq<Seq<char>> {
    Seq::new(v.len(), |i: int| v[i]@)
}

fn en() -> (r: Keywords)
    ensures
        r.words() == en_words(),
{
    let r = Keywords {
        feature: vec!["Feature", "Business Need", "Ability"],
        background: vec!["Background"],
        rule: vec!["Rule"],
        scenario: vec!["Example", "Scenario"],
        scenario_outline: vec!["Scenario Outline", "Scenario Template"],
        examples: vec!["Examples", "Scenarios"],
        given: vec!["* ", "Given "],
        when: vec!["* ", "When "],
        then_: vec!["* ", "Then "],
        and: vec!["* ", "And "],
        but: vec!["* ", "But "],
    };
    assert(r.words() =~= en_words());
    r
}

fn sv() -> (r: Keywords)
    ensures
        r.words() == sv_words(),
{
    let r = Keywords {
        feature: vec!["Egenskap"],
        background: vec!["Bakgrund"],
        rule: vec!["Regel"],
        scenario: vec!["Scenario"],
        scenario_outline: vec!["Abstrakt Scenario", "Scenariomall"],
        examples: vec!["Exempel"],
        given: vec!["* ", "Givet "],
        when: vec!["* ", "När "],
        then_: vec!["* ", "Så "],
        and: vec!["* ", "Och "],
        but: vec!["* ", "Men "],
    };
    assert(r.words() =~= sv_words());
    r
}

fn de() -> (r: Keywords)
    ensures
        r.words() == de_words(),
{
    let r = Keywords {
        feature: vec!["Funktionalität", "Funktion"],
        background: vec!["Grundlage", "Hintergrund", "Voraussetzungen", "Vorbedingungen"],
        rule: vec!["Rule", "Regel"],
        scenario: vec!["Beispiel", "Szenario"],
        scenario_outline: vec!["Szenariogrundriss", "Szenarien"],
        examples: vec!["Beispiele"],
        given: vec!["* ", "Angenommen ", "Gegeben sei ", "Gegeben seien "],
        when: vec!["* ", "Wenn "],
        then_: vec!["* ", "Dann "],
        and: vec!["* ", "Und "],
        but: vec!["* ", "Aber "],
    };
    assert(r.words() =~= de_words());
    r
}

/// A dialect for formal specification documents.
fn formal() -> (r: Keywords)
    ensures
        r.words() == formal_words(),
{
    let r = Keywords {
        feature: vec!["Section"],
        background: vec!["Context"],
        rule: vec!["Rule"],
        scenario: vec!["Proof", "Evidence"],
        scenario_outline: vec!["Demonstration"],
        examples: vec!["Examples"],
        given: vec!["Given"],
        when: vec!["When"],
        then_: vec!["Then"],
        and: vec!["*", "And"],
        but: vec!["But"],
    };
    assert(r.words() =~= formal_words());
    r
}

/// The en keyword table.
pub open spec fn en_words() -> KeywordWords {
    KeywordWords {
        feature: seq!["Feature"@, "Business Need"@, "Ability"@],
        background: seq!["Background"@],
        rule: seq!["Rule"@],
        scenario: seq!["Example"@, "Scenario"@],
        scenario_outline: seq!["Scenario Outline"@, "Scenario Template"@],
        examples: seq!["Examples"@, "Scenarios"@],
        given: seq!["* "@, "Given "@],
        when: seq!["* "@, "When "@],
        then_: seq!["* "@, "Then "@],
        and: seq!["* "@, "And "@],
        but: seq!["* "@, "But "@],
    }
}

/// The sv keyword table.
pub open spec fn sv_words() -> KeywordWords {
    KeywordWords {
        feature: seq!["Egenskap"@],
        background: seq!["Bakgrund"@],
        rule: seq!["Regel"@],
        scenario: seq!["Scenario"@],
        scenario_outline: seq!["Abstrakt Scenario"@, "Scenariomall"@],
        examples: seq!["Exempel"@],
        given: seq!["* "@, "Givet "@],
        when: seq!["* "@, "När "@],
        then_: seq!["* "@, "Så "@],
        and: seq!["* "@, "Och "@],
        but: seq!["* "@, "Men "@],
    }
}

/// The de keyword table.
pub open spec fn de_words() -> KeywordWords {
    KeywordWords {
        feature: seq!["Funktionalität"@, "Funktion"@],
        background: seq!["Grundlage"@, "Hintergrund"@, "Voraussetzungen"@, "Vorbedingungen"@],
        rule: seq!["Rule"@, "Regel"@],
        scenario: seq!["Beispiel"@, "Szenario"@],
        scenario_outline: seq!["Szenariogrundriss"@, "Szenarien"@],
        examples: seq!["Beispiele"@],
        given: seq!["* "@, "Angenommen "@, "Gegeben sei "@, "Gegeben seien "@],
        when: seq!["* "@, "Wenn "@],
        then_: seq!["* "@, "Dann "@],
        and: seq!["* "@, "Und "@],
        but: seq!["* "@, "Aber "@],
    }
}

/// The formal keyword table.
pub open spec fn formal_words() -> KeywordWords {
    KeywordWords {
        feature: seq!["Section"@],
        background: seq!["Context"@],
        rule: seq!["Rule"@],
        scenario: seq!["Proof"@, "Evidence"@],
        scenario_outline: seq!["Demonstration"@],
        examples: seq!["Examples"@],
        given: seq!["Given"@],
        when: seq!["When"@],
        then_: seq!["Then"@],
        and: seq!["*"@, "And"@],
        but: seq!["But"@],
    }
}

fn append_words(dst: &mut Vec<&'static str>, src: &Vec<&'static str>)
    ensures
        final(dst)@ == old(dst)@ + src@,
{
    let mut i: usize = 0;
    while i < src.len()
        invariant
            i <= src@.len(),
            dst@ == old(dst)@ + src@.subrange(0, i as int),
        decreases src@.len() - i,
    {
        dst.push(src[i]);
        assert(src@.subrange(0, i + 1) == src@.subrange(0, i as int).push(src@[i as int]));
        i += 1;
    }
    assert(src@.subrange(0, src@.len() as int) == src@);
}

impl Keywords {
    /// The words of each category.
    pub open spec fn words(&self) -> KeywordWords {
        KeywordWords {
            feature: words(self.feature@),
            background: words(self.background@),
            rule: words(self.rule@),
            scenario: words(self.scenario@),
            scenario_outline: words(self.scenario_outline@),
            examples: words(self.examples@),
            given: words(self.given@),
            when: words(self.when@),
            then_: words(self.then_@),
            and: words(self.and@),
            but: words(self.but@),
        }
    }

    /// The keyword table of the language `key`, if it is supported.
    pub fn get(key: &str) -> (r: Option<Keywords>)
        ensures
            r.is_some() == supported_language(key@),
            r matches Some(k) ==> Some(k.words()) == language_words(key@),
    {
        if str_eq(key, "en") {
            Some(en())
        } else if str_eq(key, "sv") {
            Some(sv())
        } else if str_eq(key, "de") {
            Some(de())
        } else if str_eq(key, "formal") {
            Some(formal())
        } else {
            None
        }
    }

    /// Every keyword of every category, in alphabetical order.
    pub fn all(&self) -> (r: Vec<&'static str>)
        ensures
            r@.to_multiset() == (self.feature@ + self.background@ + self.rule@ + self.scenario@
                + self.scenario_outline@ + self.examples@ + self.given@ + self.when@
                + self.then_@ + self.and@ + self.but@).to_multiset(),
            forall|i: int, j: int|
                0 <= i < j < r@.len() ==> crate::text::lex_le(r@[i]@, r@[j]@),
    {
        let mut v: Vec<&'static str> = Vec::new();
        append_words(&mut v, &self.feature);
        append_words(&mut v, &self.background);
        append_words(&mut v, &self.rule);
        append_words(&mut v, &self.scenario);
        append_words(&mut v, &self.scenario_outline);
        append_words(&mut v, &self.examples);
        append_words(&mut v, &self.given);
        append_words(&mut v, &self.when);
        append_words(&mut v, &self.then_);
        append_words(&mut v, &self.and);
        append_words(&mut v, &self.but);
        crate::text::sort_words(&mut v);
        v
    }

    /// Keywords that end a feature's description.
    pub fn excluded_feature(&self) -> (r: Vec<&'static str>)
        ensures
            r@ == self.background@ + self.rule@ + self.scenario@ + self.scenario_outline@,
    {
        let mut v: Vec<&'static str> = Vec::new();
        append_words(&mut v, &self.background);
        append_words(&mut v, &self.rule);
        append_words(&mut v, &self.scenario);
        append_words(&mut v, &self.scenario_outline);
        v
    }

    /// Keywords that end a rule's description.
    pub fn excluded_rule(&self) -> (r: Vec<&'static str>)
        ensures
            r@ == self.background@ + self.scenario@ + self.scenario_outline@,
    {
        let mut v: Vec<&'static str> = Vec::new();
        append_words(&mut v, &self.background);
        append_words(&mut v, &self.scenario);
        append_words(&mut v, &self.scenario_outline);
        v
    }

    /// The scenario and step keywords.
    fn scenario_and_steps(&self) -> (r: Vec<&'static str>)
        ensures
            r@ == self.scenario@ + self.scenario_outline@ + self.given@ + self.when@ + self.then_@
                + self.and@ + self.but@,
    {
        let mut v: Vec<&'static str> = Vec::new();
        append_words(&mut v, &self.scenario);
        append_words(&mut v, &self.scenario_outline);
        append_words(&mut v, &self.given);
        append_words(&mut v, &self.when);
        append_words(&mut v, &self.then_);
        append_words(&mut v, &self.and);
        append_words(&mut v, &self.but);
        v
    }

    /// Keywords that end a background's description.
    pub fn excluded_background(&self) -> (r: Vec<&'static str>)
        ensures
            r@ == self.scenario@ + self.scenario_outline@ + self.given@ + self.when@ + self.then_@
                + self.and@ + self.but@,
    {
        self.scenario_and_steps()
    }

    /// The scenario, examples and step keywords.
    fn scenario_enders(&self) -> (r: Vec<&'static str>)
        ensures
            r@ == self.scenario@ + self.scenario_outline@ + self.examples@ + self.given@ + self.when@
                + self.then_@ + self.and@ + self.but@,
    {
        let mut v: Vec<&'static str> = Vec::new();
        append_words(&mut v, &self.scenario);
        append_words(&mut v, &self.scenario_outline);
        append_words(&mut v, &self.examples);
        append_words(&mut v, &self.given);
        append_words(&mut v, &self.when);
        append_words(&mut v, &self.then_);
        append_words(&mut v, &self.and);
        append_words(&mut v, &self.but);
        v
    }

    /// Keywords that end a scenario's description: those of scenarios,
    /// examples and steps.
    pub fn excluded_scenario(&self) -> (r: Vec<&'static str>)
        ensures
            r@ == self.scenario@ + self.scenario_outline@ + self.examples@ + self.given@ + self.when@
                + self.then_@ + self.and@ + self.but@,
    {
        self.scenario_enders()
    }

    /// Keywords that end a scenario outline's description: those of
    /// scenarios, examples and steps.
    pub fn excluded_scenario_outline(&self) -> (r: Vec<&'static str>)
        ensures
            r@ == self.scenario@ + self.scenario_outline@ + self.examples@ + self.given@ + self.when@
                + self.then_@ + self.and@ + self.but@,
    {
        self.scenario_enders()
    }

    /// Keywords that end an examples block's description: those of a scenario,
    /// and the `|` that opens a table row.
    pub fn excluded_examples(&self) -> (r: Vec<&'static str>)
        ensures
            r@ == self.scenario@ + self.scenario_outline@ + self.given@ + self.when@ + self.then_@
                + self.and@ + self.but@ + seq!["|"],
    {
        let mut v = self.scenario_and_steps();
        v.push("|");
        v
    }
}

impl Default for Keywords {
    /// The English table, used when no language is requested.
    fn default() -> (r: Keywords)
        ensures
            r.words() == en_words(),
    {
        en()
    }
}

} // verus!
