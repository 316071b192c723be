use gherkin::{EnvError, Feature, GherkinEnv, StepType, TagOperation};

fn tag(s: &str) -> Box<TagOperation> {
    Box::new(TagOperation::Tag(s.to_string()))
}

#[test]
fn unsupported_language_directive_fails() {
    let input = "# language: fr\nFonctionnalité: Bonjour\n";
    let err = Feature::parse(input, GherkinEnv::default()).unwrap_err();
    assert_eq!(err.error, Some(EnvError::UnsupportedLanguage("fr".to_string())));
}

#[test]
fn tag_expression_precedence() {
    let op: TagOperation = "not (@a or @b) and (@c or not @d)".parse().unwrap();
    let expected = TagOperation::And(
        Box::new(TagOperation::Not(Box::new(TagOperation::Or(tag("a"), tag("b"))))),
        Box::new(TagOperation::Or(tag("c"), Box::new(TagOperation::Not(tag("d"))))),
    );
    assert_eq!(op, expected);
}

#[test]
fn tag_expression_or_binds_loosest() {
    let op: TagOperation = "@a or @b and @c or not @d".parse().unwrap();
    let expected = TagOperation::Or(
        Box::new(TagOperation::Or(
            tag("a"),
            Box::new(TagOperation::And(tag("b"), tag("c"))),
        )),
        Box::new(TagOperation::Not(tag("d"))),
    );
    assert_eq!(op, expected);
}

#[test]
fn tag_expression_escapes() {
    let op: TagOperation = "@bar\\)".parse().unwrap();
    assert_eq!(op, TagOperation::Tag("bar)".to_string()));
    let op: TagOperation = "@bar\\\\\\)\\ \\(".parse().unwrap();
    assert_eq!(op, TagOperation::Tag("bar\\) (".to_string()));
    assert!("@bar\\".parse::<TagOperation>().is_err());
    assert!("@bar\\x".parse::<TagOperation>().is_err());
}

#[test]
fn tag_expression_errors() {
    let err = "@foo not @bar".parse::<TagOperation>().unwrap_err();
    assert_eq!(err.offset, 4);
    assert!("".parse::<TagOperation>().is_err());
    assert!("@".parse::<TagOperation>().is_err());
    assert!("(@a".parse::<TagOperation>().is_err());
    assert!("@a and".parse::<TagOperation>().is_err());
    let op: TagOperation = "(@a) ".parse().unwrap();
    assert_eq!(op, TagOperation::Tag("a".to_string()));
}

#[test]
fn basic_feature() {
    let input = "Feature: Basic functionality\nScenario: Hello\n  Given a step";
    let f = Feature::parse(input, GherkinEnv::default()).unwrap();
    assert_eq!(f.scenarios.len(), 1);
    assert_eq!(f.description, None);
    assert_eq!(f.scenarios[0].steps[0].ty, StepType::Given);
    assert_eq!(f.name, "Basic functionality");
    assert_eq!(f.keyword, "Feature");
    assert_eq!(f.scenarios[0].steps[0].keyword, "Given ");
    assert_eq!(f.scenarios[0].steps[0].value, "a step");
}

const RULE_WITH_BACKGROUND: &str = "
Feature: Overdue tasks
  Let users know when tasks are overdue, even when using other
  features of the app

  Rule: Users are notified about overdue tasks on first use of the day
    Background:
      Given I have overdue tasks

    Example: First use of the day
      Given I last used the app yesterday
      When I use the app
      Then I am notified about overdue tasks

    Example: Already used today
      Given I last used the app earlier today
      When I use the app
      Then I am not notified about overdue tasks
";

#[test]
fn rule_background_stays_apart() {
    let f = Feature::parse(RULE_WITH_BACKGROUND, GherkinEnv::default()).unwrap();
    assert_eq!(f.rules.len(), 1);
    let rule = &f.rules[0];
    assert!(rule.background.is_some());
    assert_eq!(rule.scenarios.len(), 2);
    let bg = rule.background.as_ref().unwrap();
    assert_eq!(bg.steps.len(), 1);
    assert_eq!(bg.steps[0].value, "I have overdue tasks");
    for s in &rule.scenarios {
        assert_eq!(s.steps.len(), 3);
        assert!(s.steps.iter().all(|st| st.value != "I have overdue tasks"));
    }
    assert_eq!(
        f.description,
        Some("Let users know when tasks are overdue, even when using other\nfeatures of the app".to_string())
    );
}

#[test]
fn ragged_table_fails() {
    let input = "Feature: Inconsistent cell counts

Scenario: minimalistic
    Given a data table with inconsistent cell count
      | foo | bar |
      | boz |
";
    let err = Feature::parse(input, GherkinEnv::default()).unwrap_err();
    let rows = vec![
        vec!["foo".to_string(), "bar".to_string()],
        vec!["boz".to_string()],
    ];
    assert_eq!(err.error, Some(EnvError::InconsistentCellCount(rows)));
}

#[test]
fn longer_row_is_not_truncated() {
    let input = "Feature: F
Scenario Outline: minimalistic
    Given the <what>

  Examples:
    | what       |
    | minimalism | extra |
";
    let err = Feature::parse(input, GherkinEnv::default()).unwrap_err();
    assert!(matches!(err.error, Some(EnvError::InconsistentCellCount(_))));
}

#[test]
fn rectangular_table() {
    let input = "Feature: F
Scenario: S
  Given a table
    | a | b |
    |  1 |2|
";
    let f = Feature::parse(input, GherkinEnv::default()).unwrap();
    let t = f.scenarios[0].steps[0].table().unwrap();
    assert_eq!(t.rows, vec![vec!["a", "b"], vec!["1", "2"]]);
    assert_eq!(t.row_width(), 2);
    assert_eq!(t.position.line, 4);
    assert_eq!(t.position.col, 5);
}

#[test]
fn leading_and_fails() {
    let input = "Feature: F\nScenario: S\n  And x\n";
    assert!(Feature::parse(input, GherkinEnv::default()).is_err());
    let input = "Feature: F\nScenario: S\n  But x\n";
    assert!(Feature::parse(input, GherkinEnv::default()).is_err());
}

#[test]
fn and_but_take_the_type_before() {
    let input = "Feature: F
Scenario: S
  Given a
  And b
  When c
  But d
  Then e
  And f
";
    let f = Feature::parse(input, GherkinEnv::default()).unwrap();
    let tys: Vec<StepType> = f.scenarios[0].steps.iter().map(|s| s.ty).collect();
    assert_eq!(
        tys,
        vec![
            StepType::Given,
            StepType::Given,
            StepType::When,
            StepType::When,
            StepType::Then,
            StepType::Then
        ]
    );
    assert_eq!(f.scenarios[0].steps[3].keyword, "But ");
}

#[test]
fn positions_count_newlines_and_bytes() {
    let input = "Feature: F\n\nScenario: S\n  Given a\n";
    let f = Feature::parse(input, GherkinEnv::default()).unwrap();
    assert_eq!((f.position.line, f.position.col), (1, 1));
    assert_eq!(f.span.start, 0);
    let s = &f.scenarios[0];
    assert_eq!((s.position.line, s.position.col), (3, 1));
    assert_eq!(s.span.start, 12);
    let st = &s.steps[0];
    assert_eq!((st.position.line, st.position.col), (4, 3));
    assert_eq!(st.span.start, 26);
    assert_eq!(st.span.end, 33);
}

#[test]
fn swedish_positions_use_bytes() {
    let input = "# language: sv\nEgenskap: Å\nScenario: S\n  Givet något\n  Så är det\n";
    let f = Feature::parse(input, GherkinEnv::default()).unwrap();
    assert_eq!(f.keyword, "Egenskap");
    assert_eq!(f.span.start, 15);
    let steps = &f.scenarios[0].steps;
    assert_eq!(steps[0].span.start, 42);
    assert_eq!(steps[1].span.start, 57);
    assert_eq!(steps[1].span.end, 68);
    assert_eq!((steps[1].position.line, steps[1].position.col), (5, 3));
    assert_eq!(steps[1].ty, StepType::Then);
    assert_eq!(steps[1].value, "är det");
}

#[test]
fn docstring_is_dedented_and_trimmed() {
    let input = "Feature: Meow\n\nScenario: Meow\n  Given meow\n    \"\"\"\n      Docstring life!\n        indented\n    \"\"\"\n";
    let f = Feature::parse(input, GherkinEnv::default()).unwrap();
    let d = f.scenarios[0].steps[0].docstring().unwrap();
    assert_eq!(d, "\nDocstring life!\n  indented");
}

#[test]
fn unknown_keyword_is_reported() {
    // Free text right under a header is description, so this line is not.
    let input = "Feature: F\nScenario: S\n  Given a\n  Foo bar\n";
    let err = Feature::parse(input, GherkinEnv::default()).unwrap_err();
    assert!(matches!(err.error, Some(EnvError::UnknownKeyword(_))));
    assert_eq!(err.position.line, 4);
    let f = Feature::parse("Feature: F\nScenario: S\n  Foo bar\n", GherkinEnv::default()).unwrap();
    assert_eq!(f.scenarios[0].description, Some("Foo bar".to_string()));
}

#[test]
fn syntax_error_position() {
    let err = Feature::parse("Nothing here\n", GherkinEnv::default()).unwrap_err();
    assert_eq!((err.position.line, err.position.col), (1, 1));
    assert!(err.expected.contains(&"feature"));
}

#[test]
fn formal_dialect() {
    let input = "# language: formal\nSection: S\nProof: P\n  Given a\n  * b\n";
    let f = Feature::parse(input, GherkinEnv::default()).unwrap();
    assert_eq!(f.keyword, "Section");
    assert_eq!(f.scenarios[0].keyword, "Proof");
    assert_eq!(f.scenarios[0].steps[1].keyword, "*");
    assert_eq!(f.scenarios[0].steps[1].ty, StepType::Given);
}

#[test]
fn tags_and_examples() {
    let input = "@f1 @f2
Feature: F
  @s
  Scenario Outline: O
    Given <x>

    @e
    Examples: named
      | x |
      | 1 |
";
    let f = Feature::parse(input, GherkinEnv::default()).unwrap();
    assert_eq!(f.tags, vec!["f1", "f2"]);
    let s = &f.scenarios[0];
    assert_eq!(s.keyword, "Scenario Outline");
    assert_eq!(s.tags, vec!["s"]);
    assert_eq!(s.examples[0].tags, vec!["e"]);
    assert_eq!(s.examples[0].name, Some("named".to_string()));
    assert_eq!(s.examples[0].table.as_ref().unwrap().rows.len(), 2);
}

#[test]
fn empty_input_fails() {
    assert!(Feature::parse("", GherkinEnv::default()).is_err());
}

#[test]
fn examples_keyword_ends_scenario_description() {
    let input = "# language: sv\nEgenskap: E\nScenariomall: S\n  Exempel:\n    | a |\n    | 1 |\n";
    let f = Feature::parse(input, GherkinEnv::default()).unwrap();
    let s = &f.scenarios[0];
    assert_eq!(s.description, None);
    assert_eq!(s.examples.len(), 1);
    assert_eq!(s.examples[0].keyword, "Exempel");
    assert_eq!(s.examples[0].table.as_ref().unwrap().rows.len(), 2);
    let input = "Feature: F\nScenario Outline: S\n  Examples:\n    | a |\n    | 1 |\n";
    let f = Feature::parse(input, GherkinEnv::default()).unwrap();
    assert_eq!(f.scenarios[0].description, None);
    assert_eq!(f.scenarios[0].examples.len(), 1);
}

#[test]
fn header_keyword_is_the_longest_word() {
    let f = Feature::parse("Feature: F\nScenario: Login: admin\n  Given a\n", GherkinEnv::default()).unwrap();
    assert_eq!(f.scenarios[0].keyword, "Scenario");
    assert_eq!(f.scenarios[0].name, "Login: admin");
}

#[test]
fn first_ragged_table_is_reported() {
    let input = "Feature: F
Scenario: S
  Given one
    | a | b |
    | c |
  When two
    | x |
    | y | z |
";
    let err = Feature::parse(input, GherkinEnv::default()).unwrap_err();
    let rows = vec![vec!["a".to_string(), "b".to_string()], vec!["c".to_string()]];
    assert_eq!(err.error, Some(EnvError::InconsistentCellCount(rows)));
}

#[test]
fn last_unknown_keyword_is_reported() {
    let input = "Feature: F\nScenario: S\n  Given a\n  Foo bar\n";
    let err = Feature::parse(input, GherkinEnv::default()).unwrap_err();
    assert_eq!(err.error, Some(EnvError::UnknownKeyword("Foo ".to_string())));
}
