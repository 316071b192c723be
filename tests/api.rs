use gherkin::keywords::Keywords;
use gherkin::{is_language_supported, EnvError, Feature, GherkinEnv, LineCol, Span, Table};

#[test]
fn language_support() {
    assert!(is_language_supported("en"));
    assert!(is_language_supported("formal"));
    assert!(is_language_supported("sv"));
    assert!(!is_language_supported("fr"));
    assert!(!is_language_supported(""));
}

#[test]
fn env_new() {
    assert!(GherkinEnv::new("en").is_ok());
    match GherkinEnv::new("xx") {
        Err(EnvError::UnsupportedLanguage(l)) => assert_eq!(l, "xx"),
        _ => panic!("expected an unsupported language"),
    }
}

#[test]
fn env_set_language() {
    let mut env = GherkinEnv::default();
    assert!(env.set_language("de").is_ok());
    assert_eq!(env.keywords().feature[0], "Funktionalität");
    assert!(env.set_language("zz").is_err());
    assert_eq!(env.keywords().feature[0], "Funktionalität");
}

#[test]
fn keyword_lists() {
    let k = Keywords::get("formal").unwrap();
    assert_eq!(k.excluded_feature(), vec!["Context", "Rule", "Proof", "Evidence", "Demonstration"]);
    assert_eq!(k.excluded_rule(), vec!["Context", "Proof", "Evidence", "Demonstration"]);
    let ex = k.excluded_examples();
    assert_eq!(ex.last(), Some(&"|"));
    assert_eq!(ex.len(), k.excluded_background().len() + 1);
    assert_eq!(k.excluded_scenario(), k.excluded_scenario_outline());
    assert_eq!(
        k.excluded_scenario(),
        vec!["Proof", "Evidence", "Demonstration", "Examples", "Given", "When", "Then", "*", "And", "But"]
    );
    assert!(!k.excluded_background().contains(&"Examples"));
    let en = Keywords::get("en").unwrap();
    assert!(en.excluded_scenario().contains(&"Examples"));
    let all = k.all();
    assert_eq!(all.len(), 13);
    let mut sorted = all.clone();
    sorted.sort();
    assert_eq!(all, sorted);
    assert!(Keywords::get("nope").is_none());
}

#[test]
fn accessors() {
    let s = Span { start: 3, end: 9 };
    assert_eq!((s.start(), s.end()), (3, 9));
    let p = LineCol { line: 2, col: 5 };
    assert_eq!((p.line(), p.col()), (2, 5));
    let t = Table { rows: vec![], span: Span::default(), position: LineCol::default() };
    assert_eq!(t.row_width(), 0);
}

#[test]
fn features_order_by_name() {
    let a = Feature::parse("Feature: Apple\n", GherkinEnv::default()).unwrap();
    let b = Feature::parse("Feature: Banana\n  some text\n", GherkinEnv::default()).unwrap();
    let a2 = Feature::parse("@t\nFeature: Apple\nScenario: S\n", GherkinEnv::default()).unwrap();
    assert_eq!(a.cmp_by_name(&b), std::cmp::Ordering::Less);
    assert_eq!(b.cmp_by_name(&a), std::cmp::Ordering::Greater);
    assert_eq!(a.cmp_by_name(&a2), std::cmp::Ordering::Equal);
}

#[test]
fn default_keywords_are_english() {
    let k = Keywords::default();
    assert_eq!(k.feature, vec!["Feature", "Business Need", "Ability"]);
    assert_eq!(k.given, vec!["* ", "Given "]);
}

#[test]
fn step_as_text() {
    let f = Feature::parse("Feature: F\nScenario: S\n  Given a step  \n", GherkinEnv::default()).unwrap();
    assert_eq!(f.scenarios[0].steps[0].to_string(), "Given  a step");
}

#[test]
fn tag_operation_clones() {
    let op: gherkin::TagOperation = "not (@a or @b)".parse().unwrap();
    assert_eq!(op.clone(), op);
}
