use gherkin::{Feature, GherkinEnv};

const FOO: &str = "# language: formal\r\n
@hot-stuff
Section: 4.2. The thing we care about
A description just jammed in here for no reason
@lol @a @rule     @with-spaces
Rule: All gubbins must be placed in the airlock

@bad_idea
Evidence: A gubbins in an airlock
    Given a gubbins
    \"\"\"
    That's a gubbins
    and that is
    and so is that
    \"\"\"
    When a gubbins is forced into this weird corner
    | a | b | c |
    | 1 | 2 | 3 |
    | 4 | 5 | 6 |
    Then a gubbins is proven to be in an airlock
";

// From Gherkin 6 documentation
const RULE_WITH_BACKGROUND: &str = "
Feature: Overdue tasks
  Let users know when tasks are overdue, even when using other
  features of the app

  Rule: Users are notified about overdue tasks on first use of the day
    Background:
      Given I have overdue tasks

    Example: First use of the day
      Given I last used the app yesterday
      When I use the app
      Then I am notified about overdue tasks

    Example: Already used today
      Given I last used the app earlier today
      When I use the app
      Then I am not notified about overdue tasks
";

const DOCSTRING: &str = r#"
Feature: Meow

Scenario: Meow
  Given meow
    """
    Docstring life!
    """
"#;

const DOCSTRING2: &str = r#"
Feature: Meow

Scenario: Meow
  Given meow
    ```
    Docstring life!
    ```
"#;

#[test]
fn smoke() {
    let env = GherkinEnv::default();
    assert!(Feature::parse(FOO, env).is_ok());
}

#[test]
fn rule_with_background() {
    let env = GherkinEnv::default();
    assert!(
        Feature::parse(RULE_WITH_BACKGROUND, env).is_ok(),
        "RULE_IN_BACKGROUND was not parsed correctly!"
    );
}

#[test]
fn docstring() {
    let env = GherkinEnv::default();
    assert!(
        Feature::parse(DOCSTRING, env).is_ok(),
        "DOCSTRING was not parsed correctly!"
    );
}

#[test]
fn docstring2() {
    let env = GherkinEnv::default();
    assert!(
        Feature::parse(DOCSTRING2, env).is_ok(),
        "DOCSTRING2 was not parsed correctly!"
    );
}

#[test]
fn feature_name_and_scenario() {
    let env = GherkinEnv::default();
    let input = r#"Feature: Basic functionality
        here's some text
        really
Scenario: Hello
  Given a step"#;
    let feature = Feature::parse(input, env).unwrap();
    println!("{:#?}", feature);
    assert_eq!(feature.scenarios.len(), 1);
    assert!(feature.description.is_some());
    assert!(feature.scenarios[0].steps[0].position.line != 0);
}

#[test]
fn correct_line_numbers() {
    let env = GherkinEnv::default();
    let input = r#"
# language: en
Feature: Basic functionality
        here's some text
     really
@tag
Scenario: Hello
  Given a step
  Then a step
@tag
Scenario: Hello
  Given a step

  And more

# comment
Rule: rule
    @tag
    Scenario Outline: Hello
        Given <step>
        """
        Doc String
        """

    Examples:
        | step |
        | 1    |
        | 2    |


    @tag
Rule: rule
    #comment
    Scenario: Hello
        Given a step
"#;
    let feature = Feature::parse(input, env).unwrap();
    assert_eq!(feature.scenarios.len(), 2);
    assert!(feature.description.is_some());
    assert_eq!(feature.position.line, 3);
    assert_eq!(feature.scenarios[0].position.line, 7);
    assert_eq!(feature.scenarios[0].steps[0].position.line, 8);
    assert_eq!(feature.scenarios[0].steps[1].position.line, 9);
    assert_eq!(feature.scenarios[1].position.line, 11);
    assert_eq!(feature.scenarios[1].steps[0].position.line, 12);
    assert_eq!(feature.scenarios[1].steps[1].position.line, 14);
    assert_eq!(feature.rules[0].position.line, 17);
    assert_eq!(feature.rules[0].position.line, 17);
    assert_eq!(feature.rules[0].scenarios[0].position.line, 19);
    assert_eq!(feature.rules[0].scenarios[0].steps[0].position.line, 20);
    assert_eq!(feature.rules[0].scenarios[0].examples[0].position.line, 25);
    assert_eq!(
        feature.rules[0].scenarios[0].examples[0]
            .table
            .as_ref()
            .unwrap()
            .position
            .line,
        26,
    );
    assert_eq!(
        feature.rules[0].scenarios[0].examples[0]
            .table
            .as_ref()
            .unwrap()
            .rows
            .len(),
        3,
    );
    assert_eq!(feature.rules[1].position.line, 32);
    assert_eq!(feature.rules[1].scenarios[0].position.line, 34);
    assert_eq!(feature.rules[1].scenarios[0].steps[0].position.line, 35);
}

#[test]
fn feature_only() {
    let env = GherkinEnv::default();
    let input = r#"Feature: Basic functionality
        "#;
    let feature = Feature::parse(input, env).unwrap();
    println!("{:#?}", feature);
    assert_eq!(feature.scenarios.len(), 0);
    assert!(feature.description.is_none());
}
