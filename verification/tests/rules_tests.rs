use aerospace_rules::aerospace::WindowInfo;
use aerospace_rules::config::{load_config, Config, Rule, RuleType};
use aerospace_rules::rules::{
    evaluate_rules_for_workspace, matches_condition, parse_action, plan_command, plan_rules,
    ActionError, CallResult, ConditionError, ExternalCall, FailureHandling, PlannedStep,
    WindowAction,
};

fn window(app: &str, id: u32, title: &str, workspace: &str) -> WindowInfo {
    WindowInfo {
        app_name: app.to_owned(),
        window_id: id,
        window_title: title.to_owned(),
        workspace: workspace.to_owned(),
    }
}

#[test]
fn app_name_condition_is_exact_match() {
    let w = window("Foo", 1, "editor", "1");
    assert_eq!(matches_condition("app-name = 'Foo'", &w), Ok(true));
    let other = window("Foobar", 1, "editor", "1");
    assert_eq!(matches_condition("app-name = 'Foo'", &other), Ok(false));
    let cased = window("foo", 1, "editor", "1");
    assert_eq!(matches_condition("app-name = 'Foo'", &cased), Ok(false));
}

#[test]
fn app_id_is_an_alias_for_app_name() {
    let w = window("Foo", 1, "editor", "1");
    assert_eq!(matches_condition("app-id = 'Foo'", &w), Ok(true));
}

#[test]
fn quotes_are_optional_and_double_quotes_work() {
    let w = window("Foo", 1, "editor", "1");
    assert_eq!(matches_condition("app-name = Foo", &w), Ok(true));
    assert_eq!(matches_condition("app-name = \"Foo\"", &w), Ok(true));
}

#[test]
fn window_title_condition_is_substring_match() {
    let w = window("App", 1, "rebar build", "1");
    assert_eq!(matches_condition("window-title = 'bar'", &w), Ok(true));
    assert_eq!(matches_condition("window-title = 'bar'", &window("App", 1, "nothing", "1")), Ok(false));
    assert_eq!(matches_condition("window-title = 'bar'", &window("App", 1, "bar", "1")), Ok(true));
}

#[test]
fn workspace_condition_is_exact_match() {
    let w = window("App", 1, "t", "3");
    assert_eq!(matches_condition("workspace = '3'", &w), Ok(true));
    assert_eq!(matches_condition("workspace = '33'", &w), Ok(false));
}

#[test]
fn window_id_condition_is_strictly_greater() {
    let w5 = window("App", 5, "t", "1");
    let w6 = window("App", 6, "t", "1");
    assert_eq!(matches_condition("window-id > 5", &w5), Ok(false));
    assert_eq!(matches_condition("window-id > 5", &w6), Ok(true));
    let wmax = window("App", u32::MAX, "t", "1");
    assert_eq!(matches_condition("window-id > 4294967295", &wmax), Ok(false));
}

#[test]
fn window_width_condition_is_the_fixed_policy() {
    let w = window("App", 1, "t", "1");
    assert_eq!(matches_condition("window-width > 500", &w), Ok(true));
    assert_eq!(matches_condition("window-width > 1199", &w), Ok(true));
    assert_eq!(matches_condition("window-width > 1200", &w), Ok(false));
}

#[test]
fn condition_errors_are_classified() {
    let w = window("App", 1, "t", "1");
    assert_eq!(matches_condition("color = 'red'", &w), Err(ConditionError::UnknownField));
    assert_eq!(matches_condition("a = b = c", &w), Err(ConditionError::InvalidFormat));
    assert_eq!(matches_condition("window-id > abc", &w), Err(ConditionError::BadNumber));
    assert_eq!(matches_condition("window-id > 4294967296", &w), Err(ConditionError::BadNumber));
    assert_eq!(matches_condition("window-id > ", &w), Err(ConditionError::BadNumber));
    assert_eq!(matches_condition("height > 3", &w), Err(ConditionError::UnknownField));
    assert_eq!(matches_condition("nonsense", &w), Err(ConditionError::UnsupportedFormat));
}

#[test]
fn parse_action_recognises_the_two_actions() {
    assert_eq!(parse_action("maximize"), Ok(WindowAction::Maximize));
    assert_eq!(
        parse_action("move-to-workspace 2"),
        Ok(WindowAction::MoveToWorkspace("2".to_owned()))
    );
    assert_eq!(
        parse_action("move-to-workspace two words"),
        Ok(WindowAction::MoveToWorkspace("two words".to_owned()))
    );
    assert_eq!(parse_action("minimize"), Err(ActionError::UnknownAction));
    assert_eq!(parse_action("maximize "), Err(ActionError::UnknownAction));
}

#[test]
fn plan_command_tokenizes_like_a_shell() {
    match plan_command("open -a Terminal") {
        Ok(ExternalCall::RunCommand { program, args }) => {
            assert_eq!(program, "open");
            assert_eq!(args, vec!["-a".to_owned(), "Terminal".to_owned()]);
        }
        other => panic!("unexpected plan: {other:?}"),
    }
    match plan_command("open -a 'My App'") {
        Ok(ExternalCall::RunCommand { program, args }) => {
            assert_eq!(program, "open");
            assert_eq!(args, vec!["-a".to_owned(), "My App".to_owned()]);
        }
        other => panic!("unexpected plan: {other:?}"),
    }
    assert_eq!(plan_command("open 'unterminated"), Err(ActionError::ParseFailure));
    assert_eq!(plan_command(""), Err(ActionError::EmptyCommand));
    assert_eq!(plan_command("   "), Err(ActionError::EmptyCommand));
}

#[test]
fn maximize_rule_plans_fullscreen_and_reports_outcome() {
    let config = load_config(
        "[[rules]]\nname = \"Test Rule\"\ntype = \"window\"\ncondition = \"app-name = 'Ghostty'\"\naction = \"maximize\"\n",
    )
    .expect("config must load");
    let windows = vec![window("Ghostty", 42, "shell", "1")];
    let plan = plan_rules("1", &windows, &config);
    assert_eq!(plan.len(), 1);
    match &plan[0] {
        PlannedStep::Execute { call, success_outcome, on_failure } => {
            assert_eq!(*call, ExternalCall::FullscreenWindow { window_id: 42 });
            assert!(success_outcome.contains("Ghostty"));
            assert!(success_outcome.contains("42"));
            assert!(success_outcome.contains("maximize"));
            assert_eq!(*on_failure, FailureHandling::Skip);
        }
        other => panic!("unexpected step: {other:?}"),
    }
    let outcomes = evaluate_rules_for_workspace(&plan, &vec![CallResult::Succeeded]);
    assert_eq!(outcomes, vec!["Applied 'Test Rule' to Ghostty (ID: 42): maximize".to_owned()]);
}

#[test]
fn move_rule_plans_move_with_target() {
    let config = Config {
        rules: vec![Rule {
            name: "Move".to_owned(),
            rule_type: RuleType::Window {
                condition: "workspace = '1'".to_owned(),
                action: "move-to-workspace 5".to_owned(),
            },
        }],
    };
    let windows = vec![window("A", 7, "t", "1"), window("B", 8, "t", "1")];
    let plan = plan_rules("1", &windows, &config);
    assert_eq!(plan.len(), 2);
    match &plan[0] {
        PlannedStep::Execute { call, .. } => {
            assert_eq!(*call, ExternalCall::MoveWindow { window_id: 7, target: "5".to_owned() });
        }
        other => panic!("unexpected step: {other:?}"),
    }
    match &plan[1] {
        PlannedStep::Execute { call, .. } => {
            assert_eq!(*call, ExternalCall::MoveWindow { window_id: 8, target: "5".to_owned() });
        }
        other => panic!("unexpected step: {other:?}"),
    }
}

#[test]
fn failed_window_action_is_skipped_quietly() {
    let config = Config {
        rules: vec![Rule {
            name: "Max".to_owned(),
            rule_type: RuleType::Window {
                condition: "app-name = 'A'".to_owned(),
                action: "maximize".to_owned(),
            },
        }],
    };
    let windows = vec![window("A", 1, "t", "1")];
    let plan = plan_rules("1", &windows, &config);
    assert_eq!(plan.len(), 1);
    let outcomes = evaluate_rules_for_workspace(&plan, &vec![CallResult::Failed("no such window".to_owned())]);
    assert_eq!(outcomes, Vec::<String>::new());
}

#[test]
fn unknown_action_rule_contributes_nothing() {
    let config = Config {
        rules: vec![Rule {
            name: "Bad".to_owned(),
            rule_type: RuleType::Window {
                condition: "app-name = 'A'".to_owned(),
                action: "minimize".to_owned(),
            },
        }],
    };
    let windows = vec![window("A", 1, "t", "1")];
    let plan = plan_rules("1", &windows, &config);
    assert!(plan.is_empty());
}

#[test]
fn condition_error_skips_only_that_rule() {
    let config = Config {
        rules: vec![
            Rule {
                name: "Broken".to_owned(),
                rule_type: RuleType::Window {
                    condition: "nonsense".to_owned(),
                    action: "maximize".to_owned(),
                },
            },
            Rule {
                name: "Good".to_owned(),
                rule_type: RuleType::Window {
                    condition: "app-name = 'A'".to_owned(),
                    action: "maximize".to_owned(),
                },
            },
        ],
    };
    let windows = vec![window("A", 1, "t", "1")];
    let plan = plan_rules("1", &windows, &config);
    assert_eq!(plan.len(), 1);
    let outcomes = evaluate_rules_for_workspace(&plan, &vec![CallResult::Succeeded]);
    assert_eq!(outcomes, vec!["Applied 'Good' to A (ID: 1): maximize".to_owned()]);
}

fn empty_ws_config(workspace: &str, command: &str) -> Config {
    Config {
        rules: vec![Rule {
            name: "Terminal for Empty Workspace 99".to_owned(),
            rule_type: RuleType::EmptyWorkspace {
                workspace: workspace.to_owned(),
                command: command.to_owned(),
            },
        }],
    }
}

#[test]
fn empty_workspace_rule_fires_only_on_its_empty_workspace() {
    let config = empty_ws_config("99", "open -a Terminal");

    let plan = plan_rules("99", &Vec::new(), &config);
    assert_eq!(plan.len(), 1);

    let plan_other = plan_rules("1", &Vec::new(), &config);
    assert!(plan_other.is_empty());

    let occupied = vec![window("A", 1, "t", "99")];
    let plan_occupied = plan_rules("99", &occupied, &config);
    assert!(plan_occupied.is_empty());
}

#[test]
fn empty_workspace_rule_records_success_and_failure() {
    let config = empty_ws_config("99", "open -a Terminal");
    let plan = plan_rules("99", &Vec::new(), &config);
    assert_eq!(plan.len(), 1);

    let ok = evaluate_rules_for_workspace(&plan, &vec![CallResult::Succeeded]);
    assert_eq!(
        ok,
        vec!["Executed empty workspace rule 'Terminal for Empty Workspace 99': open -a Terminal"
            .to_owned()]
    );

    let failed = evaluate_rules_for_workspace(
        &plan,
        &vec![CallResult::Failed("exit code 1".to_owned())],
    );
    assert_eq!(
        failed,
        vec![
            "Failed to execute empty workspace command 'Terminal for Empty Workspace 99': exit code 1"
                .to_owned()
        ]
    );
}

#[test]
fn empty_workspace_rule_records_a_command_that_cannot_be_parsed() {
    let config = empty_ws_config("99", "open 'unterminated");
    let plan = plan_rules("99", &Vec::new(), &config);
    assert_eq!(plan.len(), 1);
    let outcomes = evaluate_rules_for_workspace(&plan, &vec![CallResult::Succeeded]);
    assert_eq!(
        outcomes,
        vec![
            "Failed to execute empty workspace command 'Terminal for Empty Workspace 99': Failed to parse command: open 'unterminated"
                .to_owned()
        ]
    );
}

#[test]
fn empty_workspace_rule_records_an_empty_command() {
    let config = empty_ws_config("99", "");
    let plan = plan_rules("99", &Vec::new(), &config);
    let outcomes = evaluate_rules_for_workspace(&plan, &vec![CallResult::Succeeded]);
    assert_eq!(
        outcomes,
        vec![
            "Failed to execute empty workspace command 'Terminal for Empty Workspace 99': Empty command"
                .to_owned()
        ]
    );
}

#[test]
fn evaluation_never_fails_and_keeps_rule_order() {
    let config = Config {
        rules: vec![
            Rule {
                name: "First".to_owned(),
                rule_type: RuleType::Window {
                    condition: "app-name = 'A'".to_owned(),
                    action: "maximize".to_owned(),
                },
            },
            Rule {
                name: "Second".to_owned(),
                rule_type: RuleType::Window {
                    condition: "window-id > 0".to_owned(),
                    action: "move-to-workspace 2".to_owned(),
                },
            },
        ],
    };
    let windows = vec![window("A", 1, "t", "1")];
    let plan = plan_rules("1", &windows, &config);
    assert_eq!(plan.len(), 2);
    let outcomes =
        evaluate_rules_for_workspace(&plan, &vec![CallResult::Succeeded, CallResult::Succeeded]);
    assert_eq!(
        outcomes,
        vec![
            "Applied 'First' to A (ID: 1): maximize".to_owned(),
            "Applied 'Second' to A (ID: 1): move-to-workspace 2".to_owned(),
        ]
    );

    let empty_plan = plan_rules("1", &Vec::new(), &config);
    assert!(empty_plan.is_empty());
    let no_outcomes = evaluate_rules_for_workspace(&empty_plan, &Vec::new());
    assert!(no_outcomes.is_empty());
}
