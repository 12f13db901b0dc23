use aerospace_rules::config::{load_config, Config, Rule, RuleType};

#[test]
fn test_load_config_from_valid_file() {
    let text = r#"
[[rules]]
name = "Test Rule"
type = "window"
condition = "app-name = 'TestApp'"
action = "maximize"

[[rules]]
name = "Another Rule"
type = "window"
condition = "workspace = '1'"
action = "move-to-workspace 2"
        "#;

    let config = load_config(text);

    assert!(config.is_some());
    let config = config.unwrap();
    assert_eq!(config.rules.len(), 2);

    assert_eq!(config.rules[0].name, "Test Rule");
    if let RuleType::Window { condition, action } = &config.rules[0].rule_type {
        assert_eq!(condition, "app-name = 'TestApp'");
        assert_eq!(action, "maximize");
    } else {
        panic!("Expected Window rule type");
    }

    assert_eq!(config.rules[1].name, "Another Rule");
    if let RuleType::Window { condition, action } = &config.rules[1].rule_type {
        assert_eq!(condition, "workspace = '1'");
        assert_eq!(action, "move-to-workspace 2");
    } else {
        panic!("Expected Window rule type");
    }
}

#[test]
fn test_load_config_from_invalid_toml() {
    let config = load_config("invalid toml content [[[\n");
    assert!(config.is_none());
}

#[test]
fn test_load_test_config_file() {
    let text = r#"
[[rules]]
name = "Test Rule"
type = "window"
condition = "app-name = 'Ghostty'"
action = "maximize"

[[rules]]
name = "Move IntelliJ"
type = "window"
condition = "app-name = 'IntelliJ IDEA'"
action = "move-to-workspace 5"

[[rules]]
name = "Terminal for Empty Workspace 99"
type = "empty-workspace"
workspace = "99"
command = "open -a Terminal"
"#;

    let config = load_config(text);

    if config.is_some() {
        let config = config.unwrap();
        assert_eq!(config.rules.len(), 3);

        assert_eq!(config.rules[0].name, "Test Rule");
        if let RuleType::Window { condition, action } = &config.rules[0].rule_type {
            assert_eq!(condition, "app-name = 'Ghostty'");
            assert_eq!(action, "maximize");
        } else {
            panic!("Expected Window rule type");
        }

        assert_eq!(config.rules[1].name, "Move IntelliJ");
        if let RuleType::Window { condition, action } = &config.rules[1].rule_type {
            assert_eq!(condition, "app-name = 'IntelliJ IDEA'");
            assert_eq!(action, "move-to-workspace 5");
        } else {
            panic!("Expected Window rule type");
        }

        assert_eq!(config.rules[2].name, "Terminal for Empty Workspace 99");
        if let RuleType::EmptyWorkspace { workspace, command } = &config.rules[2].rule_type {
            assert_eq!(workspace, "99");
            assert_eq!(command, "open -a Terminal");
        } else {
            panic!("Expected EmptyWorkspace rule type");
        }
    }
}

#[test]
fn test_config_with_empty_workspace_rule() {
    let text = r#"
[[rules]]
name = "Simple Rule"
type = "window"
condition = "app-name = 'TestApp'"
action = "maximize"

[[rules]]
name = "Empty Workspace Terminal"
type = "empty-workspace"
workspace = "5"
command = "open -a Terminal"
        "#;

    let config = load_config(text);

    assert!(config.is_some());
    let config = config.unwrap();
    assert_eq!(config.rules.len(), 2);

    if let RuleType::Window { condition, action } = &config.rules[0].rule_type {
        assert_eq!(condition, "app-name = 'TestApp'");
        assert_eq!(action, "maximize");
    } else {
        panic!("Expected Window rule type");
    }

    if let RuleType::EmptyWorkspace { workspace, command } = &config.rules[1].rule_type {
        assert_eq!(workspace, "5");
        assert_eq!(command, "open -a Terminal");
    } else {
        panic!("Expected EmptyWorkspace rule type");
    }
}

#[test]
fn load_config_empty_rules_array_is_empty_set() {
    let config = load_config("rules = []\n");
    assert!(config.is_some());
    assert_eq!(config.unwrap().rules.len(), 0);
}

#[test]
fn load_config_without_rules_key_is_none() {
    assert!(load_config("").is_none());
    assert!(load_config("title = \"nothing\"\n").is_none());
}

#[test]
fn load_config_unknown_rule_type_is_none() {
    let text = "[[rules]]\nname = \"X\"\ntype = \"bogus\"\n";
    assert!(load_config(text).is_none());
}

#[test]
fn load_config_missing_field_is_none() {
    let no_action = "[[rules]]\nname = \"X\"\ntype = \"window\"\ncondition = \"a = 'b'\"\n";
    assert!(load_config(no_action).is_none());
    let no_name = "[[rules]]\ntype = \"window\"\ncondition = \"a\"\naction = \"b\"\n";
    assert!(load_config(no_name).is_none());
}

#[test]
fn load_config_non_string_field_is_none() {
    let text = "[[rules]]\nname = 7\ntype = \"window\"\ncondition = \"a\"\naction = \"b\"\n";
    assert!(load_config(text).is_none());
}

#[test]
fn load_config_is_pure_function_of_text() {
    let text = "[[rules]]\nname = \"R\"\ntype = \"empty-workspace\"\nworkspace = \"9\"\ncommand = \"true\"\n";
    let first: Option<Config> = load_config(text);
    let second: Option<Config> = load_config(text);
    assert_eq!(first, second);
    let rules: Vec<Rule> = first.unwrap().rules;
    assert_eq!(rules.len(), 1);
    assert_eq!(rules[0].name, "R");
}
