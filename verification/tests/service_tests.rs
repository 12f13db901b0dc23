use aerospace_rules::aerospace::{
    list_windows, list_windows_in_workspace, list_workspaces, GatewayError, WindowInfo,
};
use aerospace_rules::config::{load_config, Config, Rule, RuleType};
use aerospace_rules::{
    config_refresh_step, dispatch_request, evaluation_failure_response, full_refresh_step,
    DispatchStep, Request, Response, ServiceState,
};

fn window(app: &str, id: u32, title: &str, workspace: &str) -> WindowInfo {
    WindowInfo {
        app_name: app.to_owned(),
        window_id: id,
        window_title: title.to_owned(),
        workspace: workspace.to_owned(),
    }
}

fn some_config() -> Config {
    Config {
        rules: vec![Rule {
            name: "R".to_owned(),
            rule_type: RuleType::Window {
                condition: "app-name = 'A'".to_owned(),
                action: "maximize".to_owned(),
            },
        }],
    }
}

#[test]
fn get_config_before_any_load_is_the_no_config_error() {
    let state = ServiceState::new(None);
    let step = dispatch_request(&Request::GetConfig, &state);
    assert_eq!(step, DispatchStep::Respond(Response::Error("no config loaded".to_owned())));
}

#[test]
fn get_config_after_load_returns_the_rules() {
    let mut state = ServiceState::new(None);
    config_refresh_step(&mut state, Some(some_config()));
    let step = dispatch_request(&Request::GetConfig, &state);
    assert_eq!(step, DispatchStep::Respond(Response::Config(some_config())));
}

#[test]
fn get_windows_returns_the_snapshot_and_never_fails() {
    let mut state = ServiceState::new(None);
    let step = dispatch_request(&Request::GetWindows, &state);
    assert_eq!(step, DispatchStep::Respond(Response::Windows(Vec::new())));

    full_refresh_step(&mut state, Some(vec![window("A", 1, "t", "1")]), None);
    let step = dispatch_request(&Request::GetWindows, &state);
    assert_eq!(
        step,
        DispatchStep::Respond(Response::Windows(vec![window("A", 1, "t", "1")]))
    );
}

#[test]
fn reload_asks_for_a_full_refresh() {
    let state = ServiceState::new(None);
    assert_eq!(dispatch_request(&Request::Reload, &state), DispatchStep::FullRefresh);
}

#[test]
fn evaluate_rules_needs_a_loaded_config() {
    let mut state = ServiceState::new(None);
    let req = Request::EvaluateRules { workspace: "3".to_owned() };
    assert_eq!(
        dispatch_request(&req, &state),
        DispatchStep::Respond(Response::Error("no config loaded".to_owned()))
    );

    config_refresh_step(&mut state, Some(some_config()));
    assert_eq!(
        dispatch_request(&req, &state),
        DispatchStep::QueryWorkspace { workspace: "3".to_owned() }
    );
}

#[test]
fn full_refresh_replaces_windows_and_rules_together() {
    let mut state = ServiceState::new(Some("/tmp/rules.toml".to_owned()));
    config_refresh_step(&mut state, Some(some_config()));

    full_refresh_step(&mut state, Some(vec![window("B", 2, "t", "2")]), None);
    assert_eq!(state.windows, vec![window("B", 2, "t", "2")]);
    assert!(state.config.is_none());
    assert_eq!(state.config_path, Some("/tmp/rules.toml".to_owned()));
}

#[test]
fn failed_gateway_query_leaves_state_untouched() {
    let mut state = ServiceState::new(None);
    full_refresh_step(&mut state, Some(vec![window("A", 1, "t", "1")]), Some(some_config()));

    full_refresh_step(&mut state, None, None);
    assert_eq!(state.windows, vec![window("A", 1, "t", "1")]);
    assert_eq!(state.config, Some(some_config()));
}

#[test]
fn config_only_refresh_keeps_the_window_snapshot() {
    let mut state = ServiceState::new(None);
    full_refresh_step(&mut state, Some(vec![window("A", 1, "t", "1")]), None);

    config_refresh_step(&mut state, Some(some_config()));
    assert_eq!(state.windows, vec![window("A", 1, "t", "1")]);
    assert_eq!(state.config, Some(some_config()));

    config_refresh_step(&mut state, None);
    assert!(state.config.is_none());
    assert_eq!(state.windows, vec![window("A", 1, "t", "1")]);
}

#[test]
fn evaluation_failure_response_carries_the_detail() {
    let r = evaluation_failure_response("gateway query failed");
    assert_eq!(r, Response::Error("rule evaluation failed: gateway query failed".to_owned()));
}

#[test]
fn list_workspaces_trims_lines_and_drops_blanks() {
    let out = list_workspaces("1\n2\n\n  3  \n");
    assert_eq!(out, vec!["1".to_owned(), "2".to_owned(), "3".to_owned()]);
    assert_eq!(list_workspaces(""), Vec::<String>::new());
    assert_eq!(list_workspaces("  \n \n"), Vec::<String>::new());
    assert_eq!(list_workspaces("solo"), vec!["solo".to_owned()]);
}

#[test]
fn list_windows_in_workspace_parses_and_tags_records() {
    let json = r#"[
        {"app-name": "Ghostty", "window-id": 42, "window-title": "shell"},
        {"app-name": "Editor", "window-id": 7, "window-title": "notes", "extra": true}
    ]"#;
    let windows = list_windows_in_workspace("9", json).expect("must parse");
    assert_eq!(
        windows,
        vec![window("Ghostty", 42, "shell", "9"), window("Editor", 7, "notes", "9")]
    );
}

#[test]
fn list_windows_in_workspace_rejects_malformed_output() {
    assert_eq!(
        list_windows_in_workspace("1", "not json"),
        Err(GatewayError::MalformedOutput)
    );
    assert_eq!(
        list_windows_in_workspace("1", "{\"app-name\": \"A\"}"),
        Err(GatewayError::MalformedOutput)
    );
    let missing_field = r#"[{"app-name": "A", "window-title": "t"}]"#;
    assert_eq!(
        list_windows_in_workspace("1", missing_field),
        Err(GatewayError::MalformedOutput)
    );
    let id_too_large = r#"[{"app-name": "A", "window-id": 4294967296, "window-title": "t"}]"#;
    assert_eq!(
        list_windows_in_workspace("1", id_too_large),
        Err(GatewayError::MalformedOutput)
    );
    let id_negative = r#"[{"app-name": "A", "window-id": -1, "window-title": "t"}]"#;
    assert_eq!(
        list_windows_in_workspace("1", id_negative),
        Err(GatewayError::MalformedOutput)
    );
    let id_fractional = r#"[{"app-name": "A", "window-id": 4.5, "window-title": "t"}]"#;
    assert_eq!(
        list_windows_in_workspace("1", id_fractional),
        Err(GatewayError::MalformedOutput)
    );
}

#[test]
fn list_windows_concatenates_in_workspace_order() {
    let queries = vec![
        (
            "1".to_owned(),
            r#"[{"app-name": "A", "window-id": 1, "window-title": "a"}]"#.to_owned(),
        ),
        ("2".to_owned(), "[]".to_owned()),
        (
            "3".to_owned(),
            r#"[{"app-name": "C", "window-id": 3, "window-title": "c"}]"#.to_owned(),
        ),
    ];
    let all = list_windows(&queries).expect("must parse");
    assert_eq!(all, vec![window("A", 1, "a", "1"), window("C", 3, "c", "3")]);
}

#[test]
fn list_windows_fails_fast_on_one_bad_listing() {
    let queries = vec![
        (
            "1".to_owned(),
            r#"[{"app-name": "A", "window-id": 1, "window-title": "a"}]"#.to_owned(),
        ),
        ("2".to_owned(), "garbage".to_owned()),
    ];
    assert_eq!(list_windows(&queries), Err(GatewayError::MalformedOutput));
}
