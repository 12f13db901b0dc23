//! The rule engine: condition matching, action parsing, evaluation
//! planning, and outcome collection.
use vstd::prelude::*;

use crate::aerospace::{view_windows, WindowInfo, WindowInfoView};
use crate::config::{view_rules, Config, RuleType, RuleTypeView, RuleView};
use crate::text::{
    contains_seq, contains_str, dec_str_of, find_from, find_str, matches_at, matches_pat_at,
    parse_u32, spec_parse_u32, spec_strip, spec_trim, str_eq, string_eq_str, strip_char, trim,
    u32_to_string, view_strings,
};

verus! {

/// Why a condition string could not be evaluated.
#[derive(Debug, Clone, Copy, PartialEq, Eq, Structural)]
pub enum ConditionError {
    /// The condition splits into more than two parts around its operator.
    InvalidFormat,
    /// The field name before `=` or `>` is not recognised.
    UnknownField,
    /// The right-hand side of `>` is not an unsigned number in range.
    BadNumber,
    /// Neither ` = ` nor ` > ` occurs in the condition.
    UnsupportedFormat,
}

/// Splits `s` around its single occurrence of `pat`; `None` when `pat` does
/// not occur exactly once, exactly as collecting `str::split` into two parts
/// succeeds or fails.
pub open spec fn split_once_exact(s: Seq<char>, pat: Seq<char>) -> Option<(Seq<char>, Seq<char>)> {
    match find_from(s, pat, 0) {
        None => None,
        Some(i) => {
            let left = s.subrange(0, i);
            let right = s.subrange(i + pat.len(), s.len() as int);
            if find_from(right, pat, 0) is Some {
                None
            } else {
                Some((left, right))
            }
        },
    }
}

/// The value part of an equality condition: quotes of either kind stripped
/// from both ends, single quotes first.
pub open spec fn spec_unquote(v: Seq<char>) -> Seq<char> {
    spec_strip(spec_strip(v, '\''), '"')
}

/// Whether a condition holds of one window, or why it cannot be evaluated.
///
/// Two grammars, tried in this order:
/// `"<field> = '<value>'"` with `field` one of `app-id`/`app-name`
/// (application name equality), `window-title` (substring), `workspace`
/// (equality against the record's tagged workspace); and
/// `"<field> > <number>"` with `field` one of `window-id` (strictly greater)
/// and `window-width` (a fixed placeholder policy: true exactly when the
/// number is below 1200, since no real geometry is available).
pub open spec fn spec_matches_condition(cond: Seq<char>, w: WindowInfoView) -> Result<
    bool,
    ConditionError,
> {
    if find_from(cond, " = "@, 0) is Some {
        match split_once_exact(cond, " = "@) {
            None => Err(ConditionError::InvalidFormat),
            Some(parts) => {
                let field = spec_trim(parts.0);
                let value = spec_unquote(spec_trim(parts.1));
                if field == "app-id"@ || field == "app-name"@ {
                    Ok(w.app_name == value)
                } else if field == "window-title"@ {
                    Ok(contains_seq(w.window_title, value))
                } else if field == "workspace"@ {
                    Ok(w.workspace == value)
                } else {
                    Err(ConditionError::UnknownField)
                }
            },
        }
    } else if find_from(cond, " > "@, 0) is Some {
        match split_once_exact(cond, " > "@) {
            None => Err(ConditionError::InvalidFormat),
            Some(parts) => {
                let field = spec_trim(parts.0);
                match spec_parse_u32(spec_trim(parts.1)) {
                    None => Err(ConditionError::BadNumber),
                    Some(value) => {
                        if field == "window-width"@ {
                            Ok(value < 1200)
                        } else if field == "window-id"@ {
                            Ok(w.window_id > value)
                        } else {
                            Err(ConditionError::UnknownField)
                        }
                    },
                }
            },
        }
    } else {
        Err(ConditionError::UnsupportedFormat)
    }
}

/// Evaluates a rule condition against one window.
pub fn matches_condition(condition: &str, window: &WindowInfo) -> (r: Result<bool, ConditionError>)
    ensures
        r == spec_matches_condition(condition@, window@),
{
    let n = condition.unicode_len();
    match find_str(condition, " = ") {
        Some(i) => {
            proof {
                reveal_strlit(" = ");
                crate::text::lemma_find_from_le(condition@, " = "@, 0, i as int);
            }
            let left = condition.substring_char(0, i);
            let right = condition.substring_char(i + 3, n);
            match find_str(right, " = ") {
                Some(_) => Err(ConditionError::InvalidFormat),
                None => {
                    let field = trim(left);
                    let value = strip_char(strip_char(trim(right), '\''), '"');
                    if str_eq(field, "app-id") || str_eq(field, "app-name") {
                        Ok(string_eq_str(&window.app_name, value))
                    } else if str_eq(field, "window-title") {
                        Ok(contains_str(window.window_title.as_str(), value))
                    } else if str_eq(field, "workspace") {
                        Ok(string_eq_str(&window.workspace, value))
                    } else {
                        Err(ConditionError::UnknownField)
                    }
                },
            }
        },
        None => {
            match find_str(condition, " > ") {
                Some(i) => {
                    proof {
                        reveal_strlit(" > ");
                        crate::text::lemma_find_from_le(condition@, " > "@, 0, i as int);
                    }
                    let left = condition.substring_char(0, i);
                    let right = condition.substring_char(i + 3, n);
                    match find_str(right, " > ") {
                        Some(_) => Err(ConditionError::InvalidFormat),
                        None => {
                            let field = trim(left);
                            match parse_u32(trim(right)) {
                                None => Err(ConditionError::BadNumber),
                                Some(value) => {
                                    if str_eq(field, "window-width") {
                                        Ok(value < 1200)
                                    } else if str_eq(field, "window-id") {
                                        Ok(window.window_id > value)
                                    } else {
                                        Err(ConditionError::UnknownField)
                                    }
                                },
                            }
                        },
                    }
                },
                None => Err(ConditionError::UnsupportedFormat),
            }
        },
    }
}

/// Why a rule action or an empty-workspace command could not be carried out
/// before any external call was made.
#[derive(Debug, Clone, Copy, PartialEq, Eq, Structural)]
pub enum ActionError {
    /// The action string is neither `maximize` nor `move-to-workspace <t>`.
    UnknownAction,
    /// The command line could not be tokenized.
    ParseFailure,
    /// The command line tokenizes to no tokens at all.
    EmptyCommand,
}

/// A window rule's action, parsed.
#[derive(Debug, PartialEq)]
pub enum WindowAction {
    MoveToWorkspace(String),
    Maximize,
}

pub ghost enum WindowActionView {
    MoveToWorkspace(Seq<char>),
    Maximize,
}

impl View for WindowAction {
    type V = WindowActionView;

    open spec fn view(&self) -> WindowActionView {
        match self {
            WindowAction::MoveToWorkspace(t) => WindowActionView::MoveToWorkspace(t@),
            WindowAction::Maximize => WindowActionView::Maximize,
        }
    }
}

/// The action grammar: `"move-to-workspace <target>"` (the rest of the
/// string, spaces included, is the target) or exactly `"maximize"`.
pub open spec fn spec_parse_action(action: Seq<char>) -> Result<WindowActionView, ActionError> {
    let p = "move-to-workspace "@;
    if matches_at(action, p, 0) {
        Ok(WindowActionView::MoveToWorkspace(action.subrange(p.len() as int, action.len() as int)))
    } else if action == "maximize"@ {
        Ok(WindowActionView::Maximize)
    } else {
        Err(ActionError::UnknownAction)
    }
}

/// Parses a window rule's action string.
pub fn parse_action(action: &str) -> (r: Result<WindowAction, ActionError>)
    ensures
        match r {
            Ok(a) => spec_parse_action(action@) == Ok::<WindowActionView, ActionError>(a@),
            Err(e) => spec_parse_action(action@) == Err::<WindowActionView, ActionError>(e),
        },
{
    let n = action.unicode_len();
    let pre = "move-to-workspace ";
    let m = pre.unicode_len();
    if m <= n && matches_pat_at(action, pre, 0, n, m) {
        let target = action.substring_char(m, n);
        Ok(WindowAction::MoveToWorkspace(target.to_owned()))
    } else if str_eq(action, "maximize") {
        Ok(WindowAction::Maximize)
    } else {
        Err(ActionError::UnknownAction)
    }
}

/// What `shlex::split` returns for a command line: its shell-style tokens,
/// a function of the characters alone, or nothing on erroneous input.
pub uninterp spec fn shell_tokens_of(s: Seq<char>) -> Option<Seq<Seq<char>>>;

/// Relies on shlex::split: POSIX-shell-like tokenization of a command line,
/// a pure function of the input string; `None` exactly on erroneous input
/// (an unclosed quote or a trailing backslash).
#[verifier::external_body]
fn shlex_split(command: &str) -> (r: Option<Vec<String>>)
    ensures
        match r {
            Some(v) => shell_tokens_of(command@) == Some(view_strings(v@)),
            None => shell_tokens_of(command@) is None,
        },
{
    shlex::split(command)
}

/// One call into the outside world that a plan step asks for.
#[derive(Debug, PartialEq)]
pub enum ExternalCall {
    /// `aerospace move --window-id <id> --workspace <target>`.
    MoveWindow { window_id: u32, target: String },
    /// `aerospace fullscreen --window-id <id>`.
    FullscreenWindow { window_id: u32 },
    /// An arbitrary program with its arguments, for an empty workspace.
    RunCommand { program: String, args: Vec<String> },
}

pub ghost enum ExternalCallView {
    MoveWindow { window_id: u32, target: Seq<char> },
    FullscreenWindow { window_id: u32 },
    RunCommand { program: Seq<char>, args: Seq<Seq<char>> },
}

impl View for ExternalCall {
    type V = ExternalCallView;

    open spec fn view(&self) -> ExternalCallView {
        match self {
            ExternalCall::MoveWindow { window_id, target } => ExternalCallView::MoveWindow {
                window_id: *window_id,
                target: target@,
            },
            ExternalCall::FullscreenWindow { window_id } => ExternalCallView::FullscreenWindow {
                window_id: *window_id,
            },
            ExternalCall::RunCommand { program, args } => ExternalCallView::RunCommand {
                program: program@,
                args: view_strings(args@),
            },
        }
    }
}

/// What happens to an outcome when a step's external call fails.
#[derive(Debug, PartialEq)]
pub enum FailureHandling {
    /// Window rules: the failure is only logged, no outcome is recorded.
    Skip,
    /// Empty-workspace rules: the failure is recorded as `prefix` followed
    /// by the error's description.
    Record { prefix: String },
}

pub ghost enum FailureHandlingView {
    Skip,
    Record { prefix: Seq<char> },
}

impl View for FailureHandling {
    type V = FailureHandlingView;

    open spec fn view(&self) -> FailureHandlingView {
        match self {
            FailureHandling::Skip => FailureHandlingView::Skip,
            FailureHandling::Record { prefix } => FailureHandlingView::Record { prefix: prefix@ },
        }
    }
}

/// One entry of an evaluation plan, in rule-file order.
#[derive(Debug, PartialEq)]
pub enum PlannedStep {
    /// An external call to perform, with the outcome owed on success and
    /// the handling owed on failure.
    Execute { call: ExternalCall, success_outcome: String, on_failure: FailureHandling },
    /// An outcome recorded without any external call (a command that failed
    /// before it could run).
    ImmediateOutcome { outcome: String },
}

pub ghost enum PlannedStepView {
    Execute {
        call: ExternalCallView,
        success_outcome: Seq<char>,
        on_failure: FailureHandlingView,
    },
    ImmediateOutcome { outcome: Seq<char> },
}

impl View for PlannedStep {
    type V = PlannedStepView;

    open spec fn view(&self) -> PlannedStepView {
        match self {
            PlannedStep::Execute { call, success_outcome, on_failure } => PlannedStepView::Execute {
                call: call@,
                success_outcome: success_outcome@,
                on_failure: on_failure@,
            },
            PlannedStep::ImmediateOutcome { outcome } => PlannedStepView::ImmediateOutcome {
                outcome: outcome@,
            },
        }
    }
}

/// The views of a sequence of plan steps.
pub open spec fn view_steps(s: Seq<PlannedStep>) -> Seq<PlannedStepView> {
    s.map_values(|x: PlannedStep| x@)
}

/// How one external call of a plan ended: carried out, or failed with a
/// description of the failure.
#[derive(Debug, PartialEq)]
pub enum CallResult {
    Succeeded,
    Failed(String),
}

pub ghost enum CallResultView {
    Succeeded,
    Failed(Seq<char>),
}

impl View for CallResult {
    type V = CallResultView;

    open spec fn view(&self) -> CallResultView {
        match self {
            CallResult::Succeeded => CallResultView::Succeeded,
            CallResult::Failed(e) => CallResultView::Failed(e@),
        }
    }
}

/// The views of a sequence of call results.
pub open spec fn view_results(s: Seq<CallResult>) -> Seq<CallResultView> {
    s.map_values(|x: CallResult| x@)
}

/// The outcome line for a window rule applied to one window.
pub open spec fn spec_window_outcome(
    name: Seq<char>,
    app: Seq<char>,
    id: int,
    action: Seq<char>,
) -> Seq<char> {
    "Applied '"@ + name + "' to "@ + app + " (ID: "@ + dec_str_of(id) + "): "@ + action
}

fn window_outcome(name: &String, app: &String, id: u32, action: &String) -> (r: String)
    ensures
        r@ == spec_window_outcome(name@, app@, id as int, action@),
{
    let mut s = String::new();
    s.append("Applied '");
    s.append(name.as_str());
    s.append("' to ");
    s.append(app.as_str());
    s.append(" (ID: ");
    let ds = u32_to_string(id);
    s.append(ds.as_str());
    s.append("): ");
    s.append(action.as_str());
    proof {
        assert(s@ =~= spec_window_outcome(name@, app@, id as int, action@));
    }
    s
}

/// The outcome line for an empty-workspace rule whose command ran
/// successfully.
pub open spec fn spec_empty_ws_success(name: Seq<char>, command: Seq<char>) -> Seq<char> {
    "Executed empty workspace rule '"@ + name + "': "@ + command
}

fn empty_ws_success(name: &String, command: &String) -> (r: String)
    ensures
        r@ == spec_empty_ws_success(name@, command@),
{
    let mut s = String::new();
    s.append("Executed empty workspace rule '");
    s.append(name.as_str());
    s.append("': ");
    s.append(command.as_str());
    proof {
        assert(s@ =~= spec_empty_ws_success(name@, command@));
    }
    s
}

/// The prefix of the outcome line for an empty-workspace rule whose command
/// failed; the error's description follows it.
pub open spec fn spec_empty_ws_fail_prefix(name: Seq<char>) -> Seq<char> {
    "Failed to execute empty workspace command '"@ + name + "': "@
}

fn empty_ws_fail_prefix(name: &String) -> (r: String)
    ensures
        r@ == spec_empty_ws_fail_prefix(name@),
{
    let mut s = String::new();
    s.append("Failed to execute empty workspace command '");
    s.append(name.as_str());
    s.append("': ");
    proof {
        assert(s@ =~= spec_empty_ws_fail_prefix(name@));
    }
    s
}

/// The description of a command that could not be tokenized.
pub open spec fn spec_parse_fail_detail(command: Seq<char>) -> Seq<char> {
    "Failed to parse command: "@ + command
}

fn parse_fail_detail(command: &String) -> (r: String)
    ensures
        r@ == spec_parse_fail_detail(command@),
{
    let mut s = String::new();
    s.append("Failed to parse command: ");
    s.append(command.as_str());
    proof {
        assert(s@ =~= spec_parse_fail_detail(command@));
    }
    s
}

/// Tokenizing an empty-workspace command into the call to make:
/// no tokens at all is an error, the first token is the program, the rest
/// are its arguments.
pub open spec fn spec_plan_command(command: Seq<char>) -> Result<ExternalCallView, ActionError> {
    match shell_tokens_of(command) {
        None => Err(ActionError::ParseFailure),
        Some(tokens) => {
            if tokens.len() == 0 {
                Err(ActionError::EmptyCommand)
            } else {
                Ok(
                    ExternalCallView::RunCommand {
                        program: tokens[0],
                        args: tokens.drop_first(),
                    },
                )
            }
        },
    }
}

/// Turns an empty-workspace command line into the external call it asks for.
pub fn plan_command(command: &str) -> (r: Result<ExternalCall, ActionError>)
    ensures
        match r {
            Ok(c) => spec_plan_command(command@) == Ok::<ExternalCallView, ActionError>(c@),
            Err(e) => spec_plan_command(command@) == Err::<ExternalCallView, ActionError>(e),
        },
{
    match shlex_split(command) {
        None => Err(ActionError::ParseFailure),
        Some(parts) => {
            if parts.len() == 0 {
                Err(ActionError::EmptyCommand)
            } else {
                let program = parts[0].clone();
                let mut args: Vec<String> = Vec::new();
                let mut i: usize = 1;
                while i < parts.len()
                    invariant
                        1 <= i <= parts@.len(),
                        args@.len() == i - 1,
                        forall|j: int| 0 <= j < i - 1 ==> args@[j]@ == parts@[j + 1]@,
                    decreases parts@.len() - i,
                {
                    args.push(parts[i].clone());
                    i += 1;
                }
                proof {
                    assert(view_strings(args@) =~= view_strings(parts@).drop_first());
                }
                Ok(ExternalCall::RunCommand { program, args })
            }
        },
    }
}

/// The plan entries that one window rule contributes for one window: one
/// external call when the condition holds and the action parses, nothing
/// otherwise (an unmatched window, a condition error, an unknown action).
pub open spec fn spec_window_step(
    w: WindowInfoView,
    name: Seq<char>,
    condition: Seq<char>,
    action: Seq<char>,
) -> Seq<PlannedStepView> {
    if spec_matches_condition(condition, w) == Ok::<bool, ConditionError>(true) {
        match spec_parse_action(action) {
            Ok(WindowActionView::MoveToWorkspace(target)) => seq![
                PlannedStepView::Execute {
                    call: ExternalCallView::MoveWindow { window_id: w.window_id, target },
                    success_outcome: spec_window_outcome(name, w.app_name, w.window_id as int, action),
                    on_failure: FailureHandlingView::Skip,
                },
            ],
            Ok(WindowActionView::Maximize) => seq![
                PlannedStepView::Execute {
                    call: ExternalCallView::FullscreenWindow { window_id: w.window_id },
                    success_outcome: spec_window_outcome(name, w.app_name, w.window_id as int, action),
                    on_failure: FailureHandlingView::Skip,
                },
            ],
            Err(_) => seq![],
        }
    } else {
        seq![]
    }
}

/// The plan entries of one window rule over a window snapshot, in snapshot
/// order.
pub open spec fn spec_window_steps(
    windows: Seq<WindowInfoView>,
    name: Seq<char>,
    condition: Seq<char>,
    action: Seq<char>,
) -> Seq<PlannedStepView>
    decreases windows.len(),
{
    if windows.len() == 0 {
        seq![]
    } else {
        spec_window_steps(windows.drop_last(), name, condition, action) + spec_window_step(
            windows.last(),
            name,
            condition,
            action,
        )
    }
}

/// The plan entries of one empty-workspace rule: it fires exactly when the
/// snapshot is empty and the rule names the evaluated workspace, and then
/// contributes exactly one entry, a recorded failure when its command cannot
/// even be tokenized.
pub open spec fn spec_empty_ws_steps(
    workspace: Seq<char>,
    windows: Seq<WindowInfoView>,
    name: Seq<char>,
    rule_workspace: Seq<char>,
    command: Seq<char>,
) -> Seq<PlannedStepView> {
    if windows.len() == 0 && rule_workspace == workspace {
        match spec_plan_command(command) {
            Err(ActionError::ParseFailure) => seq![
                PlannedStepView::ImmediateOutcome {
                    outcome: spec_empty_ws_fail_prefix(name) + spec_parse_fail_detail(command),
                },
            ],
            Err(_) => seq![
                PlannedStepView::ImmediateOutcome {
                    outcome: spec_empty_ws_fail_prefix(name) + "Empty command"@,
                },
            ],
            Ok(call) => seq![
                PlannedStepView::Execute {
                    call,
                    success_outcome: spec_empty_ws_success(name, command),
                    on_failure: FailureHandlingView::Record {
                        prefix: spec_empty_ws_fail_prefix(name),
                    },
                },
            ],
        }
    } else {
        seq![]
    }
}

/// The plan entries of one rule.
pub open spec fn spec_rule_steps(
    workspace: Seq<char>,
    windows: Seq<WindowInfoView>,
    rule: RuleView,
) -> Seq<PlannedStepView> {
    match rule.rule_type {
        RuleTypeView::Window { condition, action } => spec_window_steps(
            windows,
            rule.name,
            condition,
            action,
        ),
        RuleTypeView::EmptyWorkspace { workspace: rw, command } => spec_empty_ws_steps(
            workspace,
            windows,
            rule.name,
            rw,
            command,
        ),
    }
}

/// The whole evaluation plan: every rule's entries, in rule-file order; no
/// rule is skipped and no failure aborts the walk.
pub open spec fn spec_plan(
    workspace: Seq<char>,
    windows: Seq<WindowInfoView>,
    rules: Seq<RuleView>,
) -> Seq<PlannedStepView>
    decreases rules.len(),
{
    if rules.len() == 0 {
        seq![]
    } else {
        spec_plan(workspace, windows, rules.drop_last()) + spec_rule_steps(
            workspace,
            windows,
            rules.last(),
        )
    }
}

proof fn lemma_plan_take_succ(
    workspace: Seq<char>,
    windows: Seq<WindowInfoView>,
    rules: Seq<RuleView>,
    i: int,
)
    requires
        0 <= i < rules.len(),
    ensures
        spec_plan(workspace, windows, rules.take(i + 1)) == spec_plan(
            workspace,
            windows,
            rules.take(i),
        ) + spec_rule_steps(workspace, windows, rules[i]),
{
    assert(rules.take(i + 1).drop_last() =~= rules.take(i));
    assert(rules.take(i + 1).last() == rules[i]);
}

proof fn lemma_window_steps_take_succ(
    windows: Seq<WindowInfoView>,
    name: Seq<char>,
    condition: Seq<char>,
    action: Seq<char>,
    j: int,
)
    requires
        0 <= j < windows.len(),
    ensures
        spec_window_steps(windows.take(j + 1), name, condition, action) == spec_window_steps(
            windows.take(j),
            name,
            condition,
            action,
        ) + spec_window_step(windows[j], name, condition, action),
{
    assert(windows.take(j + 1).drop_last() =~= windows.take(j));
    assert(windows.take(j + 1).last() == windows[j]);
}

/// Walks the rule set over a workspace snapshot and produces the plan that
/// evaluation must carry out, in rule-file order.
pub fn plan_rules(workspace: &str, windows: &Vec<WindowInfo>, config: &Config) -> (r: Vec<
    PlannedStep,
>)
    ensures
        view_steps(r@) == spec_plan(workspace@, view_windows(windows@), config@),
{
    let ghost vw = view_windows(windows@);
    let ghost vr = view_rules(config.rules@);
    let mut r: Vec<PlannedStep> = Vec::new();
    let mut i: usize = 0;
    while i < config.rules.len()
        invariant
            0 <= i <= config.rules@.len(),
            vw == view_windows(windows@),
            vr == view_rules(config.rules@),
            view_steps(r@) == spec_plan(workspace@, vw, vr.take(i as int)),
        decreases config.rules@.len() - i,
    {
        let ghost r_at_rule = r@;
        let ghost rv = vr[i as int];
        let rule = &config.rules[i];
        proof {
            assert(rule@ == rv);
        }
        match &rule.rule_type {
            RuleType::Window { condition, action } => {
                let ghost cv = condition@;
                let ghost av = action@;
                let mut j: usize = 0;
                while j < windows.len()
                    invariant
                        0 <= j <= windows@.len(),
                        vw == view_windows(windows@),
                        rule@ == rv,
                        rv.rule_type == (RuleTypeView::Window { condition: cv, action: av }),
                        condition@ == cv,
                        action@ == av,
                        view_steps(r@) == view_steps(r_at_rule) + spec_window_steps(
                            vw.take(j as int),
                            rv.name,
                            cv,
                            av,
                        ),
                    decreases windows@.len() - j,
                {
                    let ghost r_before = r@;
                    let ghost step_spec = spec_window_step(vw[j as int], rv.name, cv, av);
                    let w = &windows[j];
                    proof {
                        assert(w@ == vw[j as int]);
                    }
                    match matches_condition(condition.as_str(), w) {
                        Ok(true) => {
                            match parse_action(action.as_str()) {
                                Ok(WindowAction::MoveToWorkspace(target)) => {
                                    let outcome = window_outcome(
                                        &rule.name,
                                        &w.app_name,
                                        w.window_id,
                                        action,
                                    );
                                    r.push(
                                        PlannedStep::Execute {
                                            call: ExternalCall::MoveWindow {
                                                window_id: w.window_id,
                                                target,
                                            },
                                            success_outcome: outcome,
                                            on_failure: FailureHandling::Skip,
                                        },
                                    );
                                    proof {
                                        assert(r@.last()@ == step_spec[0]);
                                        assert(view_steps(r@) =~= view_steps(r_before)
                                            + step_spec);
                                    }
                                },
                                Ok(WindowAction::Maximize) => {
                                    let outcome = window_outcome(
                                        &rule.name,
                                        &w.app_name,
                                        w.window_id,
                                        action,
                                    );
                                    r.push(
                                        PlannedStep::Execute {
                                            call: ExternalCall::FullscreenWindow {
                                                window_id: w.window_id,
                                            },
                                            success_outcome: outcome,
                                            on_failure: FailureHandling::Skip,
                                        },
                                    );
                                    proof {
                                        assert(r@.last()@ == step_spec[0]);
                                        assert(view_steps(r@) =~= view_steps(r_before)
                                            + step_spec);
                                    }
                                },
                                Err(_) => {
                                    proof {
                                        assert(view_steps(r@) =~= view_steps(r_before)
                                            + step_spec);
                                    }
                                },
                            }
                        },
                        _ => {
                            proof {
                                assert(view_steps(r@) =~= view_steps(r_before) + step_spec);
                            }
                        },
                    }
                    proof {
                        lemma_window_steps_take_succ(vw, rv.name, cv, av, j as int);
                        assert(view_steps(r@) == view_steps(r_before) + step_spec);
                        assert(view_steps(r@) =~= view_steps(r_at_rule) + spec_window_steps(
                            vw.take(j + 1),
                            rv.name,
                            cv,
                            av,
                        ));
                    }
                    j += 1;
                }
                proof {
                    assert(vw.take(j as int) =~= vw);
                }
            },
            RuleType::EmptyWorkspace { workspace: rw, command } => {
                if windows.len() == 0 && str_eq(rw.as_str(), workspace) {
                    match plan_command(command.as_str()) {
                        Err(ActionError::ParseFailure) => {
                            let prefix = empty_ws_fail_prefix(&rule.name);
                            let detail = parse_fail_detail(command);
                            let outcome = prefix.concat(detail.as_str());
                            r.push(PlannedStep::ImmediateOutcome { outcome });
                        },
                        Err(_) => {
                            let prefix = empty_ws_fail_prefix(&rule.name);
                            let outcome = prefix.concat("Empty command");
                            r.push(PlannedStep::ImmediateOutcome { outcome });
                        },
                        Ok(call) => {
                            let success = empty_ws_success(&rule.name, command);
                            let prefix = empty_ws_fail_prefix(&rule.name);
                            r.push(
                                PlannedStep::Execute {
                                    call,
                                    success_outcome: success,
                                    on_failure: FailureHandling::Record { prefix },
                                },
                            );
                        },
                    }
                }
                proof {
                    assert(view_steps(r@) =~= view_steps(r_at_rule) + spec_rule_steps(
                        workspace@,
                        vw,
                        rv,
                    ));
                }
            },
        }
        proof {
            lemma_plan_take_succ(workspace@, vw, vr, i as int);
            assert(view_steps(r@) =~= spec_plan(workspace@, vw, vr.take(i + 1)));
        }
        i += 1;
    }
    proof {
        assert(vr.take(i as int) =~= vr);
    }
    r
}

/// The outcome that one plan step records for one call result: the success
/// line when the call went through; on failure, nothing for a window rule
/// and the recorded prefix followed by the error for an empty-workspace
/// rule; an immediate outcome stands regardless of the result.
pub open spec fn spec_outcome_of(step: PlannedStepView, result: CallResultView) -> Option<
    Seq<char>,
> {
    match step {
        PlannedStepView::Execute { call, success_outcome, on_failure } => match result {
            CallResultView::Succeeded => Some(success_outcome),
            CallResultView::Failed(err) => match on_failure {
                FailureHandlingView::Skip => None,
                FailureHandlingView::Record { prefix } => Some(prefix + err),
            },
        },
        PlannedStepView::ImmediateOutcome { outcome } => Some(outcome),
    }
}

/// The outcome lines of a whole plan, given one result per step, in order.
pub open spec fn spec_outcomes(
    steps: Seq<PlannedStepView>,
    results: Seq<CallResultView>,
) -> Seq<Seq<char>>
    decreases steps.len(),
{
    if steps.len() == 0 || results.len() == 0 {
        seq![]
    } else {
        let head = spec_outcomes(steps.drop_last(), results.drop_last());
        match spec_outcome_of(steps.last(), results.last()) {
            Some(o) => head + seq![o],
            None => head,
        }
    }
}

/// The outcome one step records for the result of its call.
pub fn outcome_of_step(step: &PlannedStep, result: &CallResult) -> (r: Option<String>)
    ensures
        match r {
            Some(s) => spec_outcome_of(step@, result@) == Some(s@),
            None => spec_outcome_of(step@, result@) is None,
        },
{
    match step {
        PlannedStep::Execute { call: _, success_outcome, on_failure } => match result {
            CallResult::Succeeded => Some(success_outcome.clone()),
            CallResult::Failed(err) => match on_failure {
                FailureHandling::Skip => None,
                FailureHandling::Record { prefix } => Some(prefix.clone().concat(err.as_str())),
            },
        },
        PlannedStep::ImmediateOutcome { outcome } => Some(outcome.clone()),
    }
}

proof fn lemma_outcomes_take_succ(
    steps: Seq<PlannedStepView>,
    results: Seq<CallResultView>,
    i: int,
)
    requires
        0 <= i < steps.len(),
        steps.len() == results.len(),
    ensures
        spec_outcomes(steps.take(i + 1), results.take(i + 1)) == (match spec_outcome_of(
            steps[i],
            results[i],
        ) {
            Some(o) => spec_outcomes(steps.take(i), results.take(i)) + seq![o],
            None => spec_outcomes(steps.take(i), results.take(i)),
        }),
{
    assert(steps.take(i + 1).drop_last() =~= steps.take(i));
    assert(results.take(i + 1).drop_last() =~= results.take(i));
    assert(steps.take(i + 1).last() == steps[i]);
    assert(results.take(i + 1).last() == results[i]);
}

/// Collects the outcome lines of an evaluation: one result per plan step,
/// walked in order, never failing as a whole.
pub fn evaluate_rules_for_workspace(plan: &Vec<PlannedStep>, results: &Vec<CallResult>) -> (r: Vec<
    String,
>)
    requires
        plan@.len() == results@.len(),
    ensures
        view_strings(r@) == spec_outcomes(view_steps(plan@), view_results(results@)),
{
    let ghost vs = view_steps(plan@);
    let ghost vres = view_results(results@);
    let mut r: Vec<String> = Vec::new();
    let mut i: usize = 0;
    while i < plan.len()
        invariant
            0 <= i <= plan@.len(),
            plan@.len() == results@.len(),
            vs == view_steps(plan@),
            vres == view_results(results@),
            view_strings(r@) == spec_outcomes(vs.take(i as int), vres.take(i as int)),
        decreases plan@.len() - i,
    {
        proof {
            assert(plan@[i as int]@ == vs[i as int]);
            assert(results@[i as int]@ == vres[i as int]);
        }
        match outcome_of_step(&plan[i], &results[i]) {
            Some(o) => {
                r.push(o);
            },
            None => {},
        }
        proof {
            lemma_outcomes_take_succ(vs, vres, i as int);
            assert(view_strings(r@) =~= spec_outcomes(vs.take(i + 1), vres.take(i + 1)));
        }
        i += 1;
    }
    proof {
        assert(vs.take(i as int) =~= vs);
        assert(vres.take(i as int) =~= vres);
    }
    r
}

/// An empty-workspace rule fires exactly when the evaluated workspace's
/// snapshot is empty and the rule names that workspace — never for a
/// non-empty snapshot, never for another workspace — and a firing rule
/// contributes exactly one plan entry.
pub proof fn lemma_empty_workspace_rule_fires_iff(
    workspace: Seq<char>,
    windows: Seq<WindowInfoView>,
    name: Seq<char>,
    rule_workspace: Seq<char>,
    command: Seq<char>,
)
    ensures
        spec_rule_steps(
            workspace,
            windows,
            RuleView {
                name,
                rule_type: RuleTypeView::EmptyWorkspace { workspace: rule_workspace, command },
            },
        ).len() == (if windows.len() == 0 && rule_workspace == workspace {
            1int
        } else {
            0int
        }),
{
}

/// A fired empty-workspace rule records exactly one outcome whatever its
/// command's fate: a command that cannot be tokenized, one that fails, and
/// one that succeeds are all recorded, unlike window-rule failures.
pub proof fn lemma_empty_workspace_outcome_always_recorded(
    workspace: Seq<char>,
    windows: Seq<WindowInfoView>,
    name: Seq<char>,
    command: Seq<char>,
    result: CallResultView,
)
    requires
        windows.len() == 0,
    ensures
        ({
            let steps = spec_rule_steps(
                workspace,
                windows,
                RuleView {
                    name,
                    rule_type: RuleTypeView::EmptyWorkspace { workspace, command },
                },
            );
            steps.len() == 1 && spec_outcome_of(steps[0], result) is Some
        }),
{
}

/// A window rule condition `app-name = 'Foo'` matches exactly the windows
/// whose application name is `Foo`: case-sensitive, whole and exact, never
/// a substring test.
pub proof fn lemma_app_name_condition_exact(w: WindowInfoView)
    ensures
        spec_matches_condition("app-name = 'Foo'"@, w) == Ok::<bool, ConditionError>(
            w.app_name == "Foo"@,
        ),
{
    reveal_strlit("app-name = 'Foo'");
    reveal_strlit(" = ");
    reveal_strlit("app-id");
    reveal_strlit("app-name");
    reveal_strlit("Foo");
    let c = "app-name = 'Foo'"@;
    let p = " = "@;
    assert(c.len() == 16 && p.len() == 3);
    assert forall|i: int| 0 <= i < 8 implies !matches_at(c, p, i) by {
        if matches_at(c, p, i) {
            assert(c.subrange(i, i + 3)[1] == c[i + 1]);
        }
    }
    assert(c.subrange(8, 11) =~= p);
    assert(matches_at(c, p, 8));
    crate::text::lemma_find_from_advance(c, p, 0, 8);
    assert(find_from(c, p, 0) == Some(8int));
    let left = c.subrange(0, 8);
    let right = c.subrange(11, 16);
    assert forall|i: int| !matches_at(right, p, i) by {
        if matches_at(right, p, i) {
            assert(right.subrange(i, i + 3)[1] == right[i + 1]);
        }
    }
    crate::text::lemma_find_from_advance(right, p, 0, 3);
    assert(find_from(right, p, 0) is None);
    assert(split_once_exact(c, p) == Some((left, right)));
    reveal_with_fuel(crate::text::drop_left_while, 3);
    reveal_with_fuel(crate::text::drop_right_while, 3);
    assert(spec_trim(left) == left);
    assert(spec_trim(right) == right);
    let stripped1 = crate::text::spec_strip(right, '\'');
    assert(right.drop_first() =~= seq!['F', 'o', 'o', '\'']);
    assert(crate::text::drop_left_while(right, crate::text::char_pred('\'')) == right.drop_first());
    assert(right.drop_first().drop_last() =~= seq!['F', 'o', 'o']);
    assert(stripped1 =~= seq!['F', 'o', 'o']);
    assert(crate::text::spec_strip(stripped1, '"') == stripped1);
    assert(spec_unquote(spec_trim(right)) =~= "Foo"@);
    assert(spec_trim(left) != "app-id"@);
    assert(spec_trim(left) == "app-name"@) by {
        assert(left =~= "app-name"@);
    }
}

/// A window rule condition `window-title = 'bar'` matches every window
/// whose title contains `bar` anywhere as a substring, not only titles
/// equal to it.
pub proof fn lemma_window_title_condition_substring(w: WindowInfoView)
    ensures
        spec_matches_condition("window-title = 'bar'"@, w) == Ok::<bool, ConditionError>(
            contains_seq(w.window_title, "bar"@),
        ),
{
    reveal_strlit("window-title = 'bar'");
    reveal_strlit(" = ");
    reveal_strlit("app-id");
    reveal_strlit("app-name");
    reveal_strlit("window-title");
    reveal_strlit("bar");
    let c = "window-title = 'bar'"@;
    let p = " = "@;
    assert(c.len() == 20 && p.len() == 3);
    assert forall|i: int| 0 <= i < 12 implies !matches_at(c, p, i) by {
        if matches_at(c, p, i) {
            assert(c.subrange(i, i + 3)[1] == c[i + 1]);
        }
    }
    assert(c.subrange(12, 15) =~= p);
    assert(matches_at(c, p, 12));
    crate::text::lemma_find_from_advance(c, p, 0, 12);
    assert(find_from(c, p, 0) == Some(12int));
    let left = c.subrange(0, 12);
    let right = c.subrange(15, 20);
    assert forall|i: int| !matches_at(right, p, i) by {
        if matches_at(right, p, i) {
            assert(right.subrange(i, i + 3)[1] == right[i + 1]);
        }
    }
    crate::text::lemma_find_from_advance(right, p, 0, 3);
    assert(find_from(right, p, 0) is None);
    assert(split_once_exact(c, p) == Some((left, right)));
    reveal_with_fuel(crate::text::drop_left_while, 3);
    reveal_with_fuel(crate::text::drop_right_while, 3);
    assert(spec_trim(left) == left);
    assert(spec_trim(right) == right);
    let stripped1 = crate::text::spec_strip(right, '\'');
    assert(right.drop_first() =~= seq!['b', 'a', 'r', '\'']);
    assert(crate::text::drop_left_while(right, crate::text::char_pred('\'')) == right.drop_first());
    assert(right.drop_first().drop_last() =~= seq!['b', 'a', 'r']);
    assert(stripped1 =~= seq!['b', 'a', 'r']);
    assert(crate::text::spec_strip(stripped1, '"') == stripped1);
    assert(spec_unquote(spec_trim(right)) =~= "bar"@);
    assert(spec_trim(left) != "app-id"@);
    assert(spec_trim(left) != "app-name"@);
    assert(spec_trim(left) == "window-title"@) by {
        assert(left =~= "window-title"@);
    }
}

/// A window rule condition `window-id > 5` matches exactly the windows
/// whose identifier is strictly greater than five; a window with
/// identifier five does not match.
pub proof fn lemma_window_id_condition_strict(w: WindowInfoView)
    ensures
        spec_matches_condition("window-id > 5"@, w) == Ok::<bool, ConditionError>(
            w.window_id > 5,
        ),
{
    reveal_strlit("window-id > 5");
    reveal_strlit(" = ");
    reveal_strlit(" > ");
    reveal_strlit("window-width");
    reveal_strlit("window-id");
    let c = "window-id > 5"@;
    let peq = " = "@;
    let pgt = " > "@;
    assert(c.len() == 13 && peq.len() == 3 && pgt.len() == 3);
    assert forall|i: int| !matches_at(c, peq, i) by {
        if matches_at(c, peq, i) {
            assert(c.subrange(i, i + 3)[1] == c[i + 1]);
        }
    }
    crate::text::lemma_find_from_advance(c, peq, 0, 11);
    assert(find_from(c, peq, 0) is None);
    assert forall|i: int| 0 <= i < 9 implies !matches_at(c, pgt, i) by {
        if matches_at(c, pgt, i) {
            assert(c.subrange(i, i + 3)[1] == c[i + 1]);
        }
    }
    assert(c.subrange(9, 12) =~= pgt);
    assert(matches_at(c, pgt, 9));
    crate::text::lemma_find_from_advance(c, pgt, 0, 9);
    assert(find_from(c, pgt, 0) == Some(9int));
    let left = c.subrange(0, 9);
    let right = c.subrange(12, 13);
    assert(find_from(right, pgt, 0) is None);
    assert(split_once_exact(c, pgt) == Some((left, right)));
    reveal_with_fuel(crate::text::drop_left_while, 2);
    reveal_with_fuel(crate::text::drop_right_while, 2);
    assert(spec_trim(left) == left);
    assert(spec_trim(right) == right);
    assert(crate::text::digits_of(right) == right);
    assert(crate::text::all_digits(right));
    reveal_with_fuel(crate::text::numeral_val, 2);
    assert(right.drop_last() =~= Seq::<char>::empty());
    assert(crate::text::numeral_val(right) == 5);
    assert(spec_parse_u32(spec_trim(right)) == Some(5u32));
    assert(spec_trim(left) != "window-width"@);
    assert(spec_trim(left) == "window-id"@) by {
        assert(left =~= "window-id"@);
    }
}

} // verus!
