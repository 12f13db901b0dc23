//! The rule configuration: data model and the loader that turns the text of
//! a rule file into a rule set.
use vstd::prelude::*;

use crate::text::str_eq;

verus! {

/// One rule's trigger and effect.
#[derive(Debug, PartialEq)]
pub enum RuleType {
    /// Applies to each window of the evaluated workspace.
    Window { condition: String, action: String },
    /// Applies when the evaluated workspace has no windows and is the one
    /// named here.
    EmptyWorkspace { workspace: String, command: String },
}

/// A named rule. The name is display-only and need not be unique.
#[derive(Debug, PartialEq)]
pub struct Rule {
    pub name: String,
    pub rule_type: RuleType,
}

/// An ordered rule set, loaded atomically from one file.
#[derive(Debug, PartialEq)]
pub struct Config {
    pub rules: Vec<Rule>,
}

pub ghost enum RuleTypeView {
    Window { condition: Seq<char>, action: Seq<char> },
    EmptyWorkspace { workspace: Seq<char>, command: Seq<char> },
}

pub ghost struct RuleView {
    pub name: Seq<char>,
    pub rule_type: RuleTypeView,
}

impl View for RuleType {
    type V = RuleTypeView;

    open spec fn view(&self) -> RuleTypeView {
        match self {
            RuleType::Window { condition, action } => RuleTypeView::Window {
                condition: condition@,
                action: action@,
            },
            RuleType::EmptyWorkspace { workspace, command } => RuleTypeView::EmptyWorkspace {
                workspace: workspace@,
                command: command@,
            },
        }
    }
}

impl View for Rule {
    type V = RuleView;

    open spec fn view(&self) -> RuleView {
        RuleView { name: self.name@, rule_type: self.rule_type@ }
    }
}

/// The views of a sequence of rules.
pub open spec fn view_rules(s: Seq<Rule>) -> Seq<RuleView> {
    s.map_values(|r: Rule| r@)
}

impl View for Config {
    type V = Seq<RuleView>;

    open spec fn view(&self) -> Seq<RuleView> {
        view_rules(self.rules@)
    }
}

impl Clone for RuleType {
    fn clone(&self) -> (r: Self)
        ensures
            r@ == self@,
    {
        match self {
            RuleType::Window { condition, action } => RuleType::Window {
                condition: condition.clone(),
                action: action.clone(),
            },
            RuleType::EmptyWorkspace { workspace, command } => RuleType::EmptyWorkspace {
                workspace: workspace.clone(),
                command: command.clone(),
            },
        }
    }
}

impl Clone for Rule {
    fn clone(&self) -> (r: Self)
        ensures
            r@ == self@,
    {
        Rule { name: self.name.clone(), rule_type: self.rule_type.clone() }
    }
}

impl Clone for Config {
    fn clone(&self) -> (r: Self)
        ensures
            r@ == self@,
    {
        let mut rules: Vec<Rule> = Vec::new();
        let mut i: usize = 0;
        while i < self.rules.len()
            invariant
                rules@.len() == i,
                0 <= i <= self.rules@.len(),
                forall|j: int| 0 <= j < i ==> rules@[j]@ == self.rules@[j]@,
            decreases self.rules@.len() - i,
        {
            rules.push(self.rules[i].clone());
            i += 1;
        }
        proof {
            assert(view_rules(rules@) =~= view_rules(self.rules@));
        }
        Config { rules }
    }
}

#[verifier::external_type_specification]
#[verifier::external_body]
pub struct ExTomlValue(toml::Value);

/// What parsing TOML text yields: the document value, a function of the
/// text alone, or nothing on a parse error.
pub uninterp spec fn toml_document_of(s: Seq<char>) -> Option<toml::Value>;

/// What a string-keyed lookup in a TOML value yields: the entry under the
/// key when the value is a table that has it, nothing otherwise.
pub uninterp spec fn toml_member_of(v: toml::Value, key: Seq<char>) -> Option<toml::Value>;

/// What a TOML array value holds: its items in order, or nothing when the
/// value is not an array.
pub uninterp spec fn toml_items_of(v: toml::Value) -> Option<Seq<toml::Value>>;

/// What a TOML string value holds: its text, or nothing when the value is
/// not a string.
pub uninterp spec fn toml_text_of(v: toml::Value) -> Option<Seq<char>>;

/// Relies on toml::from_str::<toml::Value>: parses TOML text into its
/// document value, a pure function of the text; an error for text that is
/// not valid TOML.
#[verifier::external_body]
fn toml_parse_document(s: &str) -> (r: Option<toml::Value>)
    ensures
        r == toml_document_of(s@),
{
    toml::from_str::<toml::Value>(s).ok()
}

/// Relies on toml::Value::get with a string index: looks the key up when
/// the value is a table, and yields nothing otherwise. The entry comes
/// back cloned.
#[verifier::external_body]
fn toml_member(v: &toml::Value, key: &str) -> (r: Option<toml::Value>)
    ensures
        r == toml_member_of(*v, key@),
{
    v.get(key).cloned()
}

/// Relies on toml::Value::as_array: the items of an array value, in order;
/// nothing when the value is not an array. The items come back cloned.
#[verifier::external_body]
fn toml_items(v: &toml::Value) -> (r: Option<Vec<toml::Value>>)
    ensures
        match r {
            Some(items) => toml_items_of(*v) == Some(items@),
            None => toml_items_of(*v) is None,
        },
{
    v.as_array().cloned()
}

/// Relies on toml::Value::as_str: the text of a string value; nothing when
/// the value is not a string.
#[verifier::external_body]
fn toml_text(v: &toml::Value) -> (r: Option<String>)
    ensures
        match r {
            Some(s) => toml_text_of(*v) == Some(s@),
            None => toml_text_of(*v) is None,
        },
{
    v.as_str().map(|s| s.to_owned())
}

/// The text under a string key of a rule entry, when both the key and the
/// string are there.
pub open spec fn spec_text_field(v: toml::Value, key: Seq<char>) -> Option<Seq<char>> {
    match toml_member_of(v, key) {
        None => None,
        Some(f) => toml_text_of(f),
    }
}

fn toml_text_field(v: &toml::Value, key: &str) -> (r: Option<String>)
    ensures
        match r {
            Some(s) => spec_text_field(*v, key@) == Some(s@),
            None => spec_text_field(*v, key@) is None,
        },
{
    match toml_member(v, key) {
        None => None,
        Some(f) => toml_text(&f),
    }
}

/// One rule entry of the configuration: a table with a string `name`, a
/// `type` discriminator of `window` or `empty-workspace`, and that type's
/// two string fields; anything else is a malformed entry.
pub open spec fn spec_parse_rule(v: toml::Value) -> Option<RuleView> {
    match (spec_text_field(v, "name"@), spec_text_field(v, "type"@)) {
        (Some(name), Some(ty)) => {
            if ty == "window"@ {
                match (spec_text_field(v, "condition"@), spec_text_field(v, "action"@)) {
                    (Some(condition), Some(action)) => Some(
                        RuleView { name, rule_type: RuleTypeView::Window { condition, action } },
                    ),
                    _ => None,
                }
            } else if ty == "empty-workspace"@ {
                match (spec_text_field(v, "workspace"@), spec_text_field(v, "command"@)) {
                    (Some(workspace), Some(command)) => Some(
                        RuleView {
                            name,
                            rule_type: RuleTypeView::EmptyWorkspace { workspace, command },
                        },
                    ),
                    _ => None,
                }
            } else {
                None
            }
        },
        _ => None,
    }
}

/// All rule entries, in file order; one malformed entry fails the whole
/// load, so a rule set is never partial.
pub open spec fn spec_parse_rules(items: Seq<toml::Value>) -> Option<Seq<RuleView>>
    decreases items.len(),
{
    if items.len() == 0 {
        Some(seq![])
    } else {
        match (spec_parse_rules(items.drop_last()), spec_parse_rule(items.last())) {
            (Some(rs), Some(r)) => Some(rs + seq![r]),
            _ => None,
        }
    }
}

/// What loading configuration text yields: the `rules` array of the
/// document, each entry parsed, or nothing on any failure.
pub open spec fn spec_load_config(text: Seq<char>) -> Option<Seq<RuleView>> {
    match toml_document_of(text) {
        None => None,
        Some(doc) => match toml_member_of(doc, "rules"@) {
            None => None,
            Some(rules_value) => match toml_items_of(rules_value) {
                None => None,
                Some(items) => spec_parse_rules(items),
            },
        },
    }
}

fn parse_rule_entry(v: &toml::Value) -> (r: Option<Rule>)
    ensures
        match r {
            Some(rule) => spec_parse_rule(*v) == Some(rule@),
            None => spec_parse_rule(*v) is None,
        },
{
    let name = match toml_text_field(v, "name") {
        None => return None,
        Some(s) => s,
    };
    let ty = match toml_text_field(v, "type") {
        None => return None,
        Some(s) => s,
    };
    if str_eq(ty.as_str(), "window") {
        let condition = match toml_text_field(v, "condition") {
            None => return None,
            Some(s) => s,
        };
        let action = match toml_text_field(v, "action") {
            None => return None,
            Some(s) => s,
        };
        Some(Rule { name, rule_type: RuleType::Window { condition, action } })
    } else if str_eq(ty.as_str(), "empty-workspace") {
        let workspace = match toml_text_field(v, "workspace") {
            None => return None,
            Some(s) => s,
        };
        let command = match toml_text_field(v, "command") {
            None => return None,
            Some(s) => s,
        };
        Some(Rule { name, rule_type: RuleType::EmptyWorkspace { workspace, command } })
    } else {
        None
    }
}

proof fn lemma_parse_rules_bad_item(items: Seq<toml::Value>, i: int)
    requires
        0 <= i < items.len(),
        spec_parse_rule(items[i]) is None,
    ensures
        spec_parse_rules(items) is None,
    decreases items.len(),
{
    if i == items.len() - 1 {
    } else {
        assert(items.drop_last()[i] == items[i]);
        lemma_parse_rules_bad_item(items.drop_last(), i);
    }
}

proof fn lemma_parse_rules_take_succ(items: Seq<toml::Value>, i: int)
    requires
        0 <= i < items.len(),
    ensures
        spec_parse_rules(items.take(i + 1)) == (match (
            spec_parse_rules(items.take(i)),
            spec_parse_rule(items[i]),
        ) {
            (Some(rs), Some(r)) => Some(rs + seq![r]),
            _ => None::<Seq<RuleView>>,
        }),
{
    assert(items.take(i + 1).drop_last() =~= items.take(i));
    assert(items.take(i + 1).last() == items[i]);
}

/// Loads a rule set from the text of a configuration file. Any failure —
/// text that is not TOML, no `rules` array, a malformed entry — yields
/// nothing: the caller then runs with no rules rather than failing.
pub fn load_config(text: &str) -> (r: Option<Config>)
    ensures
        match r {
            Some(c) => spec_load_config(text@) == Some(c@),
            None => spec_load_config(text@) is None,
        },
{
    let doc = match toml_parse_document(text) {
        None => return None,
        Some(d) => d,
    };
    let rules_value = match toml_member(&doc, "rules") {
        None => return None,
        Some(v) => v,
    };
    let items = match toml_items(&rules_value) {
        None => return None,
        Some(v) => v,
    };
    let mut rules: Vec<Rule> = Vec::new();
    let mut i: usize = 0;
    while i < items.len()
        invariant
            0 <= i <= items@.len(),
            toml_document_of(text@) == Some(doc),
            toml_member_of(doc, "rules"@) == Some(rules_value),
            toml_items_of(rules_value) == Some(items@),
            spec_parse_rules(items@.take(i as int)) == Some(view_rules(rules@)),
        decreases items@.len() - i,
    {
        let ghost rules_before = rules@;
        match parse_rule_entry(&items[i]) {
            None => {
                proof {
                    lemma_parse_rules_bad_item(items@, i as int);
                }
                return None;
            },
            Some(rule) => {
                rules.push(rule);
            },
        }
        proof {
            lemma_parse_rules_take_succ(items@, i as int);
            assert(view_rules(rules@) =~= view_rules(rules_before) + seq![rules@.last()@]);
        }
        i += 1;
    }
    proof {
        assert(items@.take(i as int) =~= items@);
    }
    Some(Config { rules })
}

/// Loading is a pure function of the file text: two loads of identical
/// text yield the same rule set, in content and in order.
pub proof fn lemma_load_config_deterministic(a: Seq<char>, b: Seq<char>)
    requires
        a == b,
    ensures
        spec_load_config(a) == spec_load_config(b),
{
}

} // verus!
