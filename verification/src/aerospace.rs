//! Window-manager gateway data: the window record and the parsers for the
//! gateway's command output.
use vstd::prelude::*;

use crate::text::{spec_trim, trim, view_strings};

verus! {

/// One live window, as reported by the window manager for one workspace.
#[derive(Debug, PartialEq)]
pub struct WindowInfo {
    pub app_name: String,
    pub window_id: u32,
    pub window_title: String,
    pub workspace: String,
}

/// The mathematical image of a window record.
pub ghost struct WindowInfoView {
    pub app_name: Seq<char>,
    pub window_id: u32,
    pub window_title: Seq<char>,
    pub workspace: Seq<char>,
}

impl View for WindowInfo {
    type V = WindowInfoView;

    open spec fn view(&self) -> WindowInfoView {
        WindowInfoView {
            app_name: self.app_name@,
            window_id: self.window_id,
            window_title: self.window_title@,
            workspace: self.workspace@,
        }
    }
}

impl Clone for WindowInfo {
    fn clone(&self) -> (r: Self)
        ensures
            r@ == self@,
    {
        WindowInfo {
            app_name: self.app_name.clone(),
            window_id: self.window_id,
            window_title: self.window_title.clone(),
            workspace: self.workspace.clone(),
        }
    }
}

/// The views of a sequence of window records.
pub open spec fn view_windows(s: Seq<WindowInfo>) -> Seq<WindowInfoView> {
    s.map_values(|w: WindowInfo| w@)
}

/// Why the library's share of a gateway query failed. Invocation failures
/// (a command that cannot run or exits nonzero) happen outside the library
/// and never reach these parsers.
#[derive(Debug, Clone, Copy, PartialEq, Eq, Structural)]
pub enum GatewayError {
    /// The command's output does not have the expected structure.
    MalformedOutput,
}

/// The position of the first line break in `s` at or after `from`, or the
/// length of `s` when there is none.
pub open spec fn next_newline(s: Seq<char>, from: int) -> int
    decreases s.len() - from,
{
    if from < 0 || from >= s.len() {
        s.len() as int
    } else if s[from] == '\n' {
        from
    } else {
        next_newline(s, from + 1)
    }
}

proof fn lemma_next_newline_at(s: Seq<char>, from: int, j: int)
    requires
        0 <= from <= j <= s.len(),
        forall|k: int| from <= k < j ==> s[k] != '\n',
        j == s.len() || s[j] == '\n',
    ensures
        next_newline(s, from) == j,
    decreases j - from,
{
    if from < j {
        lemma_next_newline_at(s, from + 1, j);
    }
}

/// The segments of `s` between line breaks, in order, as splitting on the
/// line-break character gives them.
pub open spec fn spec_lines(s: Seq<char>) -> Seq<Seq<char>>
    decreases s.len(),
{
    let i = next_newline(s, 0);
    if i < 0 || i >= s.len() {
        seq![s]
    } else {
        seq![s.subrange(0, i)] + spec_lines(s.subrange(i + 1, s.len() as int))
    }
}

/// Trimming as a function value, shared between specs and proofs.
pub open spec fn trim_fn() -> spec_fn(Seq<char>) -> Seq<char> {
    |l: Seq<char>| spec_trim(l)
}

/// Non-emptiness as a predicate value, shared between specs and proofs.
pub open spec fn nonempty_pred() -> spec_fn(Seq<char>) -> bool {
    |l: Seq<char>| l.len() > 0
}

/// What the workspace listing's line output denotes: each line trimmed,
/// blank lines dropped, order kept.
pub open spec fn spec_workspace_list(s: Seq<char>) -> Seq<Seq<char>> {
    spec_lines(s).map_values(trim_fn()).filter(nonempty_pred())
}

fn find_newline(s: &str, start: usize, n: usize) -> (j: usize)
    requires
        n == s@.len(),
        start <= n,
    ensures
        start <= j <= n,
        forall|k: int| start <= k < j ==> s@[k] != '\n',
        j == n || s@[j as int] == '\n',
{
    let mut j: usize = start;
    while j < n
        invariant
            n == s@.len(),
            start <= j <= n,
            forall|k: int| start <= k < j ==> s@[k] != '\n',
        decreases n - j,
    {
        if s.get_char(j) == '\n' {
            return j;
        }
        j += 1;
    }
    j
}

/// Parses the workspace listing's output: one workspace identifier per
/// line, trimmed, with blank lines dropped.
pub fn list_workspaces(output: &str) -> (r: Vec<String>)
    ensures
        view_strings(r@) == spec_workspace_list(output@),
{
    let n = output.unicode_len();
    let mut r: Vec<String> = Vec::new();
    let mut start: usize = 0;
    proof {
        assert(output@.subrange(0, n as int) =~= output@);
        assert(view_strings(r@) + spec_workspace_list(output@) =~= spec_workspace_list(output@));
    }
    while start <= n
        invariant
            n == output@.len(),
            0 <= start <= n + 1,
            start <= n ==> spec_workspace_list(output@) == view_strings(r@)
                + spec_workspace_list(output@.subrange(start as int, n as int)),
            start == n + 1 ==> spec_workspace_list(output@) == view_strings(r@),
        decreases n + 1 - start,
    {
        let ghost r_prev = r@;
        let ghost suffix = output@.subrange(start as int, n as int);
        let j = find_newline(output, start, n);
        let segment = output.substring_char(start, j);
        let ghost seg = segment@;
        proof {
            assert(forall|k: int| 0 <= k < j - start ==> suffix[k] == output@[k + start]);
            lemma_next_newline_at(suffix, 0, j - start as int);
            assert(suffix.subrange(0, j - start as int) =~= seg);
        }
        let t = trim(segment);
        if t.unicode_len() > 0 {
            r.push(t.to_owned());
        }
        proof {
            let lines = spec_lines(suffix);
            if j < n {
                assert(suffix.subrange(j - start + 1, suffix.len() as int) =~= output@.subrange(
                    j + 1,
                    n as int,
                ));
                assert(lines == seq![seg] + spec_lines(output@.subrange(j + 1, n as int)));
            } else {
                assert(seg =~= suffix);
                assert(lines == seq![suffix]);
            }
            reveal_with_fuel(Seq::<_>::filter, 2);
            let mapped_head = seq![spec_trim(seg)];
            if j < n {
                let rest_lines = spec_lines(output@.subrange(j + 1, n as int));
                assert(lines.map_values(trim_fn()) =~= mapped_head + rest_lines.map_values(
                    trim_fn(),
                ));
                Seq::<Seq<char>>::filter_distributes_over_add(
                    mapped_head,
                    rest_lines.map_values(trim_fn()),
                    nonempty_pred(),
                );
            } else {
                assert(lines.map_values(trim_fn()) =~= mapped_head);
            }
            assert(mapped_head.drop_last() =~= Seq::<Seq<char>>::empty());
            if spec_trim(seg).len() > 0 {
                assert(mapped_head.filter(nonempty_pred()) =~= seq![spec_trim(seg)]);
                assert(view_strings(r@) =~= view_strings(r_prev) + seq![spec_trim(seg)]);
            } else {
                assert(mapped_head.filter(nonempty_pred()) =~= Seq::<Seq<char>>::empty());
                assert(view_strings(r@) =~= view_strings(r_prev));
            }
        }
        if j == n {
            return r;
        }
        start = j + 1;
    }
    r
}

#[verifier::external_type_specification]
#[verifier::external_body]
pub struct ExJsonValue(serde_json::Value);

/// What parsing JSON text yields: the document value, a function of the
/// text alone, or nothing on a parse error.
pub uninterp spec fn json_document_of(s: Seq<char>) -> Option<serde_json::Value>;

/// What a JSON array value holds: its items in order, or nothing when the
/// value is not an array.
pub uninterp spec fn json_items_of(v: serde_json::Value) -> Option<Seq<serde_json::Value>>;

/// What a string-keyed lookup in a JSON value yields: the member under the
/// key when the value is an object that has it, nothing otherwise.
pub uninterp spec fn json_member_of(v: serde_json::Value, key: Seq<char>) -> Option<
    serde_json::Value,
>;

/// What a JSON string value holds: its text, or nothing when the value is
/// not a string.
pub uninterp spec fn json_text_of(v: serde_json::Value) -> Option<Seq<char>>;

/// What a JSON number value holds when it is an unsigned integer; nothing
/// for other numbers and other values.
pub uninterp spec fn json_uint_of(v: serde_json::Value) -> Option<u64>;

/// Relies on serde_json::from_str::<serde_json::Value>: parses JSON text
/// into its document value, a pure function of the text; an error for text
/// that is not valid JSON.
#[verifier::external_body]
fn json_parse_document(s: &str) -> (r: Option<serde_json::Value>)
    ensures
        r == json_document_of(s@),
{
    serde_json::from_str::<serde_json::Value>(s).ok()
}

/// Relies on serde_json::Value::as_array: the items of an array value, in
/// order; nothing when the value is not an array. The items come back
/// cloned.
#[verifier::external_body]
fn json_items(v: &serde_json::Value) -> (r: Option<Vec<serde_json::Value>>)
    ensures
        match r {
            Some(items) => json_items_of(*v) == Some(items@),
            None => json_items_of(*v) is None,
        },
{
    v.as_array().cloned()
}

/// Relies on serde_json::Value::get with a string index: looks the key up
/// when the value is an object, and yields nothing otherwise. The member
/// comes back cloned.
#[verifier::external_body]
fn json_member(v: &serde_json::Value, key: &str) -> (r: Option<serde_json::Value>)
    ensures
        r == json_member_of(*v, key@),
{
    v.get(key).cloned()
}

/// Relies on serde_json::Value::as_str: the text of a string value;
/// nothing when the value is not a string.
#[verifier::external_body]
fn json_text(v: &serde_json::Value) -> (r: Option<String>)
    ensures
        match r {
            Some(s) => json_text_of(*v) == Some(s@),
            None => json_text_of(*v) is None,
        },
{
    v.as_str().map(|s| s.to_owned())
}

/// Relies on serde_json::Value::as_u64: the value of a number that is an
/// unsigned 64-bit integer; nothing for other numbers and other values.
#[verifier::external_body]
fn json_uint(v: &serde_json::Value) -> (r: Option<u64>)
    ensures
        r == json_uint_of(*v),
{
    v.as_u64()
}

/// The text under a string key of a window entry, when both are there.
pub open spec fn spec_json_text_field(v: serde_json::Value, key: Seq<char>) -> Option<Seq<char>> {
    match json_member_of(v, key) {
        None => None,
        Some(f) => json_text_of(f),
    }
}

/// The unsigned number under a key of a window entry, when both are there.
pub open spec fn spec_json_uint_field(v: serde_json::Value, key: Seq<char>) -> Option<u64> {
    match json_member_of(v, key) {
        None => None,
        Some(f) => json_uint_of(f),
    }
}

fn json_text_field(v: &serde_json::Value, key: &str) -> (r: Option<String>)
    ensures
        match r {
            Some(s) => spec_json_text_field(*v, key@) == Some(s@),
            None => spec_json_text_field(*v, key@) is None,
        },
{
    match json_member(v, key) {
        None => None,
        Some(f) => json_text(&f),
    }
}

fn json_uint_field(v: &serde_json::Value, key: &str) -> (r: Option<u64>)
    ensures
        r == spec_json_uint_field(*v, key@),
{
    match json_member(v, key) {
        None => None,
        Some(f) => json_uint(&f),
    }
}

/// One element of the window listing: an object with a string `app-name`,
/// a `window-id` that fits an unsigned 32-bit integer, and a string
/// `window-title`; the workspace is the one the query asked about, never
/// taken from the reply. Anything else is malformed.
pub open spec fn spec_window_of_entry(v: serde_json::Value, workspace: Seq<char>) -> Option<
    WindowInfoView,
> {
    match (
        spec_json_text_field(v, "app-name"@),
        spec_json_uint_field(v, "window-id"@),
        spec_json_text_field(v, "window-title"@),
    ) {
        (Some(app_name), Some(id), Some(window_title)) => {
            if id <= u32::MAX as u64 {
                Some(
                    WindowInfoView {
                        app_name,
                        window_id: id as u32,
                        window_title,
                        workspace,
                    },
                )
            } else {
                None
            }
        },
        _ => None,
    }
}

/// Every element of the window listing, in order; one malformed element
/// fails the whole listing.
pub open spec fn spec_windows_of_items(
    items: Seq<serde_json::Value>,
    workspace: Seq<char>,
) -> Option<Seq<WindowInfoView>>
    decreases items.len(),
{
    if items.len() == 0 {
        Some(seq![])
    } else {
        match (
            spec_windows_of_items(items.drop_last(), workspace),
            spec_window_of_entry(items.last(), workspace),
        ) {
            (Some(ws), Some(w)) => Some(ws + seq![w]),
            _ => None,
        }
    }
}

/// What the window listing's JSON output denotes for one workspace: an
/// array of window entries, each tagged with that workspace.
pub open spec fn spec_parse_windows(json: Seq<char>, workspace: Seq<char>) -> Option<
    Seq<WindowInfoView>,
> {
    match json_document_of(json) {
        None => None,
        Some(doc) => match json_items_of(doc) {
            None => None,
            Some(items) => spec_windows_of_items(items, workspace),
        },
    }
}

fn window_of_entry(v: &serde_json::Value, workspace: &str) -> (r: Option<WindowInfo>)
    ensures
        match r {
            Some(w) => spec_window_of_entry(*v, workspace@) == Some(w@),
            None => spec_window_of_entry(*v, workspace@) is None,
        },
{
    let app_name = match json_text_field(v, "app-name") {
        None => return None,
        Some(s) => s,
    };
    let id = match json_uint_field(v, "window-id") {
        None => return None,
        Some(x) => x,
    };
    let window_title = match json_text_field(v, "window-title") {
        None => return None,
        Some(s) => s,
    };
    if id <= u32::MAX as u64 {
        Some(
            WindowInfo {
                app_name,
                window_id: id as u32,
                window_title,
                workspace: workspace.to_owned(),
            },
        )
    } else {
        None
    }
}

proof fn lemma_windows_bad_item(items: Seq<serde_json::Value>, workspace: Seq<char>, i: int)
    requires
        0 <= i < items.len(),
        spec_window_of_entry(items[i], workspace) is None,
    ensures
        spec_windows_of_items(items, workspace) is None,
    decreases items.len(),
{
    if i == items.len() - 1 {
    } else {
        assert(items.drop_last()[i] == items[i]);
        lemma_windows_bad_item(items.drop_last(), workspace, i);
    }
}

proof fn lemma_windows_take_succ(items: Seq<serde_json::Value>, workspace: Seq<char>, i: int)
    requires
        0 <= i < items.len(),
    ensures
        spec_windows_of_items(items.take(i + 1), workspace) == (match (
            spec_windows_of_items(items.take(i), workspace),
            spec_window_of_entry(items[i], workspace),
        ) {
            (Some(ws), Some(w)) => Some(ws + seq![w]),
            _ => None::<Seq<WindowInfoView>>,
        }),
{
    assert(items.take(i + 1).drop_last() =~= items.take(i));
    assert(items.take(i + 1).last() == items[i]);
}

/// Parses the window listing's JSON output for one workspace and tags every
/// record with that workspace.
pub fn list_windows_in_workspace(workspace: &str, json: &str) -> (r: Result<
    Vec<WindowInfo>,
    GatewayError,
>)
    ensures
        match r {
            Ok(v) => spec_parse_windows(json@, workspace@) == Some(view_windows(v@)),
            Err(e) => spec_parse_windows(json@, workspace@) is None && e
                == GatewayError::MalformedOutput,
        },
{
    let doc = match json_parse_document(json) {
        None => return Err(GatewayError::MalformedOutput),
        Some(d) => d,
    };
    let items = match json_items(&doc) {
        None => return Err(GatewayError::MalformedOutput),
        Some(v) => v,
    };
    let mut windows: Vec<WindowInfo> = Vec::new();
    let mut i: usize = 0;
    while i < items.len()
        invariant
            0 <= i <= items@.len(),
            json_document_of(json@) == Some(doc),
            json_items_of(doc) == Some(items@),
            spec_windows_of_items(items@.take(i as int), workspace@) == Some(
                view_windows(windows@),
            ),
        decreases items@.len() - i,
    {
        let ghost windows_before = windows@;
        match window_of_entry(&items[i], workspace) {
            None => {
                proof {
                    lemma_windows_bad_item(items@, workspace@, i as int);
                }
                return Err(GatewayError::MalformedOutput);
            },
            Some(w) => {
                windows.push(w);
            },
        }
        proof {
            lemma_windows_take_succ(items@, workspace@, i as int);
            assert(view_windows(windows@) =~= view_windows(windows_before) + seq![
                windows@.last()@,
            ]);
        }
        i += 1;
    }
    proof {
        assert(items@.take(i as int) =~= items@);
    }
    Ok(windows)
}

/// What the whole window listing denotes: for each queried workspace, in
/// query order, that workspace's windows tagged with its identifier,
/// concatenated; one failed listing fails the whole query.
pub open spec fn spec_all_windows(queries: Seq<(String, String)>) -> Option<Seq<WindowInfoView>>
    decreases queries.len(),
{
    if queries.len() == 0 {
        Some(seq![])
    } else {
        match (
            spec_all_windows(queries.drop_last()),
            spec_parse_windows(queries.last().1@, queries.last().0@),
        ) {
            (Some(a), Some(b)) => Some(a + b),
            _ => None,
        }
    }
}

proof fn lemma_all_windows_bad_query(queries: Seq<(String, String)>, i: int)
    requires
        0 <= i < queries.len(),
        spec_parse_windows(queries[i].1@, queries[i].0@) is None,
    ensures
        spec_all_windows(queries) is None,
    decreases queries.len(),
{
    if i == queries.len() - 1 {
    } else {
        assert(queries.drop_last()[i] == queries[i]);
        lemma_all_windows_bad_query(queries.drop_last(), i);
    }
}

proof fn lemma_all_windows_take_succ(queries: Seq<(String, String)>, i: int)
    requires
        0 <= i < queries.len(),
    ensures
        spec_all_windows(queries.take(i + 1)) == (match (
            spec_all_windows(queries.take(i)),
            spec_parse_windows(queries[i].1@, queries[i].0@),
        ) {
            (Some(a), Some(b)) => Some(a + b),
            _ => None::<Seq<WindowInfoView>>,
        }),
{
    assert(queries.take(i + 1).drop_last() =~= queries.take(i));
    assert(queries.take(i + 1).last() == queries[i]);
}

/// Assembles the full window snapshot from one listing per workspace: each
/// pair carries a workspace identifier and the raw JSON the window manager
/// printed for it. Records come out in workspace order, tagged with their
/// workspace; any malformed listing fails the whole call, with no partial
/// result.
pub fn list_windows(queries: &Vec<(String, String)>) -> (r: Result<Vec<WindowInfo>, GatewayError>)
    ensures
        match r {
            Ok(v) => spec_all_windows(queries@) == Some(view_windows(v@)),
            Err(e) => spec_all_windows(queries@) is None && e == GatewayError::MalformedOutput,
        },
{
    let mut all: Vec<WindowInfo> = Vec::new();
    let mut i: usize = 0;
    while i < queries.len()
        invariant
            0 <= i <= queries@.len(),
            spec_all_windows(queries@.take(i as int)) == Some(view_windows(all@)),
        decreases queries@.len() - i,
    {
        let ghost all_before = all@;
        let mut batch = match list_windows_in_workspace(
            queries[i].0.as_str(),
            queries[i].1.as_str(),
        ) {
            Err(e) => {
                proof {
                    lemma_all_windows_bad_query(queries@, i as int);
                }
                return Err(e);
            },
            Ok(v) => v,
        };
        let ghost batch_view = view_windows(batch@);
        all.append(&mut batch);
        proof {
            lemma_all_windows_take_succ(queries@, i as int);
            assert(view_windows(all@) =~= view_windows(all_before) + batch_view);
        }
        i += 1;
    }
    proof {
        assert(queries@.take(i as int) =~= queries@);
    }
    Ok(all)
}

} // verus!
