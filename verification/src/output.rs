use vstd::prelude::*;
use vstd::string::StringExecFns;
use crate::jira::{render_adf, render_adf_spec, Comment, IssueDetailed, IssueFields, Transition, Worklog};
use crate::json::JsonValue;
use crate::agile::{Board, Sprint};
use crate::bitbucket::{Pipeline, PipelineState, PipelineStep, PullRequest, Repo};
use crate::confluence::{render_storage, render_storage_spec, Page, Space};
use crate::config::{mask_allowed, mask_spec, mask_token, Config, Profile, opt_view};
use crate::alerts::{Alert, AlertLog, AlertNote, AlertResponder, Schedule, Team, User};
use crate::text::{
    bool_string, bool_text, i64_to_decimal, join_strings, join_with, pad, prefix_chars, push_padded, signed_decimal,
    strings_view, take_chars, trim, trimmed_string, chars_of,
};

verus! {

// ---------------------------------------------------------------------------
// Building blocks
// ---------------------------------------------------------------------------

/// A table cell: the text padded to the column width, then a space.
pub open spec fn cell(s: Seq<char>, width: nat) -> Seq<char> {
    pad(s, width) + " "@
}

fn push_cell(out: &mut String, s: &str, width: usize)
    ensures
        final(out)@ == old(out)@ + cell(s@, width as nat),
{
    push_padded(out, s, width);
    out.append(" ");
}

/// The text of an optional string, or `default` when it is absent.
pub open spec fn or_text(o: Option<String>, default: Seq<char>) -> Seq<char> {
    match o {
        Some(s) => s@,
        None => default,
    }
}

fn or_str<'a>(o: &'a Option<String>, default: &'a str) -> (r: &'a str)
    ensures
        r@ == or_text(*o, default@),
{
    match o {
        Some(s) => s.as_str(),
        None => default,
    }
}

/// Lines of text as strings.
pub open spec fn lines_view(v: Seq<String>) -> Seq<Seq<char>> {
    strings_view(v)
}

fn line2(a: &str, b: &str) -> (r: String)
    ensures
        r@ == a@ + b@,
{
    let mut s = String::from_str(a);
    s.append(b);
    s
}

/// The plain text of an optional ADF document (empty when absent).
pub open spec fn adf_text(d: Option<JsonValue>) -> Seq<char> {
    match d {
        Some(j) => render_adf_spec(j@),
        None => seq![],
    }
}

fn adf_text_exec(d: &Option<JsonValue>) -> (r: String)
    ensures
        r@ == adf_text(*d),
{
    match d {
        Some(j) => render_adf(j),
        None => String::new(),
    }
}

// ---------------------------------------------------------------------------
// Jira issues
// ---------------------------------------------------------------------------

/// The issue type's name, or nothing.
pub open spec fn issue_type_name(f: IssueFields) -> Seq<char> {
    match f.issuetype {
        Some(t) => t.name@,
        None => seq![],
    }
}

/// The status's name, or nothing.
pub open spec fn status_name(f: IssueFields) -> Seq<char> {
    match f.status {
        Some(t) => t.name@,
        None => seq![],
    }
}

/// The priority's name, or nothing.
pub open spec fn priority_name(f: IssueFields) -> Seq<char> {
    match f.priority {
        Some(t) => t.name@,
        None => seq![],
    }
}

/// The assignee's name, or `Unassigned`.
pub open spec fn assignee_name(f: IssueFields) -> Seq<char> {
    match f.assignee {
        Some(u) => u.display_name@,
        None => "Unassigned"@,
    }
}

fn issue_type_exec(f: &IssueFields) -> (r: String)
    ensures
        r@ == issue_type_name(*f),
{
    match &f.issuetype {
        Some(t) => t.name.clone(),
        None => String::new(),
    }
}

fn status_name_exec(f: &IssueFields) -> (r: String)
    ensures
        r@ == status_name(*f),
{
    match &f.status {
        Some(t) => t.name.clone(),
        None => String::new(),
    }
}

fn priority_name_exec(f: &IssueFields) -> (r: String)
    ensures
        r@ == priority_name(*f),
{
    match &f.priority {
        Some(t) => t.name.clone(),
        None => String::new(),
    }
}

fn assignee_name_exec(f: &IssueFields) -> (r: String)
    ensures
        r@ == assignee_name(*f),
{
    match &f.assignee {
        Some(u) => u.display_name.clone(),
        None => String::from_str("Unassigned"),
    }
}

/// The heading of the issue list.
pub open spec fn issue_list_header() -> Seq<char> {
    cell("KEY"@, 15) + cell("TYPE"@, 10) + cell("STATUS"@, 15) + cell("PRIORITY"@, 10) + cell("ASSIGNEE"@, 25) + "SUMMARY"@
}

/// One line of the issue list.
pub open spec fn issue_list_row(i: IssueDetailed) -> Seq<char> {
    cell(i.key@, 15) + cell(issue_type_name(i.fields), 10) + cell(status_name(i.fields), 15) + cell(priority_name(i.fields), 10)
        + cell(assignee_name(i.fields), 25) + i.fields.summary@
}

/// The lines `jira issue list` prints: a heading, then one line per issue.
pub fn issue_list_lines(issues: &Vec<IssueDetailed>) -> (r: Vec<String>)
    ensures
        lines_view(r@) == seq![issue_list_header()] + Seq::new(issues@.len(), |k: int| issue_list_row(issues@[k])),
{
    let mut lines: Vec<String> = Vec::new();
    let mut h = String::new();
    push_cell(&mut h, "KEY", 15);
    push_cell(&mut h, "TYPE", 10);
    push_cell(&mut h, "STATUS", 15);
    push_cell(&mut h, "PRIORITY", 10);
    push_cell(&mut h, "ASSIGNEE", 25);
    h.append("SUMMARY");
    lines.push(h);
    let n = issues.len();
    for k in 0..n
        invariant
            n == issues@.len(),
            lines_view(lines@) == seq![issue_list_header()] + Seq::new(k as nat, |j: int| issue_list_row(issues@[j])),
    {
        let i = &issues[k];
        let mut s = String::new();
        push_cell(&mut s, i.key.as_str(), 15);
        push_cell(&mut s, issue_type_exec(&i.fields).as_str(), 10);
        push_cell(&mut s, status_name_exec(&i.fields).as_str(), 15);
        push_cell(&mut s, priority_name_exec(&i.fields).as_str(), 10);
        push_cell(&mut s, assignee_name_exec(&i.fields).as_str(), 25);
        s.append(i.fields.summary.as_str());
        let ghost before = lines_view(lines@);
        lines.push(s);
        assert(lines_view(lines@) =~= before.push(issue_list_row(issues@[k as int])));
        assert(seq![issue_list_header()] + Seq::new((k + 1) as nat, |j: int| issue_list_row(issues@[j])) =~= before.push(
            issue_list_row(issues@[k as int]),
        ));
    }
    lines
}

/// The heading of the issue list of a sprint or epic.
pub open spec fn agile_issue_header() -> Seq<char> {
    cell("KEY"@, 15) + cell("TYPE"@, 10) + cell("STATUS"@, 15) + cell("PRIORITY"@, 10) + "SUMMARY"@
}

/// One line of the issue list of a sprint or epic.
pub open spec fn agile_issue_row(i: IssueDetailed) -> Seq<char> {
    cell(i.key@, 15) + cell(issue_type_name(i.fields), 10) + cell(status_name(i.fields), 15) + cell(priority_name(i.fields), 10)
        + i.fields.summary@
}

/// The lines `jira sprint issues` and `jira epic issues` print.
pub fn agile_issue_lines(issues: &Vec<IssueDetailed>) -> (r: Vec<String>)
    ensures
        lines_view(r@) == seq![agile_issue_header()] + Seq::new(issues@.len(), |k: int| agile_issue_row(issues@[k])),
{
    let mut lines: Vec<String> = Vec::new();
    let mut h = String::new();
    push_cell(&mut h, "KEY", 15);
    push_cell(&mut h, "TYPE", 10);
    push_cell(&mut h, "STATUS", 15);
    push_cell(&mut h, "PRIORITY", 10);
    h.append("SUMMARY");
    lines.push(h);
    let n = issues.len();
    for k in 0..n
        invariant
            n == issues@.len(),
            lines_view(lines@) == seq![agile_issue_header()] + Seq::new(k as nat, |j: int| agile_issue_row(issues@[j])),
    {
        let i = &issues[k];
        let mut s = String::new();
        push_cell(&mut s, i.key.as_str(), 15);
        push_cell(&mut s, issue_type_exec(&i.fields).as_str(), 10);
        push_cell(&mut s, status_name_exec(&i.fields).as_str(), 15);
        push_cell(&mut s, priority_name_exec(&i.fields).as_str(), 10);
        s.append(i.fields.summary.as_str());
        let ghost before = lines_view(lines@);
        lines.push(s);
        assert(seq![agile_issue_header()] + Seq::new((k + 1) as nat, |j: int| agile_issue_row(issues@[j])) =~= before.push(
            agile_issue_row(issues@[k as int]),
        ));
    }
    lines
}

/// The names of an issue's components.
pub open spec fn component_names(f: IssueFields) -> Seq<Seq<char>> {
    Seq::new(f.components@.len(), |k: int| f.components@[k].name@)
}

/// The names of an issue's fix versions.
pub open spec fn version_names(f: IssueFields) -> Seq<Seq<char>> {
    Seq::new(f.fix_versions@.len(), |k: int| f.fix_versions@[k].name@)
}

/// The lines `jira issue get` prints.
pub open spec fn issue_detail_spec(i: IssueDetailed) -> Seq<Seq<char>> {
    let f = i.fields;
    seq![
        "Key:          "@ + i.key@,
        "Summary:      "@ + f.summary@,
        "Status:       "@ + status_name(f),
        "Type:         "@ + issue_type_name(f),
        "Priority:     "@ + priority_name(f),
        "Assignee:     "@ + assignee_name(f),
        "Reporter:     "@ + match f.reporter {
            Some(u) => u.display_name@,
            None => "None"@,
        },
        "Created:      "@ + or_text(f.created, seq![]),
        "Updated:      "@ + or_text(f.updated, seq![]),
        "Labels:       "@ + join_with(strings_view(f.labels@), ", "@),
        "Components:   "@ + join_with(component_names(f), ", "@),
        "Fix Versions: "@ + join_with(version_names(f), ", "@),
        "Description:\n"@ + adf_text(f.description),
    ]
}

/// The lines `jira issue get` prints (see [`issue_detail_spec`]).
pub fn issue_detail_lines(i: &IssueDetailed) -> (r: Vec<String>)
    ensures
        lines_view(r@) == issue_detail_spec(*i),
{
    let f = &i.fields;
    let mut comps: Vec<String> = Vec::new();
    let nc = f.components.len();
    for k in 0..nc
        invariant
            nc == f.components@.len(),
            strings_view(comps@) == Seq::new(k as nat, |j: int| f.components@[j].name@),
    {
        let ghost before = strings_view(comps@);
        comps.push(f.components[k].name.clone());
        assert(strings_view(comps@) =~= before.push(f.components@[k as int].name@));
        assert(strings_view(comps@) =~= Seq::new((k + 1) as nat, |j: int| f.components@[j].name@));
    }
    let mut vers: Vec<String> = Vec::new();
    let nv = f.fix_versions.len();
    for k in 0..nv
        invariant
            nv == f.fix_versions@.len(),
            strings_view(vers@) == Seq::new(k as nat, |j: int| f.fix_versions@[j].name@),
    {
        let ghost before = strings_view(vers@);
        vers.push(f.fix_versions[k].name.clone());
        assert(strings_view(vers@) =~= before.push(f.fix_versions@[k as int].name@));
        assert(strings_view(vers@) =~= Seq::new((k + 1) as nat, |j: int| f.fix_versions@[j].name@));
    }
    let reporter = match &f.reporter {
        Some(u) => u.display_name.clone(),
        None => String::from_str("None"),
    };
    let mut lines: Vec<String> = Vec::new();
    lines.push(line2("Key:          ", i.key.as_str()));
    lines.push(line2("Summary:      ", f.summary.as_str()));
    lines.push(line2("Status:       ", status_name_exec(f).as_str()));
    lines.push(line2("Type:         ", issue_type_exec(f).as_str()));
    lines.push(line2("Priority:     ", priority_name_exec(f).as_str()));
    lines.push(line2("Assignee:     ", assignee_name_exec(f).as_str()));
    lines.push(line2("Reporter:     ", reporter.as_str()));
    lines.push(line2("Created:      ", or_str(&f.created, "")));
    lines.push(line2("Updated:      ", or_str(&f.updated, "")));
    lines.push(line2("Labels:       ", join_strings(&f.labels, ", ").as_str()));
    lines.push(line2("Components:   ", join_strings(&comps, ", ").as_str()));
    lines.push(line2("Fix Versions: ", join_strings(&vers, ", ").as_str()));
    lines.push(line2("Description:\n", adf_text_exec(&f.description).as_str()));
    proof {
        reveal_strlit("");
    }
    assert(lines_view(lines@) =~= issue_detail_spec(*i));
    lines
}

/// The heading of the transition list.
pub open spec fn transition_header() -> Seq<char> {
    cell("ID"@, 8) + "NAME"@
}

/// One line of the transition list.
pub open spec fn transition_row(t: Transition) -> Seq<char> {
    cell(t.id@, 8) + t.name@
}

/// The lines `jira issue transitions` prints.
pub fn transition_lines(ts: &Vec<Transition>) -> (r: Vec<String>)
    ensures
        lines_view(r@) == seq![transition_header()] + Seq::new(ts@.len(), |k: int| transition_row(ts@[k])),
{
    let mut lines: Vec<String> = Vec::new();
    let mut h = String::new();
    push_cell(&mut h, "ID", 8);
    h.append("NAME");
    lines.push(h);
    let n = ts.len();
    for k in 0..n
        invariant
            n == ts@.len(),
            lines_view(lines@) == seq![transition_header()] + Seq::new(k as nat, |j: int| transition_row(ts@[j])),
    {
        let mut s = String::new();
        push_cell(&mut s, ts[k].id.as_str(), 8);
        s.append(ts[k].name.as_str());
        let ghost before = lines_view(lines@);
        lines.push(s);
        assert(seq![transition_header()] + Seq::new((k + 1) as nat, |j: int| transition_row(ts@[j])) =~= before.push(
            transition_row(ts@[k as int]),
        ));
    }
    lines
}

/// The heading of the comment list.
pub open spec fn comment_header() -> Seq<char> {
    cell("ID"@, 12) + cell("AUTHOR"@, 25) + cell("CREATED"@, 22) + "BODY"@
}

/// One line of the comment list: the body's first 60 characters.
pub open spec fn comment_row(c: Comment) -> Seq<char> {
    cell(c.id@, 12) + cell(
        match c.author {
            Some(a) => a.display_name@,
            None => seq![],
        },
        25,
    ) + cell(or_text(c.created, seq![]), 22) + take_chars(adf_text(c.body), 60)
}

/// The lines `jira issue comment list` prints.
pub fn comment_lines(cs: &Vec<Comment>) -> (r: Vec<String>)
    ensures
        lines_view(r@) == seq![comment_header()] + Seq::new(cs@.len(), |k: int| comment_row(cs@[k])),
{
    let mut lines: Vec<String> = Vec::new();
    let mut h = String::new();
    push_cell(&mut h, "ID", 12);
    push_cell(&mut h, "AUTHOR", 25);
    push_cell(&mut h, "CREATED", 22);
    h.append("BODY");
    lines.push(h);
    let n = cs.len();
    for k in 0..n
        invariant
            n == cs@.len(),
            lines_view(lines@) == seq![comment_header()] + Seq::new(k as nat, |j: int| comment_row(cs@[j])),
    {
        let c = &cs[k];
        let mut s = String::new();
        push_cell(&mut s, c.id.as_str(), 12);
        let author = match &c.author {
            Some(a) => a.display_name.as_str(),
            None => "",
        };
        proof {
            reveal_strlit("");
        }
        push_cell(&mut s, author, 25);
        push_cell(&mut s, or_str(&c.created, ""), 22);
        let body = adf_text_exec(&c.body);
        s.append(prefix_chars(body.as_str(), 60).as_str());
        let ghost before = lines_view(lines@);
        lines.push(s);
        assert(s@ =~= comment_row(cs@[k as int]));
        assert(seq![comment_header()] + Seq::new((k + 1) as nat, |j: int| comment_row(cs@[j])) =~= before.push(
            comment_row(cs@[k as int]),
        ));
    }
    lines
}

/// The heading of the worklog list.
pub open spec fn worklog_header() -> Seq<char> {
    cell("ID"@, 12) + cell("AUTHOR"@, 25) + cell("TIME SPENT"@, 12) + "COMMENT"@
}

/// One line of the worklog list: the comment's first 50 characters.
pub open spec fn worklog_row(w: Worklog) -> Seq<char> {
    cell(w.id@, 12) + cell(
        match w.author {
            Some(a) => a.display_name@,
            None => seq![],
        },
        25,
    ) + cell(or_text(w.time_spent, seq![]), 12) + take_chars(adf_text(w.comment), 50)
}

/// The lines `jira issue worklog list` prints.
pub fn worklog_lines(ws: &Vec<Worklog>) -> (r: Vec<String>)
    ensures
        lines_view(r@) == seq![worklog_header()] + Seq::new(ws@.len(), |k: int| worklog_row(ws@[k])),
{
    let mut lines: Vec<String> = Vec::new();
    let mut h = String::new();
    push_cell(&mut h, "ID", 12);
    push_cell(&mut h, "AUTHOR", 25);
    push_cell(&mut h, "TIME SPENT", 12);
    h.append("COMMENT");
    lines.push(h);
    let n = ws.len();
    for k in 0..n
        invariant
            n == ws@.len(),
            lines_view(lines@) == seq![worklog_header()] + Seq::new(k as nat, |j: int| worklog_row(ws@[j])),
    {
        let w = &ws[k];
        let mut s = String::new();
        push_cell(&mut s, w.id.as_str(), 12);
        let author = match &w.author {
            Some(a) => a.display_name.as_str(),
            None => "",
        };
        proof {
            reveal_strlit("");
        }
        push_cell(&mut s, author, 25);
        push_cell(&mut s, or_str(&w.time_spent, ""), 12);
        let body = adf_text_exec(&w.comment);
        s.append(prefix_chars(body.as_str(), 50).as_str());
        let ghost before = lines_view(lines@);
        lines.push(s);
        assert(s@ =~= worklog_row(ws@[k as int]));
        assert(seq![worklog_header()] + Seq::new((k + 1) as nat, |j: int| worklog_row(ws@[j])) =~= before.push(
            worklog_row(ws@[k as int]),
        ));
    }
    lines
}

// ---------------------------------------------------------------------------
// Boards and sprints
// ---------------------------------------------------------------------------

/// The heading of the board list.
pub open spec fn board_header() -> Seq<char> {
    cell("ID"@, 6) + cell("NAME"@, 30) + cell("TYPE"@, 10) + "PROJECT"@
}

/// One line of the board list.
pub open spec fn board_row(b: Board) -> Seq<char> {
    cell(signed_decimal(b.id as int), 6) + cell(b.name@, 30) + cell(b.board_type@, 10) + match b.location {
        Some(l) => l.project_key@,
        None => seq![],
    }
}

/// The lines `jira board list` prints.
pub fn board_lines(bs: &Vec<Board>) -> (r: Vec<String>)
    ensures
        lines_view(r@) == seq![board_header()] + Seq::new(bs@.len(), |k: int| board_row(bs@[k])),
{
    let mut lines: Vec<String> = Vec::new();
    let mut h = String::new();
    push_cell(&mut h, "ID", 6);
    push_cell(&mut h, "NAME", 30);
    push_cell(&mut h, "TYPE", 10);
    h.append("PROJECT");
    lines.push(h);
    let n = bs.len();
    for k in 0..n
        invariant
            n == bs@.len(),
            lines_view(lines@) == seq![board_header()] + Seq::new(k as nat, |j: int| board_row(bs@[j])),
    {
        let b = &bs[k];
        let mut s = String::new();
        push_cell(&mut s, i64_to_decimal(b.id as i64).as_str(), 6);
        push_cell(&mut s, b.name.as_str(), 30);
        push_cell(&mut s, b.board_type.as_str(), 10);
        match &b.location {
            Some(l) => s.append(l.project_key.as_str()),
            None => {},
        }
        let ghost before = lines_view(lines@);
        lines.push(s);
        assert(s@ =~= board_row(bs@[k as int]));
        assert(seq![board_header()] + Seq::new((k + 1) as nat, |j: int| board_row(bs@[j])) =~= before.push(
            board_row(bs@[k as int]),
        ));
    }
    lines
}

/// The heading of the sprint list.
pub open spec fn sprint_header() -> Seq<char> {
    cell("ID"@, 6) + cell("NAME"@, 30) + cell("STATE"@, 10) + cell("START"@, 26) + "END"@
}

/// One line of the sprint list.
pub open spec fn sprint_row(s: Sprint) -> Seq<char> {
    cell(signed_decimal(s.id as int), 6) + cell(s.name@, 30) + cell(s.state@, 10) + cell(or_text(s.start_date, seq![]), 26)
        + or_text(s.end_date, seq![])
}

/// The lines `jira board sprints` prints.
pub fn sprint_lines(ss: &Vec<Sprint>) -> (r: Vec<String>)
    ensures
        lines_view(r@) == seq![sprint_header()] + Seq::new(ss@.len(), |k: int| sprint_row(ss@[k])),
{
    let mut lines: Vec<String> = Vec::new();
    let mut h = String::new();
    push_cell(&mut h, "ID", 6);
    push_cell(&mut h, "NAME", 30);
    push_cell(&mut h, "STATE", 10);
    push_cell(&mut h, "START", 26);
    h.append("END");
    lines.push(h);
    let n = ss.len();
    proof {
        reveal_strlit("");
    }
    for k in 0..n
        invariant
            n == ss@.len(),
            ""@ == Seq::<char>::empty(),
            lines_view(lines@) == seq![sprint_header()] + Seq::new(k as nat, |j: int| sprint_row(ss@[j])),
    {
        let sp = &ss[k];
        let mut s = String::new();
        push_cell(&mut s, i64_to_decimal(sp.id as i64).as_str(), 6);
        push_cell(&mut s, sp.name.as_str(), 30);
        push_cell(&mut s, sp.state.as_str(), 10);
        push_cell(&mut s, or_str(&sp.start_date, ""), 26);
        s.append(or_str(&sp.end_date, ""));
        let ghost before = lines_view(lines@);
        lines.push(s);
        assert(s@ =~= sprint_row(ss@[k as int]));
        assert(seq![sprint_header()] + Seq::new((k + 1) as nat, |j: int| sprint_row(ss@[j])) =~= before.push(
            sprint_row(ss@[k as int]),
        ));
    }
    lines
}

// ---------------------------------------------------------------------------
// Alerts
// ---------------------------------------------------------------------------

/// The heading of the alert list.
pub open spec fn alert_header() -> Seq<char> {
    cell("ID"@, 40) + cell("TINYID"@, 8) + cell("STATUS"@, 8) + cell("ACKNOWLEDGED"@, 12) + cell("PRIORITY"@, 8) + "MESSAGE"@
}

/// One line of the alert list.
pub open spec fn alert_row(a: Alert) -> Seq<char> {
    cell(a.id@, 40) + cell(or_text(a.tiny_id, seq![]), 8) + cell(a.status@, 8) + cell(bool_text(a.acknowledged), 12) + cell(
        a.priority@,
        8,
    ) + a.message@
}

/// The lines `alert list` prints.
pub fn alert_lines(alerts: &Vec<Alert>) -> (r: Vec<String>)
    ensures
        lines_view(r@) == seq![alert_header()] + Seq::new(alerts@.len(), |k: int| alert_row(alerts@[k])),
{
    let mut lines: Vec<String> = Vec::new();
    let mut h = String::new();
    push_cell(&mut h, "ID", 40);
    push_cell(&mut h, "TINYID", 8);
    push_cell(&mut h, "STATUS", 8);
    push_cell(&mut h, "ACKNOWLEDGED", 12);
    push_cell(&mut h, "PRIORITY", 8);
    h.append("MESSAGE");
    lines.push(h);
    let n = alerts.len();
    proof {
        reveal_strlit("");
    }
    for k in 0..n
        invariant
            n == alerts@.len(),
            ""@ == Seq::<char>::empty(),
            lines_view(lines@) == seq![alert_header()] + Seq::new(k as nat, |j: int| alert_row(alerts@[j])),
    {
        let a = &alerts[k];
        let mut s = String::new();
        push_cell(&mut s, a.id.as_str(), 40);
        push_cell(&mut s, or_str(&a.tiny_id, ""), 8);
        push_cell(&mut s, a.status.as_str(), 8);
        push_cell(&mut s, bool_string(a.acknowledged).as_str(), 12);
        push_cell(&mut s, a.priority.as_str(), 8);
        s.append(a.message.as_str());
        let ghost before = lines_view(lines@);
        lines.push(s);
        assert(seq![alert_header()] + Seq::new((k + 1) as nat, |j: int| alert_row(alerts@[j])) =~= before.push(
            alert_row(alerts@[k as int]),
        ));
    }
    lines
}

/// The line of one responder.
pub open spec fn responder_line(r: AlertResponder) -> Seq<char> {
    "  "@ + or_text(r.id, "-"@) + " ("@ + or_text(r.responder_type, "unknown"@) + ")"@
}

/// The line of one note.
pub open spec fn note_line(n: AlertNote) -> Seq<char> {
    "  ["@ + or_text(n.created_at, "-"@) + "] "@ + or_text(n.owner, "unknown"@) + ": "@ + n.note@
}

/// The line of one activity log entry.
pub open spec fn log_line(l: AlertLog) -> Seq<char> {
    "  ["@ + or_text(l.log_time, "-"@) + "] "@ + or_text(l.owner, "system"@) + ": "@ + l.log@
}

/// The fields of an alert, with its description when it has a non-empty one.
pub open spec fn alert_head_spec(a: Alert) -> Seq<Seq<char>> {
    seq![
        "ID:       "@ + a.id@,
        "Tiny ID:  "@ + or_text(a.tiny_id, "-"@),
        "Alias:    "@ + or_text(a.alias, "-"@),
        "Message:  "@ + a.message@,
        "Status:   "@ + a.status@,
        "Acked:    "@ + bool_text(a.acknowledged),
        "Priority: "@ + a.priority@,
        "Created:  "@ + a.created_at@,
    ] + match a.description {
        Some(d) => if d@.len() > 0 {
            seq!["Desc:     "@ + d@]
        } else {
            seq![]
        },
        None => seq![],
    }
}

/// The responders of an alert, when it has some.
pub open spec fn responders_spec(rs: Seq<AlertResponder>) -> Seq<Seq<char>> {
    if rs.len() > 0 {
        seq!["Responders:"@] + Seq::new(rs.len(), |k: int| responder_line(rs[k]))
    } else {
        seq![]
    }
}

/// The notes of an alert, or that there are none.
pub open spec fn notes_spec(notes: Seq<AlertNote>) -> Seq<Seq<char>> {
    if notes.len() == 0 {
        seq!["Notes:    (none)"@]
    } else {
        seq!["Notes:"@] + Seq::new(notes.len(), |k: int| note_line(notes[k]))
    }
}

/// The activity log of an alert, when there is some.
pub open spec fn logs_spec(logs: Seq<AlertLog>) -> Seq<Seq<char>> {
    if logs.len() > 0 {
        seq!["Activity:"@] + Seq::new(logs.len(), |k: int| log_line(logs[k]))
    } else {
        seq![]
    }
}

/// The lines `alert get` prints: the alert's fields, a description when it
/// has a non-empty one, its responders when it has some, its notes (or that
/// there are none) and its activity when there is some.
pub open spec fn alert_detail_spec(a: Alert, notes: Seq<AlertNote>, logs: Seq<AlertLog>) -> Seq<Seq<char>> {
    alert_head_spec(a) + responders_spec(a.responders@) + notes_spec(notes) + logs_spec(logs)
}

fn push_line(lines: &mut Vec<String>, s: String)
    ensures
        lines_view(final(lines)@) == lines_view(old(lines)@).push(s@),
{
    lines.push(s);
    assert(lines_view(lines@) =~= lines_view(old(lines)@).push(s@));
}

fn append_lines(lines: &mut Vec<String>, more: Vec<String>)
    ensures
        lines_view(final(lines)@) == lines_view(old(lines)@) + lines_view(more@),
{
    let mut more = more;
    let ghost m = lines_view(more@);
    lines.append(&mut more);
    assert(lines_view(lines@) =~= lines_view(old(lines)@) + m);
}

fn alert_head_lines(a: &Alert) -> (r: Vec<String>)
    ensures
        lines_view(r@) == alert_head_spec(*a),
{
    let mut lines: Vec<String> = Vec::new();
    push_line(&mut lines, line2("ID:       ", a.id.as_str()));
    push_line(&mut lines, line2("Tiny ID:  ", or_str(&a.tiny_id, "-")));
    push_line(&mut lines, line2("Alias:    ", or_str(&a.alias, "-")));
    push_line(&mut lines, line2("Message:  ", a.message.as_str()));
    push_line(&mut lines, line2("Status:   ", a.status.as_str()));
    push_line(&mut lines, line2("Acked:    ", bool_string(a.acknowledged).as_str()));
    push_line(&mut lines, line2("Priority: ", a.priority.as_str()));
    push_line(&mut lines, line2("Created:  ", a.created_at.as_str()));
    match &a.description {
        Some(d) => {
            if !d.as_str().is_empty() {
                push_line(&mut lines, line2("Desc:     ", d.as_str()));
            }
        },
        None => {},
    }
    assert(lines_view(lines@) =~= alert_head_spec(*a));
    lines
}

fn responder_lines(rs: &Vec<AlertResponder>) -> (r: Vec<String>)
    ensures
        lines_view(r@) == responders_spec(rs@),
{
    let mut lines: Vec<String> = Vec::new();
    if rs.len() == 0 {
        assert(lines_view(lines@) =~= responders_spec(rs@));
        return lines;
    }
    push_line(&mut lines, String::from_str("Responders:"));
    let n = rs.len();
    for k in 0..n
        invariant
            n == rs@.len(),
            lines_view(lines@) == seq!["Responders:"@] + Seq::new(k as nat, |j: int| responder_line(rs@[j])),
    {
        let r = &rs[k];
        let mut s = String::from_str("  ");
        s.append(or_str(&r.id, "-"));
        s.append(" (");
        s.append(or_str(&r.responder_type, "unknown"));
        s.append(")");
        let ghost before = lines_view(lines@);
        push_line(&mut lines, s);
        assert(seq!["Responders:"@] + Seq::new((k + 1) as nat, |j: int| responder_line(rs@[j])) =~= before.push(
            responder_line(rs@[k as int]),
        ));
    }
    lines
}

fn note_lines(notes: &Vec<AlertNote>) -> (r: Vec<String>)
    ensures
        lines_view(r@) == notes_spec(notes@),
{
    let mut lines: Vec<String> = Vec::new();
    if notes.len() == 0 {
        push_line(&mut lines, String::from_str("Notes:    (none)"));
        assert(lines_view(lines@) =~= notes_spec(notes@));
        return lines;
    }
    push_line(&mut lines, String::from_str("Notes:"));
    let n = notes.len();
    for k in 0..n
        invariant
            n == notes@.len(),
            lines_view(lines@) == seq!["Notes:"@] + Seq::new(k as nat, |j: int| note_line(notes@[j])),
    {
        let x = &notes[k];
        let mut s = String::from_str("  [");
        s.append(or_str(&x.created_at, "-"));
        s.append("] ");
        s.append(or_str(&x.owner, "unknown"));
        s.append(": ");
        s.append(x.note.as_str());
        let ghost before = lines_view(lines@);
        push_line(&mut lines, s);
        assert(seq!["Notes:"@] + Seq::new((k + 1) as nat, |j: int| note_line(notes@[j])) =~= before.push(
            note_line(notes@[k as int]),
        ));
    }
    lines
}

fn log_lines(logs: &Vec<AlertLog>) -> (r: Vec<String>)
    ensures
        lines_view(r@) == logs_spec(logs@),
{
    let mut lines: Vec<String> = Vec::new();
    if logs.len() == 0 {
        assert(lines_view(lines@) =~= logs_spec(logs@));
        return lines;
    }
    push_line(&mut lines, String::from_str("Activity:"));
    let n = logs.len();
    for k in 0..n
        invariant
            n == logs@.len(),
            lines_view(lines@) == seq!["Activity:"@] + Seq::new(k as nat, |j: int| log_line(logs@[j])),
    {
        let x = &logs[k];
        let mut s = String::from_str("  [");
        s.append(or_str(&x.log_time, "-"));
        s.append("] ");
        s.append(or_str(&x.owner, "system"));
        s.append(": ");
        s.append(x.log.as_str());
        let ghost before = lines_view(lines@);
        push_line(&mut lines, s);
        assert(seq!["Activity:"@] + Seq::new((k + 1) as nat, |j: int| log_line(logs@[j])) =~= before.push(
            log_line(logs@[k as int]),
        ));
    }
    lines
}

/// The lines `alert get` prints (see [`alert_detail_spec`]).
pub fn alert_detail_lines(a: &Alert, notes: &Vec<AlertNote>, logs: &Vec<AlertLog>) -> (r: Vec<String>)
    ensures
        lines_view(r@) == alert_detail_spec(*a, notes@, logs@),
{
    let mut lines = alert_head_lines(a);
    append_lines(&mut lines, responder_lines(&a.responders));
    append_lines(&mut lines, note_lines(notes));
    append_lines(&mut lines, log_lines(logs));
    lines
}

/// The heading of the team list.
pub open spec fn team_header() -> Seq<char> {
    cell("ID"@, 40) + cell("NAME"@, 40) + "DESCRIPTION"@
}

/// One line of the team list.
pub open spec fn team_row(t: Team) -> Seq<char> {
    cell(t.id@, 40) + cell(t.name@, 40) + or_text(t.description, seq![])
}

/// The lines `alert teams` prints.
pub fn team_lines(ts: &Vec<Team>) -> (r: Vec<String>)
    ensures
        lines_view(r@) == seq![team_header()] + Seq::new(ts@.len(), |k: int| team_row(ts@[k])),
{
    let mut lines: Vec<String> = Vec::new();
    let mut h = String::new();
    push_cell(&mut h, "ID", 40);
    push_cell(&mut h, "NAME", 40);
    h.append("DESCRIPTION");
    lines.push(h);
    let n = ts.len();
    proof {
        reveal_strlit("");
    }
    for k in 0..n
        invariant
            n == ts@.len(),
            ""@ == Seq::<char>::empty(),
            lines_view(lines@) == seq![team_header()] + Seq::new(k as nat, |j: int| team_row(ts@[j])),
    {
        let mut s = String::new();
        push_cell(&mut s, ts[k].id.as_str(), 40);
        push_cell(&mut s, ts[k].name.as_str(), 40);
        s.append(or_str(&ts[k].description, ""));
        let ghost before = lines_view(lines@);
        lines.push(s);
        assert(seq![team_header()] + Seq::new((k + 1) as nat, |j: int| team_row(ts@[j])) =~= before.push(team_row(ts@[k as int])));
    }
    lines
}

/// The heading of the schedule list.
pub open spec fn schedule_header() -> Seq<char> {
    cell("ID"@, 40) + cell("NAME"@, 30) + cell("TEAM_ID"@, 40) + "DESCRIPTION"@
}

/// One line of the schedule list.
pub open spec fn schedule_row(s: Schedule) -> Seq<char> {
    cell(s.id@, 40) + cell(s.name@, 30) + cell(or_text(s.team_id, "(no team)"@), 40) + or_text(s.description, seq![])
}

/// The lines `alert schedules` prints.
pub fn schedule_lines(ss: &Vec<Schedule>) -> (r: Vec<String>)
    ensures
        lines_view(r@) == seq![schedule_header()] + Seq::new(ss@.len(), |k: int| schedule_row(ss@[k])),
{
    let mut lines: Vec<String> = Vec::new();
    let mut h = String::new();
    push_cell(&mut h, "ID", 40);
    push_cell(&mut h, "NAME", 30);
    push_cell(&mut h, "TEAM_ID", 40);
    h.append("DESCRIPTION");
    lines.push(h);
    let n = ss.len();
    proof {
        reveal_strlit("");
    }
    for k in 0..n
        invariant
            n == ss@.len(),
            ""@ == Seq::<char>::empty(),
            lines_view(lines@) == seq![schedule_header()] + Seq::new(k as nat, |j: int| schedule_row(ss@[j])),
    {
        let mut s = String::new();
        push_cell(&mut s, ss[k].id.as_str(), 40);
        push_cell(&mut s, ss[k].name.as_str(), 30);
        push_cell(&mut s, or_str(&ss[k].team_id, "(no team)"), 40);
        s.append(or_str(&ss[k].description, ""));
        let ghost before = lines_view(lines@);
        lines.push(s);
        assert(seq![schedule_header()] + Seq::new((k + 1) as nat, |j: int| schedule_row(ss@[j])) =~= before.push(
            schedule_row(ss@[k as int]),
        ));
    }
    lines
}

/// The lines `alert oncall <schedule>` prints for the users on call.
pub open spec fn oncall_spec(users: Seq<Seq<char>>) -> Seq<Seq<char>> {
    if users.len() == 0 {
        seq!["No on-call users found for this schedule."@]
    } else {
        seq!["On-call user IDs:"@] + Seq::new(users.len(), |k: int| "  "@ + users[k])
    }
}

/// The lines `alert oncall <schedule>` prints (see [`oncall_spec`]).
pub fn oncall_lines(users: &Vec<String>) -> (r: Vec<String>)
    ensures
        lines_view(r@) == oncall_spec(strings_view(users@)),
{
    let mut lines: Vec<String> = Vec::new();
    if users.len() == 0 {
        push_line(&mut lines, String::from_str("No on-call users found for this schedule."));
        assert(lines_view(lines@) =~= oncall_spec(strings_view(users@)));
        return lines;
    }
    push_line(&mut lines, String::from_str("On-call user IDs:"));
    let n = users.len();
    for k in 0..n
        invariant
            n == users@.len(),
            lines_view(lines@) == seq!["On-call user IDs:"@] + Seq::new(k as nat, |j: int| "  "@ + users@[j]@),
    {
        let ghost before = lines_view(lines@);
        push_line(&mut lines, line2("  ", users[k].as_str()));
        assert(seq!["On-call user IDs:"@] + Seq::new((k + 1) as nat, |j: int| "  "@ + users@[j]@) =~= before.push(
            "  "@ + users@[k as int]@,
        ));
    }
    assert(lines_view(lines@) =~= oncall_spec(strings_view(users@)));
    lines
}

/// One line `label value` when the value is present.
pub open spec fn opt_line(label: Seq<char>, v: Option<String>) -> Seq<Seq<char>> {
    match v {
        Some(s) => seq![label + s@],
        None => seq![],
    }
}

fn push_opt_line(lines: &mut Vec<String>, label: &str, v: &Option<String>)
    ensures
        lines_view(final(lines)@) == lines_view(old(lines)@) + opt_line(label@, *v),
{
    let ghost before = lines_view(lines@);
    match v {
        Some(s) => push_line(lines, line2(label, s.as_str())),
        None => {},
    }
    assert(lines_view(lines@) =~= before + opt_line(label@, *v));
}

/// The lines `alert user` prints: each field the user has, Jira's then JSM Ops's.
pub open spec fn user_detail_spec(u: User) -> Seq<Seq<char>> {
    opt_line("Account ID: "@, u.account_id) + opt_line("Name: "@, u.display_name) + opt_line("Email: "@, u.email_address)
        + match u.active {
        Some(b) => seq!["Active: "@ + bool_text(b)],
        None => seq![],
    } + opt_line("Timezone: "@, u.time_zone) + opt_line("User ID: "@, u.id) + opt_line("Full name: "@, u.full_name) + opt_line(
        "Username: "@,
        u.username,
    )
}

/// The lines `alert user` prints (see [`user_detail_spec`]).
pub fn user_detail_lines(u: &User) -> (r: Vec<String>)
    ensures
        lines_view(r@) == user_detail_spec(*u),
{
    let mut lines: Vec<String> = Vec::new();
    assert(lines_view(lines@) =~= Seq::<Seq<char>>::empty());
    push_opt_line(&mut lines, "Account ID: ", &u.account_id);
    push_opt_line(&mut lines, "Name: ", &u.display_name);
    push_opt_line(&mut lines, "Email: ", &u.email_address);
    let ghost p = lines_view(lines@);
    match u.active {
        Some(b) => push_line(&mut lines, line2("Active: ", bool_string(b).as_str())),
        None => {},
    }
    assert(lines_view(lines@) =~= p + match u.active {
        Some(b) => seq!["Active: "@ + bool_text(b)],
        None => seq![],
    });
    push_opt_line(&mut lines, "Timezone: ", &u.time_zone);
    push_opt_line(&mut lines, "User ID: ", &u.id);
    push_opt_line(&mut lines, "Full name: ", &u.full_name);
    push_opt_line(&mut lines, "Username: ", &u.username);
    assert(lines_view(lines@) =~= user_detail_spec(*u));
    lines
}

// ---------------------------------------------------------------------------
// Confluence
// ---------------------------------------------------------------------------

/// The heading of the space list.
pub open spec fn space_header() -> Seq<char> {
    cell("ID"@, 20) + cell("KEY"@, 15) + cell("TYPE"@, 12) + "NAME"@
}

/// One line of the space list.
pub open spec fn space_row(s: Space) -> Seq<char> {
    cell(s.id@, 20) + cell(or_text(s.key, seq![]), 15) + cell(or_text(s.space_type, seq![]), 12) + s.name@
}

/// The lines `confluence space list` prints.
pub fn space_lines(ss: &Vec<Space>) -> (r: Vec<String>)
    ensures
        lines_view(r@) == seq![space_header()] + Seq::new(ss@.len(), |k: int| space_row(ss@[k])),
{
    let mut lines: Vec<String> = Vec::new();
    let mut h = String::new();
    push_cell(&mut h, "ID", 20);
    push_cell(&mut h, "KEY", 15);
    push_cell(&mut h, "TYPE", 12);
    h.append("NAME");
    lines.push(h);
    let n = ss.len();
    proof {
        reveal_strlit("");
    }
    for k in 0..n
        invariant
            n == ss@.len(),
            ""@ == Seq::<char>::empty(),
            lines_view(lines@) == seq![space_header()] + Seq::new(k as nat, |j: int| space_row(ss@[j])),
    {
        let sp = &ss[k];
        let mut s = String::new();
        push_cell(&mut s, sp.id.as_str(), 20);
        push_cell(&mut s, or_str(&sp.key, ""), 15);
        push_cell(&mut s, or_str(&sp.space_type, ""), 12);
        s.append(sp.name.as_str());
        let ghost before = lines_view(lines@);
        lines.push(s);
        assert(seq![space_header()] + Seq::new((k + 1) as nat, |j: int| space_row(ss@[j])) =~= before.push(space_row(ss@[k as int])));
    }
    lines
}

/// The lines `confluence space get` prints.
pub open spec fn space_detail_spec(s: Space) -> Seq<Seq<char>> {
    seq![
        "ID:     "@ + s.id@,
        "Key:    "@ + or_text(s.key, seq![]),
        "Name:   "@ + s.name@,
        "Type:   "@ + or_text(s.space_type, seq![]),
        "Status: "@ + or_text(s.status, seq![]),
    ]
}

/// The lines `confluence space get` prints (see [`space_detail_spec`]).
pub fn space_detail_lines(s: &Space) -> (r: Vec<String>)
    ensures
        lines_view(r@) == space_detail_spec(*s),
{
    proof {
        reveal_strlit("");
    }
    let mut lines: Vec<String> = Vec::new();
    push_line(&mut lines, line2("ID:     ", s.id.as_str()));
    push_line(&mut lines, line2("Key:    ", or_str(&s.key, "")));
    push_line(&mut lines, line2("Name:   ", s.name.as_str()));
    push_line(&mut lines, line2("Type:   ", or_str(&s.space_type, "")));
    push_line(&mut lines, line2("Status: ", or_str(&s.status, "")));
    assert(lines_view(lines@) =~= space_detail_spec(*s));
    lines
}

/// The heading of the page list.
pub open spec fn page_header() -> Seq<char> {
    cell("ID"@, 20) + cell("STATUS"@, 12) + "TITLE"@
}

/// One line of the page list.
pub open spec fn page_row(p: Page) -> Seq<char> {
    cell(p.id@, 20) + cell(or_text(p.status, seq![]), 12) + p.title@
}

/// The lines `confluence page list` and `confluence space pages` print.
pub fn page_lines(ps: &Vec<Page>) -> (r: Vec<String>)
    ensures
        lines_view(r@) == seq![page_header()] + Seq::new(ps@.len(), |k: int| page_row(ps@[k])),
{
    let mut lines: Vec<String> = Vec::new();
    let mut h = String::new();
    push_cell(&mut h, "ID", 20);
    push_cell(&mut h, "STATUS", 12);
    h.append("TITLE");
    lines.push(h);
    let n = ps.len();
    proof {
        reveal_strlit("");
    }
    for k in 0..n
        invariant
            n == ps@.len(),
            ""@ == Seq::<char>::empty(),
            lines_view(lines@) == seq![page_header()] + Seq::new(k as nat, |j: int| page_row(ps@[j])),
    {
        let mut s = String::new();
        push_cell(&mut s, ps[k].id.as_str(), 20);
        push_cell(&mut s, or_str(&ps[k].status, ""), 12);
        s.append(ps[k].title.as_str());
        let ghost before = lines_view(lines@);
        lines.push(s);
        assert(seq![page_header()] + Seq::new((k + 1) as nat, |j: int| page_row(ps@[j])) =~= before.push(page_row(ps@[k as int])));
    }
    lines
}

/// The lines `confluence page get` prints: the page's fields, its version
/// when known, and its content as plain text when the body was fetched.
pub open spec fn page_detail_spec(p: Page) -> Seq<Seq<char>> {
    seq![
        "ID:       "@ + p.id@,
        "Title:    "@ + p.title@,
        "Space:    "@ + or_text(p.space_id, seq![]),
        "Status:   "@ + or_text(p.status, seq![]),
        "Author:   "@ + or_text(p.author_id, seq![]),
        "Created:  "@ + or_text(p.created_at, seq![]),
    ] + match p.version {
        Some(v) => seq!["Version:  "@ + signed_decimal(v.number as int)],
        None => seq![],
    } + match p.body {
        Some(b) => match b.value {
            Some(html) => seq!["\nContent:\n"@ + render_storage_spec(html@)],
            None => seq![],
        },
        None => seq![],
    }
}

/// The lines `confluence page get` prints (see [`page_detail_spec`]).
pub fn page_detail_lines(p: &Page) -> (r: Vec<String>)
    ensures
        lines_view(r@) == page_detail_spec(*p),
{
    proof {
        reveal_strlit("");
    }
    let mut lines: Vec<String> = Vec::new();
    push_line(&mut lines, line2("ID:       ", p.id.as_str()));
    push_line(&mut lines, line2("Title:    ", p.title.as_str()));
    push_line(&mut lines, line2("Space:    ", or_str(&p.space_id, "")));
    push_line(&mut lines, line2("Status:   ", or_str(&p.status, "")));
    push_line(&mut lines, line2("Author:   ", or_str(&p.author_id, "")));
    push_line(&mut lines, line2("Created:  ", or_str(&p.created_at, "")));
    match &p.version {
        Some(v) => push_line(&mut lines, line2("Version:  ", i64_to_decimal(v.number as i64).as_str())),
        None => {},
    }
    match &p.body {
        Some(b) => match &b.value {
            Some(html) => push_line(&mut lines, line2("\nContent:\n", render_storage(html.as_str()).as_str())),
            None => {},
        },
        None => {},
    }
    assert(lines_view(lines@) =~= page_detail_spec(*p));
    lines
}

// ---------------------------------------------------------------------------
// Bitbucket
// ---------------------------------------------------------------------------

/// The heading of the repository list.
pub open spec fn repo_header() -> Seq<char> {
    cell("FULL NAME"@, 40) + cell("LANGUAGE"@, 12) + cell("PRIVATE"@, 10) + "UPDATED"@
}

/// One line of the repository list.
pub open spec fn repo_row(r: Repo) -> Seq<char> {
    cell(r.full_name@, 40) + cell(or_text(r.language, seq![]), 12) + cell(bool_text(r.is_private), 10) + or_text(r.updated_on, seq![])
}

/// The lines `bitbucket repo list` prints.
pub fn repo_lines(rs: &Vec<Repo>) -> (r: Vec<String>)
    ensures
        lines_view(r@) == seq![repo_header()] + Seq::new(rs@.len(), |k: int| repo_row(rs@[k])),
{
    let mut lines: Vec<String> = Vec::new();
    let mut h = String::new();
    push_cell(&mut h, "FULL NAME", 40);
    push_cell(&mut h, "LANGUAGE", 12);
    push_cell(&mut h, "PRIVATE", 10);
    h.append("UPDATED");
    lines.push(h);
    let n = rs.len();
    proof {
        reveal_strlit("");
    }
    for k in 0..n
        invariant
            n == rs@.len(),
            ""@ == Seq::<char>::empty(),
            lines_view(lines@) == seq![repo_header()] + Seq::new(k as nat, |j: int| repo_row(rs@[j])),
    {
        let mut s = String::new();
        push_cell(&mut s, rs[k].full_name.as_str(), 40);
        push_cell(&mut s, or_str(&rs[k].language, ""), 12);
        push_cell(&mut s, bool_string(rs[k].is_private).as_str(), 10);
        s.append(or_str(&rs[k].updated_on, ""));
        let ghost before = lines_view(lines@);
        lines.push(s);
        assert(seq![repo_header()] + Seq::new((k + 1) as nat, |j: int| repo_row(rs@[j])) =~= before.push(repo_row(rs@[k as int])));
    }
    lines
}

/// The lines `bitbucket repo get` prints.
pub open spec fn repo_detail_spec(r: Repo) -> Seq<Seq<char>> {
    seq![
        "Name:        "@ + r.full_name@,
        "Description: "@ + or_text(r.description, seq![]),
        "Language:    "@ + or_text(r.language, seq![]),
        "SCM:         "@ + or_text(r.scm, "git"@),
        "Private:     "@ + bool_text(r.is_private),
        "Main Branch: "@ + match r.main_branch {
            Some(b) => b.name@,
            None => "N/A"@,
        },
        "Created:     "@ + or_text(r.created_on, seq![]),
        "Updated:     "@ + or_text(r.updated_on, seq![]),
    ]
}

/// The lines `bitbucket repo get` prints (see [`repo_detail_spec`]).
pub fn repo_detail_lines(r: &Repo) -> (lines: Vec<String>)
    ensures
        lines_view(lines@) == repo_detail_spec(*r),
{
    proof {
        reveal_strlit("");
    }
    let main = match &r.main_branch {
        Some(b) => b.name.as_str(),
        None => "N/A",
    };
    let mut lines: Vec<String> = Vec::new();
    push_line(&mut lines, line2("Name:        ", r.full_name.as_str()));
    push_line(&mut lines, line2("Description: ", or_str(&r.description, "")));
    push_line(&mut lines, line2("Language:    ", or_str(&r.language, "")));
    push_line(&mut lines, line2("SCM:         ", or_str(&r.scm, "git")));
    push_line(&mut lines, line2("Private:     ", bool_string(r.is_private).as_str()));
    push_line(&mut lines, line2("Main Branch: ", main));
    push_line(&mut lines, line2("Created:     ", or_str(&r.created_on, "")));
    push_line(&mut lines, line2("Updated:     ", or_str(&r.updated_on, "")));
    assert(lines_view(lines@) =~= repo_detail_spec(*r));
    lines
}

/// The heading of the pull request list.
pub open spec fn pr_header() -> Seq<char> {
    cell("ID"@, 6) + cell("STATE"@, 10) + cell("AUTHOR"@, 18) + cell("TITLE"@, 22) + "SOURCE -> DEST"@
}

/// One line of the pull request list: the title's first 22 characters.
pub open spec fn pr_row(p: PullRequest) -> Seq<char> {
    cell(signed_decimal(p.id as int), 6) + cell(p.state@, 10) + cell(p.author.display_name@, 18) + cell(take_chars(p.title@, 22), 22)
        + p.source.branch.name@ + " -> "@ + p.destination.branch.name@
}

/// The lines `bitbucket pr list` prints.
pub fn pr_lines(ps: &Vec<PullRequest>) -> (r: Vec<String>)
    ensures
        lines_view(r@) == seq![pr_header()] + Seq::new(ps@.len(), |k: int| pr_row(ps@[k])),
{
    let mut lines: Vec<String> = Vec::new();
    let mut h = String::new();
    push_cell(&mut h, "ID", 6);
    push_cell(&mut h, "STATE", 10);
    push_cell(&mut h, "AUTHOR", 18);
    push_cell(&mut h, "TITLE", 22);
    h.append("SOURCE -> DEST");
    lines.push(h);
    let n = ps.len();
    for k in 0..n
        invariant
            n == ps@.len(),
            lines_view(lines@) == seq![pr_header()] + Seq::new(k as nat, |j: int| pr_row(ps@[j])),
    {
        let p = &ps[k];
        let mut s = String::new();
        push_cell(&mut s, i64_to_decimal(p.id).as_str(), 6);
        push_cell(&mut s, p.state.as_str(), 10);
        push_cell(&mut s, p.author.display_name.as_str(), 18);
        push_cell(&mut s, prefix_chars(p.title.as_str(), 22).as_str(), 22);
        s.append(p.source.branch.name.as_str());
        s.append(" -> ");
        s.append(p.destination.branch.name.as_str());
        let ghost before = lines_view(lines@);
        lines.push(s);
        assert(seq![pr_header()] + Seq::new((k + 1) as nat, |j: int| pr_row(ps@[j])) =~= before.push(pr_row(ps@[k as int])));
    }
    lines
}

/// The lines `bitbucket pr get` prints: the description only when non-empty.
pub open spec fn pr_detail_spec(p: PullRequest) -> Seq<Seq<char>> {
    seq![
        "ID:          "@ + signed_decimal(p.id as int),
        "Title:       "@ + p.title@,
        "State:       "@ + p.state@,
        "Author:      "@ + p.author.display_name@,
        "Source:      "@ + p.source.branch.name@,
        "Destination: "@ + p.destination.branch.name@,
        "Created:     "@ + or_text(p.created_on, seq![]),
        "Updated:     "@ + or_text(p.updated_on, seq![]),
    ] + match p.description {
        Some(d) => if d@.len() > 0 {
            seq!["Description:\n"@ + d@]
        } else {
            seq![]
        },
        None => seq![],
    }
}

/// The lines `bitbucket pr get` prints (see [`pr_detail_spec`]).
pub fn pr_detail_lines(p: &PullRequest) -> (r: Vec<String>)
    ensures
        lines_view(r@) == pr_detail_spec(*p),
{
    proof {
        reveal_strlit("");
    }
    let mut lines: Vec<String> = Vec::new();
    push_line(&mut lines, line2("ID:          ", i64_to_decimal(p.id).as_str()));
    push_line(&mut lines, line2("Title:       ", p.title.as_str()));
    push_line(&mut lines, line2("State:       ", p.state.as_str()));
    push_line(&mut lines, line2("Author:      ", p.author.display_name.as_str()));
    push_line(&mut lines, line2("Source:      ", p.source.branch.name.as_str()));
    push_line(&mut lines, line2("Destination: ", p.destination.branch.name.as_str()));
    push_line(&mut lines, line2("Created:     ", or_str(&p.created_on, "")));
    push_line(&mut lines, line2("Updated:     ", or_str(&p.updated_on, "")));
    match &p.description {
        Some(d) => {
            if !d.as_str().is_empty() {
                push_line(&mut lines, line2("Description:\n", d.as_str()));
            }
        },
        None => {},
    }
    assert(lines_view(lines@) =~= pr_detail_spec(*p));
    lines
}

/// How a pipeline or step ended, or else its state.
pub open spec fn state_text(s: PipelineState) -> Seq<char> {
    match s.result {
        Some(r) => r.name@,
        None => s.name@,
    }
}

fn state_str(s: &PipelineState) -> (r: &str)
    ensures
        r@ == state_text(*s),
{
    match &s.result {
        Some(r) => r.name.as_str(),
        None => s.name.as_str(),
    }
}

/// The heading of the pipeline list.
pub open spec fn pipeline_header() -> Seq<char> {
    cell("BUILD#"@, 8) + cell("STATUS"@, 12) + cell("TRIGGER"@, 12) + cell("TARGET"@, 26) + "CREATED"@
}

/// One line of the pipeline list.
pub open spec fn pipeline_row(p: Pipeline) -> Seq<char> {
    cell(signed_decimal(p.build_number as int), 8) + cell(state_text(p.state), 12) + cell(p.trigger.name@, 12) + cell(
        or_text(p.target.ref_name, seq![]),
        26,
    ) + or_text(p.created_on, seq![])
}

/// The lines `bitbucket pipeline list` prints.
pub fn pipeline_lines(ps: &Vec<Pipeline>) -> (r: Vec<String>)
    ensures
        lines_view(r@) == seq![pipeline_header()] + Seq::new(ps@.len(), |k: int| pipeline_row(ps@[k])),
{
    let mut lines: Vec<String> = Vec::new();
    let mut h = String::new();
    push_cell(&mut h, "BUILD#", 8);
    push_cell(&mut h, "STATUS", 12);
    push_cell(&mut h, "TRIGGER", 12);
    push_cell(&mut h, "TARGET", 26);
    h.append("CREATED");
    lines.push(h);
    let n = ps.len();
    proof {
        reveal_strlit("");
    }
    for k in 0..n
        invariant
            n == ps@.len(),
            ""@ == Seq::<char>::empty(),
            lines_view(lines@) == seq![pipeline_header()] + Seq::new(k as nat, |j: int| pipeline_row(ps@[j])),
    {
        let p = &ps[k];
        let mut s = String::new();
        push_cell(&mut s, i64_to_decimal(p.build_number).as_str(), 8);
        push_cell(&mut s, state_str(&p.state), 12);
        push_cell(&mut s, p.trigger.name.as_str(), 12);
        push_cell(&mut s, or_str(&p.target.ref_name, ""), 26);
        s.append(or_str(&p.created_on, ""));
        let ghost before = lines_view(lines@);
        lines.push(s);
        assert(seq![pipeline_header()] + Seq::new((k + 1) as nat, |j: int| pipeline_row(ps@[j])) =~= before.push(
            pipeline_row(ps@[k as int]),
        ));
    }
    lines
}

/// The lines `bitbucket pipeline get` prints: the duration only when known.
pub open spec fn pipeline_detail_spec(p: Pipeline) -> Seq<Seq<char>> {
    seq![
        "Build #:   "@ + signed_decimal(p.build_number as int),
        "UUID:      "@ + p.uuid@,
        "Status:    "@ + state_text(p.state),
        "Trigger:   "@ + p.trigger.name@,
        "Target:    "@ + or_text(p.target.ref_name, seq![]),
        "Commit:    "@ + match p.target.commit {
            Some(c) => c.hash@,
            None => seq![],
        },
        "Created:   "@ + or_text(p.created_on, seq![]),
        "Completed: "@ + or_text(p.completed_on, seq![]),
    ] + match p.duration_in_seconds {
        Some(secs) => seq!["Duration:  "@ + signed_decimal(secs as int) + "s"@],
        None => seq![],
    }
}

/// The lines `bitbucket pipeline get` prints (see [`pipeline_detail_spec`]).
pub fn pipeline_detail_lines(p: &Pipeline) -> (r: Vec<String>)
    ensures
        lines_view(r@) == pipeline_detail_spec(*p),
{
    proof {
        reveal_strlit("");
    }
    let commit = match &p.target.commit {
        Some(c) => c.hash.as_str(),
        None => "",
    };
    let mut lines: Vec<String> = Vec::new();
    push_line(&mut lines, line2("Build #:   ", i64_to_decimal(p.build_number).as_str()));
    push_line(&mut lines, line2("UUID:      ", p.uuid.as_str()));
    push_line(&mut lines, line2("Status:    ", state_str(&p.state)));
    push_line(&mut lines, line2("Trigger:   ", p.trigger.name.as_str()));
    push_line(&mut lines, line2("Target:    ", or_str(&p.target.ref_name, "")));
    push_line(&mut lines, line2("Commit:    ", commit));
    push_line(&mut lines, line2("Created:   ", or_str(&p.created_on, "")));
    push_line(&mut lines, line2("Completed: ", or_str(&p.completed_on, "")));
    match p.duration_in_seconds {
        Some(secs) => {
            let mut l = line2("Duration:  ", i64_to_decimal(secs).as_str());
            l.append("s");
            push_line(&mut lines, l);
        },
        None => {},
    }
    assert(lines_view(lines@) =~= pipeline_detail_spec(*p));
    lines
}

/// The heading of the step list.
pub open spec fn step_header() -> Seq<char> {
    cell("UUID"@, 40) + cell("STATUS"@, 12) + cell("DURATION"@, 8) + "NAME"@
}

/// One line of the step list.
pub open spec fn step_row(s: PipelineStep) -> Seq<char> {
    cell(s.uuid@, 40) + cell(state_text(s.state), 12) + cell(
        match s.duration_in_seconds {
            Some(d) => signed_decimal(d as int) + "s"@,
            None => seq![],
        },
        8,
    ) + or_text(s.name, seq![])
}

/// The lines `bitbucket pipeline steps` prints.
pub fn step_lines(ss: &Vec<PipelineStep>) -> (r: Vec<String>)
    ensures
        lines_view(r@) == seq![step_header()] + Seq::new(ss@.len(), |k: int| step_row(ss@[k])),
{
    let mut lines: Vec<String> = Vec::new();
    let mut h = String::new();
    push_cell(&mut h, "UUID", 40);
    push_cell(&mut h, "STATUS", 12);
    push_cell(&mut h, "DURATION", 8);
    h.append("NAME");
    lines.push(h);
    let n = ss.len();
    proof {
        reveal_strlit("");
    }
    for k in 0..n
        invariant
            n == ss@.len(),
            ""@ == Seq::<char>::empty(),
            lines_view(lines@) == seq![step_header()] + Seq::new(k as nat, |j: int| step_row(ss@[j])),
    {
        let st = &ss[k];
        let dur = match st.duration_in_seconds {
            Some(d) => {
                let mut t = i64_to_decimal(d);
                t.append("s");
                t
            },
            None => String::new(),
        };
        let mut s = String::new();
        push_cell(&mut s, st.uuid.as_str(), 40);
        push_cell(&mut s, state_str(&st.state), 12);
        push_cell(&mut s, dur.as_str(), 8);
        s.append(or_str(&st.name, ""));
        let ghost before = lines_view(lines@);
        lines.push(s);
        assert(seq![step_header()] + Seq::new((k + 1) as nat, |j: int| step_row(ss@[j])) =~= before.push(step_row(ss@[k as int])));
    }
    lines
}

// ---------------------------------------------------------------------------
// Configuration
// ---------------------------------------------------------------------------

/// The mark of the default profile in the profile list.
pub open spec fn default_mark(cfg: Config, name: Seq<char>) -> Seq<char> {
    if opt_view(cfg.default_profile) == Some(name) {
        "*"@
    } else {
        seq![]
    }
}

/// The heading of the profile list.
pub open spec fn profile_header() -> Seq<char> {
    cell("PROFILE"@, 20) + cell("DEFAULT"@, 10) + cell("URL"@, 40) + pad("EMAIL"@, 30)
}

/// One line of the profile list.
pub open spec fn profile_row(cfg: Config, k: int) -> Seq<char> {
    let (name, p) = cfg.profiles@[k];
    cell(name@, 20) + cell(default_mark(cfg, name@), 10) + cell(p.atlassian_url@, 40) + pad(p.email@, 30)
}

/// The lines `config list` prints: a notice when there is no profile, else a
/// heading and one line per profile, the default one marked `*`.
pub open spec fn profile_list_spec(cfg: Config) -> Seq<Seq<char>> {
    if cfg.profiles@.len() == 0 {
        seq!["No profiles configured. Run 'acli config setup' to create one."@]
    } else {
        seq![profile_header()] + Seq::new(cfg.profiles@.len(), |k: int| profile_row(cfg, k))
    }
}

/// The lines `config list` prints (see [`profile_list_spec`]).
pub fn profile_list_lines(cfg: &Config) -> (r: Vec<String>)
    ensures
        lines_view(r@) == profile_list_spec(*cfg),
{
    let mut lines: Vec<String> = Vec::new();
    if cfg.profiles.len() == 0 {
        push_line(&mut lines, String::from_str("No profiles configured. Run 'acli config setup' to create one."));
        assert(lines_view(lines@) =~= profile_list_spec(*cfg));
        return lines;
    }
    let mut h = String::new();
    push_cell(&mut h, "PROFILE", 20);
    push_cell(&mut h, "DEFAULT", 10);
    push_cell(&mut h, "URL", 40);
    push_padded(&mut h, "EMAIL", 30);
    lines.push(h);
    let n = cfg.profiles.len();
    proof {
        reveal_strlit("");
    }
    for k in 0..n
        invariant
            n == cfg.profiles@.len(),
            ""@ == Seq::<char>::empty(),
            lines_view(lines@) == seq![profile_header()] + Seq::new(k as nat, |j: int| profile_row(*cfg, j)),
    {
        let (name, p) = &cfg.profiles[k];
        let is_default = match &cfg.default_profile {
            Some(d) => crate::text::str_eq(d.as_str(), name.as_str()),
            None => false,
        };
        let mut s = String::new();
        push_cell(&mut s, name.as_str(), 20);
        push_cell(&mut s, if is_default { "*" } else { "" }, 10);
        push_cell(&mut s, p.atlassian_url.as_str(), 40);
        push_padded(&mut s, p.email.as_str(), 30);
        let ghost before = lines_view(lines@);
        lines.push(s);
        assert(s@ == profile_row(*cfg, k as int));
        assert(seq![profile_header()] + Seq::new((k + 1) as nat, |j: int| profile_row(*cfg, j)) =~= before.push(
            profile_row(*cfg, k as int),
        ));
    }
    assert(lines_view(lines@) =~= profile_list_spec(*cfg));
    lines
}

/// The lines `config show` prints: the profile with its token masked, and the
/// defaults it has.
pub open spec fn profile_show_spec(p: Profile) -> Seq<Seq<char>> {
    seq![
        "Profile: "@ + p.name@,
        "  Atlassian URL:    "@ + p.atlassian_url@,
        "  Email:            "@ + p.email@,
        "  API Token:        "@ + mask_spec(p.api_token@),
    ] + match p.defaults {
        Some(d) => seq!["  Defaults:"@] + opt_line("    Project:        "@, d.project) + opt_line("    Workspace:      "@, d.workspace)
            + opt_line("    BB Project:     "@, d.bb_project),
        None => seq![],
    }
}

/// The lines `config show` prints (see [`profile_show_spec`]).
pub fn profile_show_lines(p: &Profile) -> (r: Vec<String>)
    requires
        mask_allowed(p.api_token@),
    ensures
        lines_view(r@) == profile_show_spec(*p),
{
    let mut lines: Vec<String> = Vec::new();
    push_line(&mut lines, line2("Profile: ", p.name.as_str()));
    push_line(&mut lines, line2("  Atlassian URL:    ", p.atlassian_url.as_str()));
    push_line(&mut lines, line2("  Email:            ", p.email.as_str()));
    push_line(&mut lines, line2("  API Token:        ", mask_token(p.api_token.as_str()).as_str()));
    match &p.defaults {
        Some(d) => {
            push_line(&mut lines, String::from_str("  Defaults:"));
            push_opt_line(&mut lines, "    Project:        ", &d.project);
            push_opt_line(&mut lines, "    Workspace:      ", &d.workspace);
            push_opt_line(&mut lines, "    BB Project:     ", &d.bb_project);
        },
        None => {},
    }
    assert(lines_view(lines@) =~= profile_show_spec(*p));
    lines
}

/// What `config setup` says first.
pub open spec fn setup_intro_spec(name: Seq<char>, existing: bool) -> Seq<char> {
    if existing {
        "Updating profile \""@ + name + "\" (press Enter to keep current value)\n"@
    } else {
        "Creating profile \""@ + name + "\"\n"@
    }
}

/// What `config setup` says first (see [`setup_intro_spec`]).
pub fn setup_intro(name: &str, existing: bool) -> (r: String)
    ensures
        r@ == setup_intro_spec(name@, existing),
{
    if existing {
        let mut s = String::from_str("Updating profile \"");
        s.append(name);
        s.append("\" (press Enter to keep current value)\n");
        s
    } else {
        let mut s = String::from_str("Creating profile \"");
        s.append(name);
        s.append("\"\n");
        s
    }
}

/// The prompt for one setting: the current value in brackets, else the
/// placeholder in parentheses, else the label alone.
pub open spec fn prompt_spec(label: Seq<char>, current: Seq<char>, placeholder: Seq<char>) -> Seq<char> {
    if current.len() > 0 {
        "  "@ + label + " ["@ + current + "]: "@
    } else if placeholder.len() > 0 {
        "  "@ + label + " ("@ + placeholder + "): "@
    } else {
        "  "@ + label + ": "@
    }
}

/// The prompt for one setting (see [`prompt_spec`]).
pub fn prompt_text(label: &str, current: &str, placeholder: &str) -> (r: String)
    ensures
        r@ == prompt_spec(label@, current@, placeholder@),
{
    let mut s = String::from_str("  ");
    s.append(label);
    if !current.is_empty() {
        s.append(" [");
        s.append(current);
        s.append("]: ");
    } else if !placeholder.is_empty() {
        s.append(" (");
        s.append(placeholder);
        s.append("): ");
    } else {
        s.append(": ");
    }
    s
}

/// The value a prompt settles on: what was typed, trimmed; an empty answer
/// keeps the current value, or else takes the placeholder.
pub open spec fn prompt_answer_spec(input: Seq<char>, current: Seq<char>, placeholder: Seq<char>) -> Seq<char> {
    if trim(input).len() == 0 {
        if current.len() > 0 {
            current
        } else {
            placeholder
        }
    } else {
        trim(input)
    }
}

/// The value a prompt settles on (see [`prompt_answer_spec`]).
pub fn prompt_answer(input: &str, current: &str, placeholder: &str) -> (r: String)
    ensures
        r@ == prompt_answer_spec(input@, current@, placeholder@),
{
    let c = chars_of(input);
    let t = trimmed_string(c.as_slice());
    if t.as_str().is_empty() {
        if !current.is_empty() {
            String::from_str(current)
        } else {
            String::from_str(placeholder)
        }
    } else {
        t
    }
}


// ---------------------------------------------------------------------------
// Column laws of the comment list and the profile list
// ---------------------------------------------------------------------------

/// The display name of a comment's author, or nothing.
pub open spec fn comment_author_name(c: Comment) -> Seq<char> {
    match c.author {
        Some(a) => a.display_name@,
        None => seq![],
    }
}

/// In the comment list, each row's text lines up with the heading: the id
/// under ID, the author's display name under AUTHOR, the creation time under
/// CREATED (each followed by blanks up to the next column), and the first 60
/// characters of the rendered body under BODY, whenever each text fits its
/// column.
pub proof fn law_comment_columns(c: Comment)
    requires
        c.id@.len() <= 12,
        comment_author_name(c).len() <= 25,
        or_text(c.created, seq![]).len() <= 22,
    ensures
        comment_header().subrange(0, 2) == "ID"@,
        comment_header().subrange(13, 19) == "AUTHOR"@,
        comment_header().subrange(39, 46) == "CREATED"@,
        comment_header().skip(62) == "BODY"@,
        comment_row(c).subrange(0, c.id@.len() as int) == c.id@,
        forall|i: int| c.id@.len() <= i < 13 ==> #[trigger] comment_row(c)[i] == ' ',
        comment_row(c).subrange(13, 13 + comment_author_name(c).len() as int) == comment_author_name(c),
        forall|i: int| 13 + comment_author_name(c).len() <= i < 39 ==> #[trigger] comment_row(c)[i] == ' ',
        comment_row(c).subrange(39, 39 + or_text(c.created, seq![]).len() as int) == or_text(c.created, seq![]),
        forall|i: int| 39 + or_text(c.created, seq![]).len() <= i < 62 ==> #[trigger] comment_row(c)[i] == ' ',
        comment_row(c).skip(62) == take_chars(adf_text(c.body), 60),
{
    reveal_strlit("ID");
    reveal_strlit("AUTHOR");
    reveal_strlit("CREATED");
    reveal_strlit("BODY");
    reveal_strlit(" ");
    let id = c.id@;
    let a = comment_author_name(c);
    let d = or_text(c.created, seq![]);
    let x = cell(id, 12);
    let y = cell(a, 25);
    let z = cell(d, 22);
    let b = take_chars(adf_text(c.body), 60);
    assert(x.len() == 13);
    assert(y.len() == 26);
    assert(z.len() == 23);
    let row = comment_row(c);
    assert(row =~= x + y + z + b);
    assert(row.subrange(0, id.len() as int) =~= id);
    assert(row.subrange(13, 13 + a.len() as int) =~= a);
    assert(row.subrange(39, 39 + d.len() as int) =~= d);
    assert(row.skip(62) =~= b);
    assert forall|i: int| id.len() <= i < 13 implies #[trigger] row[i] == ' ' by {
        assert(row[i] == x[i]);
    }
    assert forall|i: int| 13 + a.len() <= i < 39 implies #[trigger] row[i] == ' ' by {
        assert(row[i] == y[i - 13]);
    }
    assert forall|i: int| 39 + d.len() <= i < 62 implies #[trigger] row[i] == ' ' by {
        assert(row[i] == z[i - 39]);
    }
    let h = comment_header();
    let hx = cell("ID"@, 12);
    let hy = cell("AUTHOR"@, 25);
    let hz = cell("CREATED"@, 22);
    assert(hx.len() == 13);
    assert(hy.len() == 26);
    assert(hz.len() == 23);
    assert(h =~= hx + hy + hz + "BODY"@);
    assert(h.subrange(0, 2) =~= "ID"@);
    assert(h.subrange(13, 19) =~= "AUTHOR"@);
    assert(h.subrange(39, 46) =~= "CREATED"@);
    assert(h.skip(62) =~= "BODY"@);
}

/// Where the DEFAULT column of row `k` of the profile list starts: after the
/// name padded to twenty characters (or the whole name when longer) and a space.
pub open spec fn default_column(cfg: Config, k: int) -> int {
    let name = cfg.profiles@[k].0@;
    (if name.len() < 20 { 20 } else { name.len() as int }) + 1
}

/// Whether row `k` of the profile list shows the default mark `*`.
pub open spec fn row_marked(cfg: Config, k: int) -> bool {
    profile_row(cfg, k)[default_column(cfg, k)] == '*'
}

proof fn lemma_row_mark(cfg: Config, k: int)
    requires
        0 <= k < cfg.profiles@.len(),
    ensures
        row_marked(cfg, k) <==> opt_view(cfg.default_profile) == Some(cfg.profiles@[k].0@),
        !row_marked(cfg, k) ==> profile_row(cfg, k)[default_column(cfg, k)] == ' ',
{
    reveal_strlit("*");
    reveal_strlit(" ");
    let (name, p) = cfg.profiles@[k];
    let m = default_mark(cfg, name@);
    let x = cell(name@, 20);
    let y = cell(m, 10);
    assert(x.len() == default_column(cfg, k));
    let row = profile_row(cfg, k);
    assert(row =~= x + y + cell(p.atlassian_url@, 40) + pad(p.email@, 30));
    assert(row[default_column(cfg, k)] == y[0]);
    if opt_view(cfg.default_profile) == Some(name@) {
        assert(m == seq!['*']);
        assert(y[0] == '*');
    } else {
        assert(m.len() == 0);
        assert(y[0] == ' ');
    }
}

/// In the profile list, a row carries the default mark exactly when its
/// profile is the configured default (its DEFAULT column is blank otherwise).
/// So, the names being distinct, at most one row is marked; none is when no
/// default is set, and the default's own row is when it names a profile.
pub proof fn law_default_mark(cfg: Config)
    requires
        cfg.wf(),
    ensures
        profile_header().subrange(21, 28) == "DEFAULT"@,
        forall|k: int| 0 <= k < cfg.profiles@.len() ==>
            (#[trigger] row_marked(cfg, k) <==> opt_view(cfg.default_profile) == Some(cfg.profiles@[k].0@)),
        forall|k: int| 0 <= k < cfg.profiles@.len() && !#[trigger] row_marked(cfg, k) ==>
            profile_row(cfg, k)[default_column(cfg, k)] == ' ',
        forall|j: int, k: int| 0 <= j < cfg.profiles@.len() && 0 <= k < cfg.profiles@.len()
            && #[trigger] row_marked(cfg, j) && #[trigger] row_marked(cfg, k) ==> j == k,
        cfg.default_profile is None ==> forall|k: int| 0 <= k < cfg.profiles@.len() ==> !#[trigger] row_marked(cfg, k),
{
    reveal_strlit("PROFILE");
    reveal_strlit("DEFAULT");
    reveal_strlit(" ");
    let h = profile_header();
    let hx = cell("PROFILE"@, 20);
    assert(hx.len() == 21);
    assert(cell("DEFAULT"@, 10).len() == 11);
    assert(h =~= hx + cell("DEFAULT"@, 10) + cell("URL"@, 40) + pad("EMAIL"@, 30));
    assert(h.subrange(21, 28) =~= "DEFAULT"@);
    assert forall|k: int| 0 <= k < cfg.profiles@.len() implies
        (#[trigger] row_marked(cfg, k) <==> opt_view(cfg.default_profile) == Some(cfg.profiles@[k].0@))
        && (!row_marked(cfg, k) ==> profile_row(cfg, k)[default_column(cfg, k)] == ' ') by {
        lemma_row_mark(cfg, k);
    }
    assert forall|j: int, k: int| 0 <= j < cfg.profiles@.len() && 0 <= k < cfg.profiles@.len()
        && #[trigger] row_marked(cfg, j) && #[trigger] row_marked(cfg, k) implies j == k by {
        lemma_row_mark(cfg, j);
        lemma_row_mark(cfg, k);
        if j < k {
            assert(cfg.profiles@[j].0@ != cfg.profiles@[k].0@);
        } else if k < j {
            assert(cfg.profiles@[k].0@ != cfg.profiles@[j].0@);
        }
    }
}

} // verus!
