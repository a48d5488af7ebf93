use acli_rust::agile::{Board, BoardLocation, Sprint};
use acli_rust::alerts::{Alert, AlertLog, AlertNote, AlertResponder, Schedule, User};
use acli_rust::bitbucket::{BbRef, BbUser, PipelineState, PipelineStateResult, PipelineStep, PrEndpoint, PullRequest};
use acli_rust::config::{Config, Profile};
use acli_rust::confluence::{Page, PageBody, PageVersion};
use acli_rust::jira::{IssueDetailed, IssueFields, IssueType, StatusDetails, UserDetails};
use acli_rust::json::JsonValue;
use acli_rust::output::{
    agile_issue_lines, alert_detail_lines, alert_lines, board_lines, issue_detail_lines, issue_list_lines, oncall_lines,
    page_detail_lines, pr_lines, profile_list_lines, profile_show_lines, prompt_answer, prompt_text, schedule_lines,
    setup_intro, sprint_lines, step_lines, user_detail_lines,
};

fn fields(summary: &str) -> IssueFields {
    IssueFields {
        summary: summary.to_string(),
        description: None,
        issuetype: Some(IssueType { name: "Bug".to_string() }),
        status: Some(StatusDetails { name: "Open".to_string() }),
        priority: None,
        assignee: None,
        reporter: Some(UserDetails { display_name: "Ann".to_string() }),
        created: Some("2026-01-01".to_string()),
        updated: None,
        labels: vec!["a".to_string(), "b".to_string()],
        components: vec![],
        fix_versions: vec![],
    }
}

fn pad(s: &str, w: usize) -> String {
    format!("{:<w$}", s, w = w)
}

#[test]
fn issue_list_matches_format_widths() {
    let issues = vec![IssueDetailed { id: "1".to_string(), key: "ACLI-1".to_string(), fields: fields("Fix it") }];
    let lines = issue_list_lines(&issues);
    assert_eq!(lines.len(), 2);
    assert_eq!(
        lines[0],
        format!("{:<15} {:<10} {:<15} {:<10} {:<25} SUMMARY", "KEY", "TYPE", "STATUS", "PRIORITY", "ASSIGNEE")
    );
    assert_eq!(
        lines[1],
        format!("{:<15} {:<10} {:<15} {:<10} {:<25} {}", "ACLI-1", "Bug", "Open", "", "Unassigned", "Fix it")
    );
    let lines = agile_issue_lines(&issues);
    assert_eq!(lines[1], format!("{:<15} {:<10} {:<15} {:<10} {}", "ACLI-1", "Bug", "Open", "", "Fix it"));
}

#[test]
fn issue_details() {
    let mut f = fields("Sum");
    f.description = Some(JsonValue::Str("plain".to_string()));
    let lines = issue_detail_lines(&IssueDetailed { id: "1".to_string(), key: "K-1".to_string(), fields: f });
    assert_eq!(lines.len(), 13);
    assert_eq!(lines[0], "Key:          K-1");
    assert_eq!(lines[5], "Assignee:     Unassigned");
    assert_eq!(lines[6], "Reporter:     Ann");
    assert_eq!(lines[8], "Updated:      ");
    assert_eq!(lines[9], "Labels:       a, b");
    assert_eq!(lines[12], "Description:\nplain");
}

#[test]
fn long_values_are_not_cut_and_short_ones_padded() {
    let boards = vec![Board {
        id: 7,
        name: "A very long board name that exceeds thirty chars".to_string(),
        board_type: "scrum".to_string(),
        location: Some(BoardLocation { project_key: "ACLI".to_string(), project_name: "Acli".to_string() }),
    }];
    let lines = board_lines(&boards);
    assert_eq!(lines[1], format!("{:<6} {:<30} {:<10} {}", 7, "A very long board name that exceeds thirty chars", "scrum", "ACLI"));
    let sprints = vec![Sprint {
        id: -3,
        name: "S1".to_string(),
        state: "active".to_string(),
        start_date: None,
        end_date: Some("e".to_string()),
    }];
    assert_eq!(sprint_lines(&sprints)[1], format!("{:<6} {:<30} {:<10} {:<26} {}", -3, "S1", "active", "", "e"));
}

fn alert() -> Alert {
    Alert {
        id: "alert-uuid-1".to_string(),
        tiny_id: None,
        alias: Some("a".to_string()),
        message: "Memory leak detected".to_string(),
        status: "open".to_string(),
        acknowledged: true,
        created_at: "t0".to_string(),
        priority: "P3".to_string(),
        updated_at: None,
        entity: None,
        source: None,
        tags: vec![],
        snoozed: None,
        last_occured_at: None,
        integration_type: None,
        integration_name: None,
        owner: None,
        seen: None,
        count: None,
        description: Some(String::new()),
        ack_time: None,
        responders: vec![AlertResponder { id: None, responder_type: Some("team".to_string()) }],
        actions: vec![],
    }
}

#[test]
fn alert_list_and_details() {
    let lines = alert_lines(&vec![alert()]);
    assert_eq!(
        lines[1],
        format!("{:<40} {:<8} {:<8} {:<12} {:<8} {}", "alert-uuid-1", "", "open", true, "P3", "Memory leak detected")
    );
    let notes = vec![AlertNote { note: "n1".to_string(), owner: None, created_at: Some("t1".to_string()) }];
    let logs: Vec<AlertLog> = vec![];
    let d = alert_detail_lines(&alert(), &notes, &logs);
    assert_eq!(d[1], "Tiny ID:  -");
    assert_eq!(d[5], "Acked:    true");
    assert_eq!(d[8], "Responders:");
    assert_eq!(d[9], "  - (team)");
    assert_eq!(d[10], "Notes:");
    assert_eq!(d[11], "  [t1] unknown: n1");
    assert_eq!(d.len(), 12);
    let d = alert_detail_lines(&alert(), &vec![], &vec![AlertLog { log_time: None, log_type: None, log: "x".to_string(), owner: None }]);
    assert_eq!(d[10], "Notes:    (none)");
    assert_eq!(d[11], "Activity:");
    assert_eq!(d[12], "  [-] system: x");
}

#[test]
fn schedules_oncall_and_users() {
    let s = vec![Schedule { id: "s1".to_string(), name: "P".to_string(), description: None, team_id: None }];
    assert_eq!(schedule_lines(&s)[1], format!("{:<40} {:<30} {:<40} {}", "s1", "P", "(no team)", ""));
    assert_eq!(oncall_lines(&vec![]), vec!["No on-call users found for this schedule.".to_string()]);
    assert_eq!(oncall_lines(&vec!["u1".to_string()]), vec!["On-call user IDs:".to_string(), "  u1".to_string()]);
    let u = User {
        account_id: Some("acc".to_string()),
        display_name: None,
        email_address: None,
        active: Some(false),
        account_type: None,
        time_zone: None,
        id: None,
        username: Some("ann".to_string()),
        full_name: None,
    };
    assert_eq!(
        user_detail_lines(&u),
        vec!["Account ID: acc".to_string(), "Active: false".to_string(), "Username: ann".to_string()]
    );
}

#[test]
fn pages_and_pull_requests() {
    let p = Page {
        id: "P1".to_string(),
        title: "T".to_string(),
        space_id: None,
        status: Some("current".to_string()),
        version: Some(PageVersion { number: 3, message: None }),
        body: Some(PageBody { representation: None, value: Some("<h1>Hi</h1>".to_string()) }),
        created_at: None,
        author_id: None,
        parent_id: None,
    };
    let d = page_detail_lines(&p);
    assert_eq!(d[6], "Version:  3");
    assert_eq!(d[7], "\nContent:\n# Hi");
    let user = BbUser { display_name: "Dev".to_string(), uuid: None, nickname: None };
    let pr = PullRequest {
        id: 42,
        title: "A title that is much longer than twenty-two".to_string(),
        state: "OPEN".to_string(),
        author: user,
        source: PrEndpoint { branch: BbRef { name: "fix/bug".to_string() } },
        destination: PrEndpoint { branch: BbRef { name: "main".to_string() } },
        description: None,
        created_on: None,
        updated_on: None,
    };
    assert_eq!(
        pr_lines(&vec![pr])[1],
        format!("{:<6} {:<10} {:<18} {:<22} {} -> {}", 42, "OPEN", "Dev", "A title that is much l", "fix/bug", "main")
    );
    let st = PipelineStep {
        uuid: "u".to_string(),
        name: Some("Build".to_string()),
        state: PipelineState { name: "COMPLETED".to_string(), result: Some(PipelineStateResult { name: "SUCCESSFUL".to_string() }) },
        started_on: None,
        completed_on: None,
        duration_in_seconds: Some(45),
    };
    assert_eq!(step_lines(&vec![st])[1], format!("{:<40} {:<12} {:<8} {}", "u", "SUCCESSFUL", "45s", "Build"));
}

fn prof(name: &str, token: &str) -> Profile {
    Profile {
        name: name.to_string(),
        atlassian_url: "https://x.atlassian.net".to_string(),
        email: "a@b.c".to_string(),
        api_token: token.to_string(),
        defaults: None,
    }
}

#[test]
fn profile_list_and_show() {
    let empty = Config { default_profile: None, profiles: vec![] };
    assert_eq!(profile_list_lines(&empty), vec!["No profiles configured. Run 'acli config setup' to create one.".to_string()]);
    let cfg = Config { default_profile: Some("w".to_string()), profiles: vec![("w".to_string(), prof("w", "t"))] };
    let lines = profile_list_lines(&cfg);
    assert_eq!(lines[0], format!("{:<20} {:<10} {:<40} {:<30}", "PROFILE", "DEFAULT", "URL", "EMAIL"));
    assert_eq!(lines[1], format!("{} {} {} {}", pad("w", 20), pad("*", 10), pad("https://x.atlassian.net", 40), pad("a@b.c", 30)));
    let show = profile_show_lines(&prof("w", "abcdefghijkl"));
    assert_eq!(show[3], "  API Token:        abcd****ijkl");
    assert_eq!(show.len(), 4);
    assert_eq!(profile_show_lines(&prof("w", "short"))[3], "  API Token:        ****");
}

#[test]
fn setup_prompts() {
    assert_eq!(setup_intro("w", false), "Creating profile \"w\"\n");
    assert_eq!(setup_intro("w", true), "Updating profile \"w\" (press Enter to keep current value)\n");
    assert_eq!(prompt_text("Email", "a@b.c", ""), "  Email [a@b.c]: ");
    assert_eq!(prompt_text("Atlassian URL", "", "https://x"), "  Atlassian URL (https://x): ");
    assert_eq!(prompt_text("API Token", "", ""), "  API Token: ");
    assert_eq!(prompt_answer("  \n", "cur", "ph"), "cur");
    assert_eq!(prompt_answer("\n", "", "ph"), "ph");
    assert_eq!(prompt_answer(" new \n", "cur", "ph"), "new");
}
