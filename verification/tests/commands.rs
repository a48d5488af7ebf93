use acli_rust::cli::{flag1_exec, parse_i32_text, parse_i64_text, scan_flags, split_global_flags};
use acli_rust::commands::{
    create_fields, find_transition, issue_list_jql, oncall_mode, parse_alert, parse_bb_pipeline, parse_bb_pr, parse_bb_repo,
    parse_conf_page, parse_conf_space, parse_config, parse_issue_comment, parse_issue_worklog, parse_jira_board,
    parse_jira_epic, parse_jira_issue, parse_jira_sprint, route_bitbucket, route_command, route_confluence, route_jira,
    transition_plan, AgileCmd, AlertCommand, BbArea, ConfigCmd, IssueCmd, NoteCmd, OnCallMode, PageCmd, PipelineCmd,
    PrCmd, RepoCmd, SpaceCmd, TopCommand, TransitionPlan,
};
use acli_rust::jira::Transition;

fn words(ws: &[&str]) -> Vec<String> {
    ws.iter().map(|w| w.to_string()).collect()
}

fn err<T>(r: Result<T, String>) -> String {
    match r {
        Ok(_) => panic!("expected an error"),
        Err(e) => e,
    }
}

#[test]
fn global_flags_are_taken_out() {
    let g = split_global_flags(&words(&["acli", "-p", "work", "jira", "--output=json", "issue", "get", "A-1"]));
    assert_eq!(g.profile.as_deref(), Some("work"));
    assert_eq!(g.output, "json");
    assert_eq!(g.command, words(&["acli", "jira", "issue", "get", "A-1"]));
    let g = split_global_flags(&words(&["acli", "--profile=x", "-o", "text", "bb", "-p=y"]));
    assert_eq!(g.profile.as_deref(), Some("y"));
    assert_eq!(g.output, "text");
    assert_eq!(g.command, words(&["acli", "bb"]));
    // a flag without a value stays in the command
    let g = split_global_flags(&words(&["acli", "version", "-p"]));
    assert_eq!(g.profile, None);
    assert_eq!(g.output, "text");
    assert_eq!(g.command, words(&["acli", "version", "-p"]));
}

#[test]
fn top_level_routing() {
    assert!(matches!(route_command(&words(&["acli"])), TopCommand::Usage));
    assert!(matches!(route_command(&words(&["acli", "cfg"])), TopCommand::Config));
    assert!(matches!(route_command(&words(&["acli", "j"])), TopCommand::Jira));
    assert!(matches!(route_command(&words(&["acli", "c"])), TopCommand::Confluence));
    assert!(matches!(route_command(&words(&["acli", "bb"])), TopCommand::Bitbucket));
    assert!(matches!(route_command(&words(&["acli", "alert"])), TopCommand::Alert));
    assert!(matches!(route_command(&words(&["acli", "version"])), TopCommand::Version));
    assert!(matches!(route_command(&words(&["acli", "nope"])), TopCommand::Unknown));
    assert!(matches!(route_jira(&words(&["s"])), Ok(acli_rust::commands::JiraArea::Sprint)));
    assert_eq!(err(route_jira(&words(&["x"]))), "Unknown jira resource: x");
    assert!(matches!(route_bitbucket(&words(&["pipe"])), Ok(BbArea::Pipeline)));
    assert_eq!(err(route_confluence(&words(&["y"]))), "Unknown confluence resource: y");
}

#[test]
fn numbers_parse_like_str_parse() {
    assert_eq!(parse_i32_text("42"), Some(42));
    assert_eq!(parse_i32_text("+7"), Some(7));
    assert_eq!(parse_i32_text("-2147483648"), Some(i32::MIN));
    assert_eq!(parse_i32_text("2147483648"), None);
    assert_eq!(parse_i32_text(""), None);
    assert_eq!(parse_i32_text("-"), None);
    assert_eq!(parse_i32_text("1x"), None);
    assert_eq!(parse_i64_text("-9223372036854775808"), Some(i64::MIN));
    assert_eq!(parse_i64_text("9223372036854775808"), None);
    assert_eq!(parse_i64_text("000123"), Some(123));
}

#[test]
fn flags_take_the_next_word_and_the_last_one_wins() {
    let args = words(&["list", "--project", "A", "--status", "--project", "B", "--max"]);
    let f = scan_flags(&args, 1, &["--project", "--status"], &[]);
    // `--status` swallows the second `--project` as its value
    assert_eq!(f[0].as_deref(), Some("A"));
    assert_eq!(f[1].as_deref(), Some("--project"));
    let f = scan_flags(&args, 1, &["--project"], &[]);
    assert_eq!(f[0].as_deref(), Some("B"));
    assert_eq!(flag1_exec(&words(&["x", "--body"]), 1, "--body"), None);
}

#[test]
fn issue_commands() {
    match parse_jira_issue(&words(&["list", "--project", "ACLI", "--max-results", "x"])).ok().unwrap() {
        IssueCmd::List { jql, project, max_results, .. } => {
            assert_eq!(jql, None);
            assert_eq!(project.as_deref(), Some("ACLI"));
            assert_eq!(max_results, 50);
        },
        _ => panic!("list"),
    }
    assert_eq!(err(parse_jira_issue(&words(&["get"]))), "Usage: acli jira issue get <issue-key>");
    match parse_jira_issue(&words(&["create", "--summary", "S"])).ok().unwrap() {
        IssueCmd::Create { issue_type, summary, project, .. } => {
            assert_eq!(issue_type, "Task");
            assert_eq!(summary.as_deref(), Some("S"));
            assert_eq!(project, None);
        },
        _ => panic!("create"),
    }
    assert_eq!(
        err(parse_jira_issue(&words(&["edit", "K-1"]))),
        "At least one field (--summary, --description, --priority) is required"
    );
    match parse_jira_issue(&words(&["delete", "K-1", "--delete-subtasks"])).ok().unwrap() {
        IssueCmd::Delete { key, delete_subtasks } => {
            assert_eq!(key, "K-1");
            assert!(delete_subtasks);
        },
        _ => panic!("delete"),
    }
    match parse_jira_issue(&words(&["assign", "K-1", "none"])).ok().unwrap() {
        IssueCmd::Assign { account_id, .. } => assert_eq!(account_id, None),
        _ => panic!("assign"),
    }
    assert!(matches!(parse_jira_issue(&words(&["wl", "list"])), Ok(IssueCmd::Worklog)));
    assert_eq!(err(parse_jira_issue(&words(&["frob"]))), "Unknown issue action: frob");
}

#[test]
fn jql_is_built_from_filters() {
    assert_eq!(issue_list_jql(&None, &None, &None, &None), "created >= -30d order by created DESC");
    assert_eq!(
        issue_list_jql(&None, &Some("ACLI".to_string()), &None, &Some("In Progress".to_string())),
        "project = ACLI AND status = \"In Progress\" order by created DESC"
    );
    assert_eq!(
        issue_list_jql(&Some("key = A-1".to_string()), &Some("X".to_string()), &None, &None),
        "key = A-1"
    );
    assert_eq!(
        issue_list_jql(&None, &None, &Some("ann".to_string()), &None),
        "assignee = \"ann\" order by created DESC"
    );
}

#[test]
fn create_needs_project_and_summary() {
    assert_eq!(err(create_fields(&None, &None, &Some("s".to_string()))), "--project is required (or set a profile default)");
    assert_eq!(err(create_fields(&Some("P".to_string()), &None, &None)), "--summary is required");
    assert_eq!(create_fields(&None, &Some("D".to_string()), &Some("s".to_string())).ok().unwrap(), ("D".to_string(), "s".to_string()));
    assert_eq!(
        create_fields(&Some("P".to_string()), &Some("D".to_string()), &Some("s".to_string())).ok().unwrap(),
        ("P".to_string(), "s".to_string())
    );
}

#[test]
fn transitions_are_found_by_status_ignoring_case() {
    let ts = vec![
        Transition { id: "11".to_string(), name: "To Do".to_string() },
        Transition { id: "31".to_string(), name: "Done".to_string() },
    ];
    assert_eq!(find_transition(&ts, "done").ok().unwrap(), "31");
    assert_eq!(find_transition(&ts, "TO DO").ok().unwrap(), "11");
    assert_eq!(err(find_transition(&ts, "Closed")), "No transition found matching status 'Closed'");
    assert!(matches!(transition_plan(&Some("5".to_string()), &Some("Done".to_string())), Ok(TransitionPlan::Id(_))));
    assert!(matches!(transition_plan(&None, &Some("Done".to_string())), Ok(TransitionPlan::ByStatus(_))));
    assert_eq!(err(transition_plan(&None, &None)), "Provide --id <transition-id> or --status <name>");
}

#[test]
fn comment_and_worklog_commands() {
    match parse_issue_comment(&words(&["add", "K-1", "--body", "Works for me"])).ok().unwrap() {
        NoteCmd::Add { key, text, .. } => {
            assert_eq!(key, "K-1");
            assert_eq!(text, "Works for me");
        },
        _ => panic!("add"),
    }
    assert_eq!(err(parse_issue_comment(&words(&["add", "K-1"]))), "--body <text> is required");
    assert_eq!(err(parse_issue_comment(&words(&["delete", "K-1"]))), "Usage: acli jira issue comment delete <key> <comment-id>");
    match parse_issue_worklog(&words(&["add", "K-1", "--time-spent", "2h", "--comment", "Debugging"])).ok().unwrap() {
        NoteCmd::Add { text, comment, .. } => {
            assert_eq!(text, "2h");
            assert_eq!(comment.as_deref(), Some("Debugging"));
        },
        _ => panic!("add"),
    }
    assert_eq!(
        err(parse_issue_worklog(&words(&["add", "K-1"]))),
        "--time-spent <duration> is required (e.g. 2h, 30m)"
    );
    assert_eq!(err(parse_issue_worklog(&words(&["show"]))), "Unknown worklog subcommand: show");
}

#[test]
fn agile_commands() {
    match parse_jira_board(&words(&["list", "--project", "A", "--max-results", "10"])).ok().unwrap() {
        AgileCmd::Boards { project, max_results } => {
            assert_eq!(project.as_deref(), Some("A"));
            assert_eq!(max_results, 10);
        },
        _ => panic!("boards"),
    }
    assert_eq!(err(parse_jira_board(&words(&["sprints", "x"]))), "Board ID must be a number");
    assert!(matches!(parse_jira_sprint(&words(&["issues", "12"])), Ok(AgileCmd::SprintIssues { sprint_id: 12 })));
    assert_eq!(err(parse_jira_sprint(&words(&["issues"]))), "Usage: acli jira sprint issues <sprint-id>");
    assert!(matches!(parse_jira_epic(&words(&[])), Ok(AgileCmd::Help)));
}

#[test]
fn confluence_commands() {
    match parse_conf_space(&words(&["list", "--limit", "5", "--type", "global"])).ok().unwrap() {
        SpaceCmd::List { limit, space_type } => {
            assert_eq!(limit, 5);
            assert_eq!(space_type.as_deref(), Some("global"));
        },
        _ => panic!("list"),
    }
    assert_eq!(err(parse_conf_space(&words(&["create", "--key", "K"]))), "--name is required");
    match parse_conf_page(&words(&["get", "P1", "--body"])).ok().unwrap() {
        PageCmd::Get { id, with_body } => {
            assert_eq!(id, "P1");
            assert!(with_body);
        },
        _ => panic!("get"),
    }
    assert_eq!(err(parse_conf_page(&words(&["create", "--title", "T"]))), "--space-id is required");
    assert_eq!(err(parse_conf_page(&words(&["update", "P1", "--title", "T", "--version", "x"]))), "--version <number> is required");
    match parse_conf_page(&words(&["update", "P1", "--title", "T", "--version", "3"])).ok().unwrap() {
        PageCmd::Update { version_number, .. } => assert_eq!(version_number, 3),
        _ => panic!("update"),
    }
}

#[test]
fn bitbucket_commands() {
    match parse_bb_repo(&words(&["create", "ws", "slug", "--name", "n", "--public"])).ok().unwrap() {
        RepoCmd::Create { is_private, name, .. } => {
            assert!(!is_private);
            assert_eq!(name, "n");
        },
        _ => panic!("create"),
    }
    match parse_bb_repo(&words(&["create", "ws", "slug", "--name", "--public"])).ok().unwrap() {
        RepoCmd::Create { is_private, name, .. } => {
            assert!(is_private);
            assert_eq!(name, "--public");
        },
        _ => panic!("create"),
    }
    assert_eq!(err(parse_bb_repo(&words(&["list"]))), "Usage: acli bb repo list <workspace>");
    assert_eq!(err(parse_bb_pr(&words(&["get", "ws", "s", "x"]))), "PR ID must be a number");
    assert!(matches!(parse_bb_pr(&words(&["approve", "ws", "s", "42"])), Ok(PrCmd::Approve { pr_id: 42, .. })));
    assert_eq!(err(parse_bb_pr(&words(&["create", "ws", "s", "--title", "t"]))), "--source <branch> is required");
    match parse_bb_pipeline(&words(&["list", "ws", "s"])).ok().unwrap() {
        PipelineCmd::List { page_len, .. } => assert_eq!(page_len, 25),
        _ => panic!("list"),
    }
    assert_eq!(err(parse_bb_pipeline(&words(&["run", "ws", "s"]))), "--branch <name> is required");
    assert_eq!(err(parse_bb_pipeline(&words(&["rerun"]))), "Unknown pipeline action: rerun");
}

#[test]
fn alert_commands() {
    match parse_alert(&words(&["get", "101"])).ok().unwrap() {
        AlertCommand::Get { identifier, id_type } => {
            assert_eq!(identifier, "101");
            assert_eq!(id_type, "tinyId");
        },
        _ => panic!("get"),
    }
    match parse_alert(&words(&["ack", "a1", "--note", "n"])).ok().unwrap() {
        AlertCommand::Ack { id_type, note, .. } => {
            assert_eq!(id_type, "id");
            assert_eq!(note.as_deref(), Some("n"));
        },
        _ => panic!("ack"),
    }
    match parse_alert(&words(&["oncall", "--from", "a", "s1", "--until", "b", "s2"])).ok().unwrap() {
        AlertCommand::OnCall { from, until, schedule_ids } => {
            assert_eq!(from.as_deref(), Some("a"));
            assert_eq!(until.as_deref(), Some("b"));
            assert_eq!(schedule_ids, words(&["s1", "s2"]));
        },
        _ => panic!("oncall"),
    }
    match parse_alert(&words(&["create", "DB lag", "--priority", "P2"])).ok().unwrap() {
        AlertCommand::Create { payload } => {
            assert_eq!(payload.message, "DB lag");
            assert_eq!(payload.priority.as_deref(), Some("P2"));
            assert_eq!(payload.alias, None);
        },
        _ => panic!("create"),
    }
    assert_eq!(err(parse_alert(&words(&["close"]))), "Usage: acli alert close <id> [--note <n>] [--type <id|alias>]");
    assert_eq!(err(parse_alert(&words(&["snooze"]))), "Unknown alert action: snooze");
    assert!(matches!(oncall_mode(None, None, words(&["s1"])), Ok(OnCallMode::Current { .. })));
    assert!(matches!(oncall_mode(Some("a".to_string()), Some("b".to_string()), vec![]), Ok(OnCallMode::Range { .. })));
    assert_eq!(
        err(oncall_mode(Some("a".to_string()), None, vec![])),
        "Usage: acli alert oncall <schedule-id>\n   or: acli alert oncall --from <iso> --until <iso> [<schedule-id> ...]"
    );
}

#[test]
fn config_commands() {
    assert!(matches!(parse_config(&words(&[])), Ok(ConfigCmd::Help)));
    assert!(matches!(parse_config(&words(&["ls"])), Ok(ConfigCmd::List)));
    assert!(matches!(parse_config(&words(&["show"])), Ok(ConfigCmd::Show { name: None })));
    assert_eq!(err(parse_config(&words(&["setup"]))), "Usage: acli config setup <profile-name>");
    assert_eq!(err(parse_config(&words(&["rename"]))), "Unknown config subcommand: rename");
}

#[test]
fn every_usage_error() {
    let issue: Vec<(&[&str], &str)> = vec![
        (&["edit"], "Usage: acli jira issue edit <key> [--summary <s>] [--description <d>] [--priority <p>]"),
        (&["delete"], "Usage: acli jira issue delete <key> [--delete-subtasks]"),
        (&["assign", "K-1"], "Usage: acli jira issue assign <key> <account-id|none>"),
        (&["transition"], "Usage: acli jira issue transition <key> --id <id> | --status <name>"),
        (&["transitions"], "Usage: acli jira issue transitions <key>"),
        (&["attach", "K-1"], "Usage: acli jira issue attach <key> <file-path>"),
    ];
    for (a, e) in issue {
        assert_eq!(err(parse_jira_issue(&words(a))), e);
    }
    assert_eq!(err(parse_issue_comment(&words(&["list"]))), "Usage: acli jira issue comment list <key>");
    assert_eq!(err(parse_issue_comment(&words(&["add"]))), "Usage: acli jira issue comment add <key> --body <text>");
    assert_eq!(err(parse_issue_comment(&words(&["edit"]))), "Unknown comment subcommand: edit");
    assert_eq!(err(parse_issue_worklog(&words(&["list"]))), "Usage: acli jira issue worklog list <key>");
    assert_eq!(err(parse_issue_worklog(&words(&["add"]))), "Usage: acli jira issue worklog add <key> --time-spent <t>");
    assert_eq!(err(parse_issue_worklog(&words(&["rm", "K"]))), "Usage: acli jira issue worklog delete <key> <worklog-id>");
    assert_eq!(err(parse_jira_board(&words(&["sprints"]))), "Usage: acli jira board sprints <board-id>");
    assert_eq!(err(parse_jira_board(&words(&["show"]))), "Unknown board action: show");
    assert_eq!(err(parse_jira_sprint(&words(&["issues", "x"]))), "Sprint ID must be a number");
    assert_eq!(err(parse_jira_sprint(&words(&["list"]))), "Unknown sprint action: list");
    assert_eq!(err(parse_jira_epic(&words(&["issues"]))), "Usage: acli jira epic issues <epic-key>");
    assert_eq!(err(parse_jira_epic(&words(&["list"]))), "Unknown epic action: list");
    assert_eq!(err(parse_conf_space(&words(&["get"]))), "Usage: acli confluence space get <id>");
    assert_eq!(err(parse_conf_space(&words(&["pages"]))), "Usage: acli confluence space pages <space-id>");
    assert_eq!(err(parse_conf_space(&words(&["rm"]))), "Unknown space action: rm");
    assert_eq!(err(parse_conf_page(&words(&["get"]))), "Usage: acli confluence page get <id>");
    assert_eq!(err(parse_conf_page(&words(&["create", "--space-id", "S"]))), "--title is required");
    assert_eq!(err(parse_conf_page(&words(&["update"]))), "Usage: acli confluence page update <id> --title <t> --version <n>");
    assert_eq!(err(parse_conf_page(&words(&["update", "P", "--version", "2"]))), "--title is required");
    assert_eq!(err(parse_conf_page(&words(&["delete"]))), "Usage: acli confluence page delete <id>");
    assert_eq!(err(parse_conf_page(&words(&["move"]))), "Unknown page action: move");
    assert_eq!(err(parse_bb_repo(&words(&["get", "ws"]))), "Usage: acli bb repo get <workspace> <slug>");
    assert_eq!(err(parse_bb_repo(&words(&["create", "ws"]))), "Usage: acli bb repo create <workspace> <slug> --name <name>");
    assert_eq!(err(parse_bb_repo(&words(&["create", "ws", "s"]))), "--name is required");
    assert_eq!(err(parse_bb_repo(&words(&["rm", "ws"]))), "Usage: acli bb repo delete <workspace> <slug>");
    assert_eq!(err(parse_bb_repo(&words(&["fork"]))), "Unknown repo action: fork");
    assert_eq!(err(parse_bb_pr(&words(&["list", "ws"]))), "Usage: acli bb pr list <workspace> <slug> [--state OPEN]");
    assert_eq!(err(parse_bb_pr(&words(&["get", "ws", "s"]))), "Usage: acli bb pr get <workspace> <slug> <id>");
    assert_eq!(
        err(parse_bb_pr(&words(&["create", "ws"]))),
        "Usage: acli bb pr create <workspace> <slug> --title <t> --source <b> --dest <b>"
    );
    assert_eq!(err(parse_bb_pr(&words(&["create", "ws", "s"]))), "--title is required");
    assert_eq!(err(parse_bb_pr(&words(&["create", "ws", "s", "--title", "t", "--source", "b"]))), "--dest <branch> is required");
    assert_eq!(err(parse_bb_pr(&words(&["approve", "ws", "s"]))), "Usage: acli bb pr approve <workspace> <slug> <id>");
    assert_eq!(err(parse_bb_pr(&words(&["merge", "ws", "s"]))), "Usage: acli bb pr merge <workspace> <slug> <id> [--strategy <s>]");
    assert_eq!(err(parse_bb_pr(&words(&["merge", "ws", "s", "1.5"]))), "PR ID must be a number");
    assert_eq!(err(parse_bb_pr(&words(&["decline", "ws", "s"]))), "Usage: acli bb pr decline <workspace> <slug> <id>");
    assert_eq!(err(parse_bb_pr(&words(&["rebase"]))), "Unknown PR action: rebase");
    assert_eq!(err(parse_bb_pipeline(&words(&["list", "ws"]))), "Usage: acli bb pipeline list <workspace> <slug>");
    assert_eq!(err(parse_bb_pipeline(&words(&["get", "ws", "s"]))), "Usage: acli bb pipeline get <workspace> <slug> <uuid>");
    assert_eq!(err(parse_bb_pipeline(&words(&["run", "ws"]))), "Usage: acli bb pipeline run <workspace> <slug> --branch <b>");
    assert_eq!(err(parse_bb_pipeline(&words(&["stop", "ws", "s"]))), "Usage: acli bb pipeline stop <workspace> <slug> <uuid>");
    assert_eq!(err(parse_bb_pipeline(&words(&["steps", "ws", "s"]))), "Usage: acli bb pipeline steps <workspace> <slug> <uuid>");
    assert_eq!(
        err(parse_bb_pipeline(&words(&["log", "ws", "s", "p"]))),
        "Usage: acli bb pipeline log <workspace> <slug> <pipeline-uuid> <step-uuid>"
    );
    assert_eq!(err(route_bitbucket(&words(&["issues"]))), "Unknown bitbucket resource: issues");
    assert_eq!(err(parse_alert(&words(&["get"]))), "Usage: acli alert get <id-or-alias>");
    assert_eq!(
        err(parse_alert(&words(&["create"]))),
        "Usage: acli alert create <message> [--description <d>] [--alias <a>] [--priority <p>]"
    );
    assert_eq!(err(parse_alert(&words(&["acknowledge"]))), "Usage: acli alert ack <id> [--note <n>] [--type <id|alias>]");
    assert_eq!(err(parse_alert(&words(&["user"]))), "Usage: acli alert user <user-id>");
    assert_eq!(err(parse_config(&words(&["delete"]))), "Usage: acli config delete <profile-name>");
    assert_eq!(err(parse_config(&words(&["set-default"]))), "Usage: acli config set-default <profile-name>");
}
