use vstd::prelude::*;
use vstd::string::StringExecFns;
use crate::alerts::{all_digits, infer_id_type, CreateAlertPayload};
use crate::jira::Transition;
use crate::cli::{
    any_arg, count_or, count_or_exec, flag1, flag1_exec, flag_at, flags_from, has_arg, opt_strings_view, parse_i32,
    parse_i32_text, parse_i64, parse_i64_text, scan_flags,
};
use crate::config::opt_view;
use crate::text::{join_strings, join_with, str_eq, strings_view};

verus! {

// ---------------------------------------------------------------------------
// Shared pieces
// ---------------------------------------------------------------------------

/// `Unknown <what> <kind>: <word>`-style error text.
pub open spec fn unknown(prefix: Seq<char>, word: Seq<char>) -> Seq<char> {
    prefix + word
}

fn unknown_exec(prefix: &str, word: &str) -> (r: String)
    ensures
        r@ == unknown(prefix@, word@),
{
    let mut e = String::from_str(prefix);
    e.append(word);
    e
}

fn word_is(args: &Vec<String>, i: usize, w: &str) -> (r: bool)
    requires
        i < args@.len(),
    ensures
        r == (strings_view(args@)[i as int] == w@),
{
    str_eq(args[i].as_str(), w)
}

// ---------------------------------------------------------------------------
// alert
// ---------------------------------------------------------------------------

/// What an `alert` command asks for.
pub enum AlertCommand {
    Help,
    List { status: Option<String> },
    Get { identifier: String, id_type: String },
    Create { payload: CreateAlertPayload },
    Ack { identifier: String, id_type: String, note: Option<String> },
    Close { identifier: String, id_type: String, note: Option<String> },
    Teams,
    Schedules { exclude_team: Option<String> },
    OnCall { from: Option<String>, until: Option<String>, schedule_ids: Vec<String> },
    User { user_id: String },
}

/// The model of [`AlertCommand`].
pub enum AlertCmd {
    Help,
    List { status: Option<Seq<char>> },
    Get { identifier: Seq<char>, id_type: Seq<char> },
    Create { message: Seq<char>, description: Option<Seq<char>>, alias: Option<Seq<char>>, priority: Option<Seq<char>> },
    Ack { identifier: Seq<char>, id_type: Seq<char>, note: Option<Seq<char>> },
    Close { identifier: Seq<char>, id_type: Seq<char>, note: Option<Seq<char>> },
    Teams,
    Schedules { exclude_team: Option<Seq<char>> },
    OnCall { from: Option<Seq<char>>, until: Option<Seq<char>>, schedule_ids: Seq<Seq<char>> },
    User { user_id: Seq<char> },
}

pub open spec fn alert_cmd_view(c: AlertCommand) -> AlertCmd {
    match c {
        AlertCommand::Help => AlertCmd::Help,
        AlertCommand::List { status } => AlertCmd::List { status: opt_view(status) },
        AlertCommand::Get { identifier, id_type } => AlertCmd::Get { identifier: identifier@, id_type: id_type@ },
        AlertCommand::Create { payload } => AlertCmd::Create {
            message: payload.message@,
            description: opt_view(payload.description),
            alias: opt_view(payload.alias),
            priority: opt_view(payload.priority),
        },
        AlertCommand::Ack { identifier, id_type, note } => AlertCmd::Ack {
            identifier: identifier@,
            id_type: id_type@,
            note: opt_view(note),
        },
        AlertCommand::Close { identifier, id_type, note } => AlertCmd::Close {
            identifier: identifier@,
            id_type: id_type@,
            note: opt_view(note),
        },
        AlertCommand::Teams => AlertCmd::Teams,
        AlertCommand::Schedules { exclude_team } => AlertCmd::Schedules { exclude_team: opt_view(exclude_team) },
        AlertCommand::OnCall { from, until, schedule_ids } => AlertCmd::OnCall {
            from: opt_view(from),
            until: opt_view(until),
            schedule_ids: strings_view(schedule_ids@),
        },
        AlertCommand::User { user_id } => AlertCmd::User { user_id: user_id@ },
    }
}

pub open spec fn alert_result_view(r: Result<AlertCommand, String>) -> Result<AlertCmd, Seq<char>> {
    match r {
        Ok(c) => Ok(alert_cmd_view(c)),
        Err(e) => Err(e@),
    }
}

/// The arguments of `alert oncall` from position `i` on: `--from` and
/// `--until` take the next argument as their value; every other argument is
/// a schedule.
pub open spec fn oncall_scan(
    args: Seq<Seq<char>>,
    i: int,
    from: Option<Seq<char>>,
    until: Option<Seq<char>>,
    ids: Seq<Seq<char>>,
) -> AlertCmd
    decreases args.len() - i,
{
    if i < 0 || i >= args.len() {
        AlertCmd::OnCall { from, until, schedule_ids: ids }
    } else if args[i] == "--from"@ && i + 1 < args.len() {
        oncall_scan(args, i + 2, Some(args[i + 1]), until, ids)
    } else if args[i] == "--until"@ && i + 1 < args.len() {
        oncall_scan(args, i + 2, from, Some(args[i + 1]), ids)
    } else {
        oncall_scan(args, i + 1, from, until, ids.push(args[i]))
    }
}

/// The identifier type of an `alert ack`/`alert close`: `--type`, else `id`.
pub open spec fn action_type(args: Seq<Seq<char>>) -> Seq<char> {
    match flags_from(args, 2, seq!["--type"@, "--note"@], seq![])[0] {
        Some(t) => t,
        None => "id"@,
    }
}

/// What the words after `alert` ask for.
pub open spec fn alert_spec(w: Seq<Seq<char>>) -> Result<AlertCmd, Seq<char>> {
    if w.len() == 0 {
        Ok(AlertCmd::Help)
    } else if w[0] == "list"@ || w[0] == "ls"@ {
        Ok(AlertCmd::List { status: flag1(w, 1, "--status"@) })
    } else if w[0] == "get"@ {
        if w.len() < 2 {
            Err("Usage: acli alert get <id-or-alias>"@)
        } else {
            Ok(
                AlertCmd::Get {
                    identifier: w[1],
                    id_type: match flag1(w, 2, "--type"@) {
                        Some(t) => t,
                        None => if all_digits(w[1]) {
                            "tinyId"@
                        } else {
                            "id"@
                        },
                    },
                },
            )
        }
    } else if w[0] == "create"@ {
        if w.len() < 2 {
            Err("Usage: acli alert create <message> [--description <d>] [--alias <a>] [--priority <p>]"@)
        } else {
            let f = flags_from(w, 2, seq!["--description"@, "--alias"@, "--priority"@], seq![]);
            Ok(AlertCmd::Create { message: w[1], description: f[0], alias: f[1], priority: f[2] })
        }
    } else if w[0] == "ack"@ || w[0] == "acknowledge"@ {
        if w.len() < 2 {
            Err("Usage: acli alert ack <id> [--note <n>] [--type <id|alias>]"@)
        } else {
            Ok(
                AlertCmd::Ack {
                    identifier: w[1],
                    id_type: action_type(w),
                    note: flags_from(w, 2, seq!["--type"@, "--note"@], seq![])[1],
                },
            )
        }
    } else if w[0] == "close"@ {
        if w.len() < 2 {
            Err("Usage: acli alert close <id> [--note <n>] [--type <id|alias>]"@)
        } else {
            Ok(
                AlertCmd::Close {
                    identifier: w[1],
                    id_type: action_type(w),
                    note: flags_from(w, 2, seq!["--type"@, "--note"@], seq![])[1],
                },
            )
        }
    } else if w[0] == "teams"@ {
        Ok(AlertCmd::Teams)
    } else if w[0] == "schedules"@ {
        Ok(AlertCmd::Schedules { exclude_team: flag1(w, 1, "--exclude-team"@) })
    } else if w[0] == "oncall"@ {
        Ok(oncall_scan(w, 1, None, None, seq![]))
    } else if w[0] == "user"@ {
        if w.len() < 2 {
            Err("Usage: acli alert user <user-id>"@)
        } else {
            Ok(AlertCmd::User { user_id: w[1] })
        }
    } else {
        Err(unknown("Unknown alert action: "@, w[0]))
    }
}

fn parse_oncall(args: &Vec<String>) -> (r: AlertCommand)
    requires
        args@.len() > 0,
    ensures
        alert_cmd_view(r) == oncall_scan(strings_view(args@), 1, None, None, seq![]),
{
    let ghost w = strings_view(args@);
    let mut from: Option<String> = None;
    let mut until: Option<String> = None;
    let mut ids: Vec<String> = Vec::new();
    let n = args.len();
    let mut i: usize = 1;
    assert(strings_view(ids@) =~= Seq::<Seq<char>>::empty());
    while i < n
        invariant
            n == args@.len(),
            w == strings_view(args@),
            1 <= i,
            oncall_scan(w, i as int, opt_view(from), opt_view(until), strings_view(ids@)) == oncall_scan(w, 1, None, None, seq![]),
        decreases n - i,
    {
        if word_is(args, i, "--from") && i + 1 < n {
            from = Some(args[i + 1].clone());
            i = i + 2;
        } else if word_is(args, i, "--until") && i + 1 < n {
            until = Some(args[i + 1].clone());
            i = i + 2;
        } else {
            let ghost before = strings_view(ids@);
            ids.push(args[i].clone());
            assert(strings_view(ids@) =~= before.push(w[i as int]));
            i = i + 1;
        }
    }
    AlertCommand::OnCall { from, until, schedule_ids: ids }
}

fn action_flags(args: &Vec<String>) -> (r: (String, Option<String>))
    ensures
        r.0@ == action_type(strings_view(args@)),
        opt_view(r.1) == flags_from(strings_view(args@), 2, seq!["--type"@, "--note"@], seq![])[1],
{
    let names = ["--type", "--note"];
    let none: Vec<&str> = Vec::new();
    let f = scan_flags(args, 2, &names, none.as_slice());
    assert(crate::text::strs_view(names@) =~= seq!["--type"@, "--note"@]);
    assert(crate::text::strs_view(none@) =~= Seq::<Seq<char>>::empty());
    let id_type = match flag_at(&f, 0) {
        Some(t) => t,
        None => String::from_str("id"),
    };
    (id_type, flag_at(&f, 1))
}

/// Reads the words after `alert` (see [`alert_spec`]).
pub fn parse_alert(args: &Vec<String>) -> (r: Result<AlertCommand, String>)
    ensures
        alert_result_view(r) == alert_spec(strings_view(args@)),
{
    let ghost w = strings_view(args@);
    if args.len() == 0 {
        return Ok(AlertCommand::Help);
    }
    if word_is(args, 0, "list") || word_is(args, 0, "ls") {
        Ok(AlertCommand::List { status: flag1_exec(args, 1, "--status") })
    } else if word_is(args, 0, "get") {
        if args.len() < 2 {
            return Err(String::from_str("Usage: acli alert get <id-or-alias>"));
        }
        let id_type = match flag1_exec(args, 2, "--type") {
            Some(t) => t,
            None => String::from_str(infer_id_type(args[1].as_str())),
        };
        Ok(AlertCommand::Get { identifier: args[1].clone(), id_type })
    } else if word_is(args, 0, "create") {
        if args.len() < 2 {
            return Err(
                String::from_str("Usage: acli alert create <message> [--description <d>] [--alias <a>] [--priority <p>]"),
            );
        }
        let names = ["--description", "--alias", "--priority"];
        let none: Vec<&str> = Vec::new();
        let f = scan_flags(args, 2, &names, none.as_slice());
        assert(crate::text::strs_view(names@) =~= seq!["--description"@, "--alias"@, "--priority"@]);
        assert(crate::text::strs_view(none@) =~= Seq::<Seq<char>>::empty());
        let payload = CreateAlertPayload {
            message: args[1].clone(),
            description: flag_at(&f, 0),
            alias: flag_at(&f, 1),
            priority: flag_at(&f, 2),
        };
        Ok(AlertCommand::Create { payload })
    } else if word_is(args, 0, "ack") || word_is(args, 0, "acknowledge") {
        if args.len() < 2 {
            return Err(String::from_str("Usage: acli alert ack <id> [--note <n>] [--type <id|alias>]"));
        }
        let (id_type, note) = action_flags(args);
        Ok(AlertCommand::Ack { identifier: args[1].clone(), id_type, note })
    } else if word_is(args, 0, "close") {
        if args.len() < 2 {
            return Err(String::from_str("Usage: acli alert close <id> [--note <n>] [--type <id|alias>]"));
        }
        let (id_type, note) = action_flags(args);
        Ok(AlertCommand::Close { identifier: args[1].clone(), id_type, note })
    } else if word_is(args, 0, "teams") {
        Ok(AlertCommand::Teams)
    } else if word_is(args, 0, "schedules") {
        Ok(AlertCommand::Schedules { exclude_team: flag1_exec(args, 1, "--exclude-team") })
    } else if word_is(args, 0, "oncall") {
        Ok(parse_oncall(args))
    } else if word_is(args, 0, "user") {
        if args.len() < 2 {
            return Err(String::from_str("Usage: acli alert user <user-id>"));
        }
        Ok(AlertCommand::User { user_id: args[1].clone() })
    } else {
        Err(unknown_exec("Unknown alert action: ", args[0].as_str()))
    }
}

// ---------------------------------------------------------------------------
// bitbucket
// ---------------------------------------------------------------------------

/// Which part of Bitbucket a `bitbucket` command is about.
pub enum BbArea {
    Help,
    Repo,
    Pr,
    Pipeline,
}

/// What the first word after `bitbucket` selects.
pub open spec fn bb_area_spec(w: Seq<Seq<char>>) -> Result<BbArea, Seq<char>> {
    if w.len() == 0 {
        Ok(BbArea::Help)
    } else if w[0] == "repo"@ || w[0] == "r"@ {
        Ok(BbArea::Repo)
    } else if w[0] == "pr"@ {
        Ok(BbArea::Pr)
    } else if w[0] == "pipeline"@ || w[0] == "p"@ || w[0] == "pipe"@ {
        Ok(BbArea::Pipeline)
    } else {
        Err(unknown("Unknown bitbucket resource: "@, w[0]))
    }
}

pub open spec fn err_view<T>(r: Result<T, String>) -> Result<T, Seq<char>> {
    match r {
        Ok(t) => Ok(t),
        Err(e) => Err(e@),
    }
}

/// Reads the first word after `bitbucket` (see [`bb_area_spec`]).
pub fn route_bitbucket(args: &Vec<String>) -> (r: Result<BbArea, String>)
    ensures
        err_view(r) == bb_area_spec(strings_view(args@)),
{
    if args.len() == 0 {
        Ok(BbArea::Help)
    } else if word_is(args, 0, "repo") || word_is(args, 0, "r") {
        Ok(BbArea::Repo)
    } else if word_is(args, 0, "pr") {
        Ok(BbArea::Pr)
    } else if word_is(args, 0, "pipeline") || word_is(args, 0, "p") || word_is(args, 0, "pipe") {
        Ok(BbArea::Pipeline)
    } else {
        Err(unknown_exec("Unknown bitbucket resource: ", args[0].as_str()))
    }
}

/// What a `bitbucket repo` command asks for (`S` is the string type).
pub enum RepoCmd<S> {
    Help,
    List { workspace: S, role: Option<S>, query: Option<S>, page_len: i32 },
    Get { workspace: S, slug: S },
    Create { workspace: S, slug: S, name: S, description: Option<S>, language: Option<S>, is_private: bool },
    Delete { workspace: S, slug: S },
}

pub open spec fn repo_cmd_view(c: RepoCmd<String>) -> RepoCmd<Seq<char>> {
    match c {
        RepoCmd::Help => RepoCmd::Help,
        RepoCmd::List { workspace, role, query, page_len } => RepoCmd::List {
            workspace: workspace@,
            role: opt_view(role),
            query: opt_view(query),
            page_len,
        },
        RepoCmd::Get { workspace, slug } => RepoCmd::Get { workspace: workspace@, slug: slug@ },
        RepoCmd::Create { workspace, slug, name, description, language, is_private } => RepoCmd::Create {
            workspace: workspace@,
            slug: slug@,
            name: name@,
            description: opt_view(description),
            language: opt_view(language),
            is_private,
        },
        RepoCmd::Delete { workspace, slug } => RepoCmd::Delete { workspace: workspace@, slug: slug@ },
    }
}

pub open spec fn repo_result_view(r: Result<RepoCmd<String>, String>) -> Result<RepoCmd<Seq<char>>, Seq<char>> {
    match r {
        Ok(c) => Ok(repo_cmd_view(c)),
        Err(e) => Err(e@),
    }
}

/// What the words after `bitbucket repo` ask for.
pub open spec fn repo_spec(w: Seq<Seq<char>>) -> Result<RepoCmd<Seq<char>>, Seq<char>> {
    if w.len() == 0 {
        Ok(RepoCmd::Help)
    } else if w[0] == "list"@ || w[0] == "ls"@ {
        if w.len() < 2 {
            Err("Usage: acli bb repo list <workspace>"@)
        } else {
            let f = flags_from(w, 2, seq!["--role"@, "--query"@, "--limit"@], seq![]);
            Ok(RepoCmd::List { workspace: w[1], role: f[0], query: f[1], page_len: count_or(f[2], 50) })
        }
    } else if w[0] == "get"@ {
        if w.len() < 3 {
            Err("Usage: acli bb repo get <workspace> <slug>"@)
        } else {
            Ok(RepoCmd::Get { workspace: w[1], slug: w[2] })
        }
    } else if w[0] == "create"@ {
        if w.len() < 3 {
            Err("Usage: acli bb repo create <workspace> <slug> --name <name>"@)
        } else {
            let f = flags_from(w, 3, seq!["--name"@, "--description"@, "--language"@], seq!["--public"@]);
            match f[0] {
                Some(name) => Ok(
                    RepoCmd::Create {
                        workspace: w[1],
                        slug: w[2],
                        name,
                        description: f[1],
                        language: f[2],
                        is_private: f[3] is None,
                    },
                ),
                None => Err("--name is required"@),
            }
        }
    } else if w[0] == "delete"@ || w[0] == "rm"@ {
        if w.len() < 3 {
            Err("Usage: acli bb repo delete <workspace> <slug>"@)
        } else {
            Ok(RepoCmd::Delete { workspace: w[1], slug: w[2] })
        }
    } else {
        Err(unknown("Unknown repo action: "@, w[0]))
    }
}

/// Reads the words after `bitbucket repo` (see [`repo_spec`]).
pub fn parse_bb_repo(args: &Vec<String>) -> (r: Result<RepoCmd<String>, String>)
    ensures
        repo_result_view(r) == repo_spec(strings_view(args@)),
{
    if args.len() == 0 {
        return Ok(RepoCmd::Help);
    }
    if word_is(args, 0, "list") || word_is(args, 0, "ls") {
        if args.len() < 2 {
            return Err(String::from_str("Usage: acli bb repo list <workspace>"));
        }
        let names = ["--role", "--query", "--limit"];
        let none: Vec<&str> = Vec::new();
        let f = scan_flags(args, 2, &names, none.as_slice());
        assert(crate::text::strs_view(names@) =~= seq!["--role"@, "--query"@, "--limit"@]);
        assert(crate::text::strs_view(none@) =~= Seq::<Seq<char>>::empty());
        let page_len = count_or_exec(&f[2], 50);
        assert(opt_strings_view(f@)[2] == opt_view(f@[2]));
        Ok(RepoCmd::List { workspace: args[1].clone(), role: flag_at(&f, 0), query: flag_at(&f, 1), page_len })
    } else if word_is(args, 0, "get") {
        if args.len() < 3 {
            return Err(String::from_str("Usage: acli bb repo get <workspace> <slug>"));
        }
        Ok(RepoCmd::Get { workspace: args[1].clone(), slug: args[2].clone() })
    } else if word_is(args, 0, "create") {
        if args.len() < 3 {
            return Err(String::from_str("Usage: acli bb repo create <workspace> <slug> --name <name>"));
        }
        let names = ["--name", "--description", "--language"];
        let switches = ["--public"];
        let f = scan_flags(args, 3, &names, &switches);
        assert(crate::text::strs_view(names@) =~= seq!["--name"@, "--description"@, "--language"@]);
        assert(crate::text::strs_view(switches@) =~= seq!["--public"@]);
        match flag_at(&f, 0) {
            Some(name) => {
                let is_private = f[3].is_none();
                assert(opt_strings_view(f@)[3] == opt_view(f@[3]));
                Ok(
                    RepoCmd::Create {
                        workspace: args[1].clone(),
                        slug: args[2].clone(),
                        name,
                        description: flag_at(&f, 1),
                        language: flag_at(&f, 2),
                        is_private,
                    },
                )
            },
            None => Err(String::from_str("--name is required")),
        }
    } else if word_is(args, 0, "delete") || word_is(args, 0, "rm") {
        if args.len() < 3 {
            return Err(String::from_str("Usage: acli bb repo delete <workspace> <slug>"));
        }
        Ok(RepoCmd::Delete { workspace: args[1].clone(), slug: args[2].clone() })
    } else {
        Err(unknown_exec("Unknown repo action: ", args[0].as_str()))
    }
}

/// What a `bitbucket pr` command asks for (`S` is the string type).
pub enum PrCmd<S> {
    Help,
    List { workspace: S, slug: S, state: Option<S>, page_len: i32 },
    Get { workspace: S, slug: S, pr_id: i64 },
    Create { workspace: S, slug: S, title: S, source: S, dest: S, description: Option<S> },
    Approve { workspace: S, slug: S, pr_id: i64 },
    Merge { workspace: S, slug: S, pr_id: i64, strategy: Option<S> },
    Decline { workspace: S, slug: S, pr_id: i64 },
}

pub open spec fn pr_cmd_view(c: PrCmd<String>) -> PrCmd<Seq<char>> {
    match c {
        PrCmd::Help => PrCmd::Help,
        PrCmd::List { workspace, slug, state, page_len } => PrCmd::List {
            workspace: workspace@,
            slug: slug@,
            state: opt_view(state),
            page_len,
        },
        PrCmd::Get { workspace, slug, pr_id } => PrCmd::Get { workspace: workspace@, slug: slug@, pr_id },
        PrCmd::Create { workspace, slug, title, source, dest, description } => PrCmd::Create {
            workspace: workspace@,
            slug: slug@,
            title: title@,
            source: source@,
            dest: dest@,
            description: opt_view(description),
        },
        PrCmd::Approve { workspace, slug, pr_id } => PrCmd::Approve { workspace: workspace@, slug: slug@, pr_id },
        PrCmd::Merge { workspace, slug, pr_id, strategy } => PrCmd::Merge {
            workspace: workspace@,
            slug: slug@,
            pr_id,
            strategy: opt_view(strategy),
        },
        PrCmd::Decline { workspace, slug, pr_id } => PrCmd::Decline { workspace: workspace@, slug: slug@, pr_id },
    }
}

pub open spec fn pr_result_view(r: Result<PrCmd<String>, String>) -> Result<PrCmd<Seq<char>>, Seq<char>> {
    match r {
        Ok(c) => Ok(pr_cmd_view(c)),
        Err(e) => Err(e@),
    }
}

/// The pull request id given as the fourth word.
pub open spec fn pr_id_of(w: Seq<Seq<char>>) -> Result<i64, Seq<char>> {
    match parse_i64(w[3]) {
        Some(id) => Ok(id),
        None => Err("PR ID must be a number"@),
    }
}

/// What the words after `bitbucket pr` ask for.
pub open spec fn pr_spec(w: Seq<Seq<char>>) -> Result<PrCmd<Seq<char>>, Seq<char>> {
    if w.len() == 0 {
        Ok(PrCmd::Help)
    } else if w[0] == "list"@ || w[0] == "ls"@ {
        if w.len() < 3 {
            Err("Usage: acli bb pr list <workspace> <slug> [--state OPEN]"@)
        } else {
            let f = flags_from(w, 3, seq!["--state"@, "--limit"@], seq![]);
            Ok(PrCmd::List { workspace: w[1], slug: w[2], state: f[0], page_len: count_or(f[1], 50) })
        }
    } else if w[0] == "get"@ {
        if w.len() < 4 {
            Err("Usage: acli bb pr get <workspace> <slug> <id>"@)
        } else {
            match pr_id_of(w) {
                Ok(id) => Ok(PrCmd::Get { workspace: w[1], slug: w[2], pr_id: id }),
                Err(e) => Err(e),
            }
        }
    } else if w[0] == "create"@ {
        if w.len() < 3 {
            Err("Usage: acli bb pr create <workspace> <slug> --title <t> --source <b> --dest <b>"@)
        } else {
            let f = flags_from(w, 3, seq!["--title"@, "--source"@, "--dest"@, "--description"@], seq![]);
            if f[0] is None {
                Err("--title is required"@)
            } else if f[1] is None {
                Err("--source <branch> is required"@)
            } else if f[2] is None {
                Err("--dest <branch> is required"@)
            } else {
                Ok(
                    PrCmd::Create {
                        workspace: w[1],
                        slug: w[2],
                        title: f[0]->0,
                        source: f[1]->0,
                        dest: f[2]->0,
                        description: f[3],
                    },
                )
            }
        }
    } else if w[0] == "approve"@ {
        if w.len() < 4 {
            Err("Usage: acli bb pr approve <workspace> <slug> <id>"@)
        } else {
            match pr_id_of(w) {
                Ok(id) => Ok(PrCmd::Approve { workspace: w[1], slug: w[2], pr_id: id }),
                Err(e) => Err(e),
            }
        }
    } else if w[0] == "merge"@ {
        if w.len() < 4 {
            Err("Usage: acli bb pr merge <workspace> <slug> <id> [--strategy <s>]"@)
        } else {
            match pr_id_of(w) {
                Ok(id) => Ok(PrCmd::Merge { workspace: w[1], slug: w[2], pr_id: id, strategy: flag1(w, 4, "--strategy"@) }),
                Err(e) => Err(e),
            }
        }
    } else if w[0] == "decline"@ {
        if w.len() < 4 {
            Err("Usage: acli bb pr decline <workspace> <slug> <id>"@)
        } else {
            match pr_id_of(w) {
                Ok(id) => Ok(PrCmd::Decline { workspace: w[1], slug: w[2], pr_id: id }),
                Err(e) => Err(e),
            }
        }
    } else {
        Err(unknown("Unknown PR action: "@, w[0]))
    }
}

fn pr_id_exec(args: &Vec<String>) -> (r: Result<i64, String>)
    requires
        args@.len() >= 4,
    ensures
        err_view(r) == pr_id_of(strings_view(args@)),
{
    match parse_i64_text(args[3].as_str()) {
        Some(id) => Ok(id),
        None => Err(String::from_str("PR ID must be a number")),
    }
}

/// Reads the words after `bitbucket pr` (see [`pr_spec`]).
pub fn parse_bb_pr(args: &Vec<String>) -> (r: Result<PrCmd<String>, String>)
    ensures
        pr_result_view(r) == pr_spec(strings_view(args@)),
{
    if args.len() == 0 {
        return Ok(PrCmd::Help);
    }
    if word_is(args, 0, "list") || word_is(args, 0, "ls") {
        if args.len() < 3 {
            return Err(String::from_str("Usage: acli bb pr list <workspace> <slug> [--state OPEN]"));
        }
        let names = ["--state", "--limit"];
        let none: Vec<&str> = Vec::new();
        let f = scan_flags(args, 3, &names, none.as_slice());
        assert(crate::text::strs_view(names@) =~= seq!["--state"@, "--limit"@]);
        assert(crate::text::strs_view(none@) =~= Seq::<Seq<char>>::empty());
        let page_len = count_or_exec(&f[1], 50);
        assert(opt_strings_view(f@)[1] == opt_view(f@[1]));
        Ok(PrCmd::List { workspace: args[1].clone(), slug: args[2].clone(), state: flag_at(&f, 0), page_len })
    } else if word_is(args, 0, "get") {
        if args.len() < 4 {
            return Err(String::from_str("Usage: acli bb pr get <workspace> <slug> <id>"));
        }
        let id = pr_id_exec(args)?;
        Ok(PrCmd::Get { workspace: args[1].clone(), slug: args[2].clone(), pr_id: id })
    } else if word_is(args, 0, "create") {
        if args.len() < 3 {
            return Err(String::from_str("Usage: acli bb pr create <workspace> <slug> --title <t> --source <b> --dest <b>"));
        }
        let names = ["--title", "--source", "--dest", "--description"];
        let none: Vec<&str> = Vec::new();
        let f = scan_flags(args, 3, &names, none.as_slice());
        assert(crate::text::strs_view(names@) =~= seq!["--title"@, "--source"@, "--dest"@, "--description"@]);
        assert(crate::text::strs_view(none@) =~= Seq::<Seq<char>>::empty());
        let title = match flag_at(&f, 0) {
            Some(t) => t,
            None => return Err(String::from_str("--title is required")),
        };
        let source = match flag_at(&f, 1) {
            Some(t) => t,
            None => return Err(String::from_str("--source <branch> is required")),
        };
        let dest = match flag_at(&f, 2) {
            Some(t) => t,
            None => return Err(String::from_str("--dest <branch> is required")),
        };
        Ok(
            PrCmd::Create {
                workspace: args[1].clone(),
                slug: args[2].clone(),
                title,
                source,
                dest,
                description: flag_at(&f, 3),
            },
        )
    } else if word_is(args, 0, "approve") {
        if args.len() < 4 {
            return Err(String::from_str("Usage: acli bb pr approve <workspace> <slug> <id>"));
        }
        let id = pr_id_exec(args)?;
        Ok(PrCmd::Approve { workspace: args[1].clone(), slug: args[2].clone(), pr_id: id })
    } else if word_is(args, 0, "merge") {
        if args.len() < 4 {
            return Err(String::from_str("Usage: acli bb pr merge <workspace> <slug> <id> [--strategy <s>]"));
        }
        let id = pr_id_exec(args)?;
        Ok(
            PrCmd::Merge {
                workspace: args[1].clone(),
                slug: args[2].clone(),
                pr_id: id,
                strategy: flag1_exec(args, 4, "--strategy"),
            },
        )
    } else if word_is(args, 0, "decline") {
        if args.len() < 4 {
            return Err(String::from_str("Usage: acli bb pr decline <workspace> <slug> <id>"));
        }
        let id = pr_id_exec(args)?;
        Ok(PrCmd::Decline { workspace: args[1].clone(), slug: args[2].clone(), pr_id: id })
    } else {
        Err(unknown_exec("Unknown PR action: ", args[0].as_str()))
    }
}

/// What a `bitbucket pipeline` command asks for (`S` is the string type).
pub enum PipelineCmd<S> {
    Help,
    List { workspace: S, slug: S, page_len: i32 },
    Get { workspace: S, slug: S, uuid: S },
    Run { workspace: S, slug: S, branch: S },
    Stop { workspace: S, slug: S, uuid: S },
    Steps { workspace: S, slug: S, uuid: S },
    Log { workspace: S, slug: S, pipeline_uuid: S, step_uuid: S },
}

pub open spec fn pipeline_cmd_view(c: PipelineCmd<String>) -> PipelineCmd<Seq<char>> {
    match c {
        PipelineCmd::Help => PipelineCmd::Help,
        PipelineCmd::List { workspace, slug, page_len } => PipelineCmd::List { workspace: workspace@, slug: slug@, page_len },
        PipelineCmd::Get { workspace, slug, uuid } => PipelineCmd::Get { workspace: workspace@, slug: slug@, uuid: uuid@ },
        PipelineCmd::Run { workspace, slug, branch } => PipelineCmd::Run { workspace: workspace@, slug: slug@, branch: branch@ },
        PipelineCmd::Stop { workspace, slug, uuid } => PipelineCmd::Stop { workspace: workspace@, slug: slug@, uuid: uuid@ },
        PipelineCmd::Steps { workspace, slug, uuid } => PipelineCmd::Steps { workspace: workspace@, slug: slug@, uuid: uuid@ },
        PipelineCmd::Log { workspace, slug, pipeline_uuid, step_uuid } => PipelineCmd::Log {
            workspace: workspace@,
            slug: slug@,
            pipeline_uuid: pipeline_uuid@,
            step_uuid: step_uuid@,
        },
    }
}

pub open spec fn pipeline_result_view(r: Result<PipelineCmd<String>, String>) -> Result<PipelineCmd<Seq<char>>, Seq<char>> {
    match r {
        Ok(c) => Ok(pipeline_cmd_view(c)),
        Err(e) => Err(e@),
    }
}

/// What the words after `bitbucket pipeline` ask for.
pub open spec fn pipeline_spec(w: Seq<Seq<char>>) -> Result<PipelineCmd<Seq<char>>, Seq<char>> {
    if w.len() == 0 {
        Ok(PipelineCmd::Help)
    } else if w[0] == "list"@ || w[0] == "ls"@ {
        if w.len() < 3 {
            Err("Usage: acli bb pipeline list <workspace> <slug>"@)
        } else {
            Ok(PipelineCmd::List { workspace: w[1], slug: w[2], page_len: count_or(flag1(w, 3, "--limit"@), 25) })
        }
    } else if w[0] == "get"@ {
        if w.len() < 4 {
            Err("Usage: acli bb pipeline get <workspace> <slug> <uuid>"@)
        } else {
            Ok(PipelineCmd::Get { workspace: w[1], slug: w[2], uuid: w[3] })
        }
    } else if w[0] == "run"@ {
        if w.len() < 3 {
            Err("Usage: acli bb pipeline run <workspace> <slug> --branch <b>"@)
        } else {
            match flag1(w, 3, "--branch"@) {
                Some(b) => Ok(PipelineCmd::Run { workspace: w[1], slug: w[2], branch: b }),
                None => Err("--branch <name> is required"@),
            }
        }
    } else if w[0] == "stop"@ {
        if w.len() < 4 {
            Err("Usage: acli bb pipeline stop <workspace> <slug> <uuid>"@)
        } else {
            Ok(PipelineCmd::Stop { workspace: w[1], slug: w[2], uuid: w[3] })
        }
    } else if w[0] == "steps"@ {
        if w.len() < 4 {
            Err("Usage: acli bb pipeline steps <workspace> <slug> <uuid>"@)
        } else {
            Ok(PipelineCmd::Steps { workspace: w[1], slug: w[2], uuid: w[3] })
        }
    } else if w[0] == "log"@ {
        if w.len() < 5 {
            Err("Usage: acli bb pipeline log <workspace> <slug> <pipeline-uuid> <step-uuid>"@)
        } else {
            Ok(PipelineCmd::Log { workspace: w[1], slug: w[2], pipeline_uuid: w[3], step_uuid: w[4] })
        }
    } else {
        Err(unknown("Unknown pipeline action: "@, w[0]))
    }
}

/// Reads the words after `bitbucket pipeline` (see [`pipeline_spec`]).
pub fn parse_bb_pipeline(args: &Vec<String>) -> (r: Result<PipelineCmd<String>, String>)
    ensures
        pipeline_result_view(r) == pipeline_spec(strings_view(args@)),
{
    if args.len() == 0 {
        return Ok(PipelineCmd::Help);
    }
    if word_is(args, 0, "list") || word_is(args, 0, "ls") {
        if args.len() < 3 {
            return Err(String::from_str("Usage: acli bb pipeline list <workspace> <slug>"));
        }
        let limit = flag1_exec(args, 3, "--limit");
        Ok(PipelineCmd::List { workspace: args[1].clone(), slug: args[2].clone(), page_len: count_or_exec(&limit, 25) })
    } else if word_is(args, 0, "get") {
        if args.len() < 4 {
            return Err(String::from_str("Usage: acli bb pipeline get <workspace> <slug> <uuid>"));
        }
        Ok(PipelineCmd::Get { workspace: args[1].clone(), slug: args[2].clone(), uuid: args[3].clone() })
    } else if word_is(args, 0, "run") {
        if args.len() < 3 {
            return Err(String::from_str("Usage: acli bb pipeline run <workspace> <slug> --branch <b>"));
        }
        match flag1_exec(args, 3, "--branch") {
            Some(b) => Ok(PipelineCmd::Run { workspace: args[1].clone(), slug: args[2].clone(), branch: b }),
            None => Err(String::from_str("--branch <name> is required")),
        }
    } else if word_is(args, 0, "stop") {
        if args.len() < 4 {
            return Err(String::from_str("Usage: acli bb pipeline stop <workspace> <slug> <uuid>"));
        }
        Ok(PipelineCmd::Stop { workspace: args[1].clone(), slug: args[2].clone(), uuid: args[3].clone() })
    } else if word_is(args, 0, "steps") {
        if args.len() < 4 {
            return Err(String::from_str("Usage: acli bb pipeline steps <workspace> <slug> <uuid>"));
        }
        Ok(PipelineCmd::Steps { workspace: args[1].clone(), slug: args[2].clone(), uuid: args[3].clone() })
    } else if word_is(args, 0, "log") {
        if args.len() < 5 {
            return Err(String::from_str("Usage: acli bb pipeline log <workspace> <slug> <pipeline-uuid> <step-uuid>"));
        }
        Ok(
            PipelineCmd::Log {
                workspace: args[1].clone(),
                slug: args[2].clone(),
                pipeline_uuid: args[3].clone(),
                step_uuid: args[4].clone(),
            },
        )
    } else {
        Err(unknown_exec("Unknown pipeline action: ", args[0].as_str()))
    }
}

// ---------------------------------------------------------------------------
// confluence
// ---------------------------------------------------------------------------

/// Which part of Confluence a `confluence` command is about.
pub enum ConfArea {
    Help,
    Space,
    Page,
}

/// What the first word after `confluence` selects.
pub open spec fn conf_area_spec(w: Seq<Seq<char>>) -> Result<ConfArea, Seq<char>> {
    if w.len() == 0 {
        Ok(ConfArea::Help)
    } else if w[0] == "space"@ || w[0] == "s"@ {
        Ok(ConfArea::Space)
    } else if w[0] == "page"@ || w[0] == "p"@ {
        Ok(ConfArea::Page)
    } else {
        Err(unknown("Unknown confluence resource: "@, w[0]))
    }
}

/// Reads the first word after `confluence` (see [`conf_area_spec`]).
pub fn route_confluence(args: &Vec<String>) -> (r: Result<ConfArea, String>)
    ensures
        err_view(r) == conf_area_spec(strings_view(args@)),
{
    if args.len() == 0 {
        Ok(ConfArea::Help)
    } else if word_is(args, 0, "space") || word_is(args, 0, "s") {
        Ok(ConfArea::Space)
    } else if word_is(args, 0, "page") || word_is(args, 0, "p") {
        Ok(ConfArea::Page)
    } else {
        Err(unknown_exec("Unknown confluence resource: ", args[0].as_str()))
    }
}

/// What a `confluence space` command asks for (`S` is the string type).
pub enum SpaceCmd<S> {
    Help,
    List { limit: i32, space_type: Option<S> },
    Get { id: S },
    Create { name: S, key: Option<S>, description: Option<S> },
    Pages { space_id: S, title: Option<S>, limit: i32 },
}

pub open spec fn space_cmd_view(c: SpaceCmd<String>) -> SpaceCmd<Seq<char>> {
    match c {
        SpaceCmd::Help => SpaceCmd::Help,
        SpaceCmd::List { limit, space_type } => SpaceCmd::List { limit, space_type: opt_view(space_type) },
        SpaceCmd::Get { id } => SpaceCmd::Get { id: id@ },
        SpaceCmd::Create { name, key, description } => SpaceCmd::Create {
            name: name@,
            key: opt_view(key),
            description: opt_view(description),
        },
        SpaceCmd::Pages { space_id, title, limit } => SpaceCmd::Pages { space_id: space_id@, title: opt_view(title), limit },
    }
}

pub open spec fn space_result_view(r: Result<SpaceCmd<String>, String>) -> Result<SpaceCmd<Seq<char>>, Seq<char>> {
    match r {
        Ok(c) => Ok(space_cmd_view(c)),
        Err(e) => Err(e@),
    }
}

/// What the words after `confluence space` ask for.
pub open spec fn space_spec(w: Seq<Seq<char>>) -> Result<SpaceCmd<Seq<char>>, Seq<char>> {
    if w.len() == 0 {
        Ok(SpaceCmd::Help)
    } else if w[0] == "list"@ || w[0] == "ls"@ {
        let f = flags_from(w, 1, seq!["--limit"@, "--type"@], seq![]);
        Ok(SpaceCmd::List { limit: count_or(f[0], 50), space_type: f[1] })
    } else if w[0] == "get"@ {
        if w.len() < 2 {
            Err("Usage: acli confluence space get <id>"@)
        } else {
            Ok(SpaceCmd::Get { id: w[1] })
        }
    } else if w[0] == "create"@ {
        let f = flags_from(w, 1, seq!["--name"@, "--key"@, "--description"@], seq![]);
        match f[0] {
            Some(name) => Ok(SpaceCmd::Create { name, key: f[1], description: f[2] }),
            None => Err("--name is required"@),
        }
    } else if w[0] == "pages"@ {
        if w.len() < 2 {
            Err("Usage: acli confluence space pages <space-id>"@)
        } else {
            let f = flags_from(w, 2, seq!["--title"@, "--limit"@], seq![]);
            Ok(SpaceCmd::Pages { space_id: w[1], title: f[0], limit: count_or(f[1], 50) })
        }
    } else {
        Err(unknown("Unknown space action: "@, w[0]))
    }
}

/// Reads the words after `confluence space` (see [`space_spec`]).
pub fn parse_conf_space(args: &Vec<String>) -> (r: Result<SpaceCmd<String>, String>)
    ensures
        space_result_view(r) == space_spec(strings_view(args@)),
{
    if args.len() == 0 {
        return Ok(SpaceCmd::Help);
    }
    let none: Vec<&str> = Vec::new();
    assert(crate::text::strs_view(none@) =~= Seq::<Seq<char>>::empty());
    if word_is(args, 0, "list") || word_is(args, 0, "ls") {
        let names = ["--limit", "--type"];
        let f = scan_flags(args, 1, &names, none.as_slice());
        assert(crate::text::strs_view(names@) =~= seq!["--limit"@, "--type"@]);
        let limit = count_or_exec(&f[0], 50);
        assert(opt_strings_view(f@)[0] == opt_view(f@[0]));
        Ok(SpaceCmd::List { limit, space_type: flag_at(&f, 1) })
    } else if word_is(args, 0, "get") {
        if args.len() < 2 {
            return Err(String::from_str("Usage: acli confluence space get <id>"));
        }
        Ok(SpaceCmd::Get { id: args[1].clone() })
    } else if word_is(args, 0, "create") {
        let names = ["--name", "--key", "--description"];
        let f = scan_flags(args, 1, &names, none.as_slice());
        assert(crate::text::strs_view(names@) =~= seq!["--name"@, "--key"@, "--description"@]);
        match flag_at(&f, 0) {
            Some(name) => Ok(SpaceCmd::Create { name, key: flag_at(&f, 1), description: flag_at(&f, 2) }),
            None => Err(String::from_str("--name is required")),
        }
    } else if word_is(args, 0, "pages") {
        if args.len() < 2 {
            return Err(String::from_str("Usage: acli confluence space pages <space-id>"));
        }
        let names = ["--title", "--limit"];
        let f = scan_flags(args, 2, &names, none.as_slice());
        assert(crate::text::strs_view(names@) =~= seq!["--title"@, "--limit"@]);
        let limit = count_or_exec(&f[1], 50);
        assert(opt_strings_view(f@)[1] == opt_view(f@[1]));
        Ok(SpaceCmd::Pages { space_id: args[1].clone(), title: flag_at(&f, 0), limit })
    } else {
        Err(unknown_exec("Unknown space action: ", args[0].as_str()))
    }
}

/// What a `confluence page` command asks for (`S` is the string type).
pub enum PageCmd<S> {
    Help,
    List { space_id: Option<S>, title: Option<S>, limit: i32 },
    Get { id: S, with_body: bool },
    Create { space_id: S, title: S, body_html: Option<S>, parent_id: Option<S> },
    Update { id: S, title: S, version_number: i32, body_html: Option<S> },
    Delete { id: S },
}

pub open spec fn page_cmd_view(c: PageCmd<String>) -> PageCmd<Seq<char>> {
    match c {
        PageCmd::Help => PageCmd::Help,
        PageCmd::List { space_id, title, limit } => PageCmd::List { space_id: opt_view(space_id), title: opt_view(title), limit },
        PageCmd::Get { id, with_body } => PageCmd::Get { id: id@, with_body },
        PageCmd::Create { space_id, title, body_html, parent_id } => PageCmd::Create {
            space_id: space_id@,
            title: title@,
            body_html: opt_view(body_html),
            parent_id: opt_view(parent_id),
        },
        PageCmd::Update { id, title, version_number, body_html } => PageCmd::Update {
            id: id@,
            title: title@,
            version_number,
            body_html: opt_view(body_html),
        },
        PageCmd::Delete { id } => PageCmd::Delete { id: id@ },
    }
}

pub open spec fn page_result_view(r: Result<PageCmd<String>, String>) -> Result<PageCmd<Seq<char>>, Seq<char>> {
    match r {
        Ok(c) => Ok(page_cmd_view(c)),
        Err(e) => Err(e@),
    }
}

/// The version number given with `--version` (the last one given), if it is a number.
pub open spec fn version_of(v: Option<Seq<char>>) -> Option<i32> {
    match v {
        Some(t) => parse_i32(t),
        None => None,
    }
}

/// What the words after `confluence page` ask for.
pub open spec fn page_spec(w: Seq<Seq<char>>) -> Result<PageCmd<Seq<char>>, Seq<char>> {
    if w.len() == 0 {
        Ok(PageCmd::Help)
    } else if w[0] == "list"@ || w[0] == "ls"@ {
        let f = flags_from(w, 1, seq!["--space-id"@, "--title"@, "--limit"@], seq![]);
        Ok(PageCmd::List { space_id: f[0], title: f[1], limit: count_or(f[2], 50) })
    } else if w[0] == "get"@ {
        if w.len() < 2 {
            Err("Usage: acli confluence page get <id>"@)
        } else {
            Ok(PageCmd::Get { id: w[1], with_body: has_arg(w, "--body"@) })
        }
    } else if w[0] == "create"@ {
        let f = flags_from(w, 1, seq!["--space-id"@, "--title"@, "--body"@, "--parent-id"@], seq![]);
        if f[0] is None {
            Err("--space-id is required"@)
        } else if f[1] is None {
            Err("--title is required"@)
        } else {
            Ok(PageCmd::Create { space_id: f[0]->0, title: f[1]->0, body_html: f[2], parent_id: f[3] })
        }
    } else if w[0] == "update"@ {
        if w.len() < 2 {
            Err("Usage: acli confluence page update <id> --title <t> --version <n>"@)
        } else {
            let f = flags_from(w, 2, seq!["--title"@, "--version"@, "--body"@], seq![]);
            if f[0] is None {
                Err("--title is required"@)
            } else if version_of(f[1]) is None {
                Err("--version <number> is required"@)
            } else {
                Ok(PageCmd::Update { id: w[1], title: f[0]->0, version_number: version_of(f[1])->0, body_html: f[2] })
            }
        }
    } else if w[0] == "delete"@ || w[0] == "rm"@ {
        if w.len() < 2 {
            Err("Usage: acli confluence page delete <id>"@)
        } else {
            Ok(PageCmd::Delete { id: w[1] })
        }
    } else {
        Err(unknown("Unknown page action: "@, w[0]))
    }
}

/// Reads the words after `confluence page` (see [`page_spec`]).
pub fn parse_conf_page(args: &Vec<String>) -> (r: Result<PageCmd<String>, String>)
    ensures
        page_result_view(r) == page_spec(strings_view(args@)),
{
    if args.len() == 0 {
        return Ok(PageCmd::Help);
    }
    let none: Vec<&str> = Vec::new();
    assert(crate::text::strs_view(none@) =~= Seq::<Seq<char>>::empty());
    if word_is(args, 0, "list") || word_is(args, 0, "ls") {
        let names = ["--space-id", "--title", "--limit"];
        let f = scan_flags(args, 1, &names, none.as_slice());
        assert(crate::text::strs_view(names@) =~= seq!["--space-id"@, "--title"@, "--limit"@]);
        let limit = count_or_exec(&f[2], 50);
        assert(opt_strings_view(f@)[2] == opt_view(f@[2]));
        Ok(PageCmd::List { space_id: flag_at(&f, 0), title: flag_at(&f, 1), limit })
    } else if word_is(args, 0, "get") {
        if args.len() < 2 {
            return Err(String::from_str("Usage: acli confluence page get <id>"));
        }
        Ok(PageCmd::Get { id: args[1].clone(), with_body: any_arg(args, "--body") })
    } else if word_is(args, 0, "create") {
        let names = ["--space-id", "--title", "--body", "--parent-id"];
        let f = scan_flags(args, 1, &names, none.as_slice());
        assert(crate::text::strs_view(names@) =~= seq!["--space-id"@, "--title"@, "--body"@, "--parent-id"@]);
        let space_id = match flag_at(&f, 0) {
            Some(v) => v,
            None => return Err(String::from_str("--space-id is required")),
        };
        let title = match flag_at(&f, 1) {
            Some(v) => v,
            None => return Err(String::from_str("--title is required")),
        };
        Ok(PageCmd::Create { space_id, title, body_html: flag_at(&f, 2), parent_id: flag_at(&f, 3) })
    } else if word_is(args, 0, "update") {
        if args.len() < 2 {
            return Err(String::from_str("Usage: acli confluence page update <id> --title <t> --version <n>"));
        }
        let names = ["--title", "--version", "--body"];
        let f = scan_flags(args, 2, &names, none.as_slice());
        assert(crate::text::strs_view(names@) =~= seq!["--title"@, "--version"@, "--body"@]);
        let title = match flag_at(&f, 0) {
            Some(v) => v,
            None => return Err(String::from_str("--title is required")),
        };
        let version = match flag_at(&f, 1) {
            Some(v) => parse_i32_text(v.as_str()),
            None => None,
        };
        match version {
            Some(n) => Ok(PageCmd::Update { id: args[1].clone(), title, version_number: n, body_html: flag_at(&f, 2) }),
            None => Err(String::from_str("--version <number> is required")),
        }
    } else if word_is(args, 0, "delete") || word_is(args, 0, "rm") {
        if args.len() < 2 {
            return Err(String::from_str("Usage: acli confluence page delete <id>"));
        }
        Ok(PageCmd::Delete { id: args[1].clone() })
    } else {
        Err(unknown_exec("Unknown page action: ", args[0].as_str()))
    }
}

// ---------------------------------------------------------------------------
// jira
// ---------------------------------------------------------------------------

/// Which part of Jira a `jira` command is about.
pub enum JiraArea {
    Help,
    Issue,
    Board,
    Sprint,
    Epic,
}

/// What the first word after `jira` selects.
pub open spec fn jira_area_spec(w: Seq<Seq<char>>) -> Result<JiraArea, Seq<char>> {
    if w.len() == 0 {
        Ok(JiraArea::Help)
    } else if w[0] == "issue"@ || w[0] == "i"@ {
        Ok(JiraArea::Issue)
    } else if w[0] == "board"@ || w[0] == "b"@ {
        Ok(JiraArea::Board)
    } else if w[0] == "sprint"@ || w[0] == "s"@ {
        Ok(JiraArea::Sprint)
    } else if w[0] == "epic"@ || w[0] == "e"@ {
        Ok(JiraArea::Epic)
    } else {
        Err(unknown("Unknown jira resource: "@, w[0]))
    }
}

/// Reads the first word after `jira` (see [`jira_area_spec`]).
pub fn route_jira(args: &Vec<String>) -> (r: Result<JiraArea, String>)
    ensures
        err_view(r) == jira_area_spec(strings_view(args@)),
{
    if args.len() == 0 {
        Ok(JiraArea::Help)
    } else if word_is(args, 0, "issue") || word_is(args, 0, "i") {
        Ok(JiraArea::Issue)
    } else if word_is(args, 0, "board") || word_is(args, 0, "b") {
        Ok(JiraArea::Board)
    } else if word_is(args, 0, "sprint") || word_is(args, 0, "s") {
        Ok(JiraArea::Sprint)
    } else if word_is(args, 0, "epic") || word_is(args, 0, "e") {
        Ok(JiraArea::Epic)
    } else {
        Err(unknown_exec("Unknown jira resource: ", args[0].as_str()))
    }
}

/// What a `jira issue` command asks for (`S` is the string type). `Comment`
/// and `Worklog` hand the words after them to their own commands.
pub enum IssueCmd<S> {
    Help,
    List { jql: Option<S>, project: Option<S>, assignee: Option<S>, status: Option<S>, max_results: i32 },
    Get { key: S },
    Create { project: Option<S>, summary: Option<S>, issue_type: S, description: Option<S>, priority: Option<S>, assignee: Option<S> },
    Edit { key: S, summary: Option<S>, description: Option<S>, priority: Option<S> },
    Delete { key: S, delete_subtasks: bool },
    Assign { key: S, account_id: Option<S> },
    Transition { key: S, transition_id: Option<S>, status: Option<S> },
    Transitions { key: S },
    Comment,
    Worklog,
    Attach { key: S, file_path: S },
}

pub open spec fn issue_cmd_view(c: IssueCmd<String>) -> IssueCmd<Seq<char>> {
    match c {
        IssueCmd::Help => IssueCmd::Help,
        IssueCmd::List { jql, project, assignee, status, max_results } => IssueCmd::List {
            jql: opt_view(jql),
            project: opt_view(project),
            assignee: opt_view(assignee),
            status: opt_view(status),
            max_results,
        },
        IssueCmd::Get { key } => IssueCmd::Get { key: key@ },
        IssueCmd::Create { project, summary, issue_type, description, priority, assignee } => IssueCmd::Create {
            project: opt_view(project),
            summary: opt_view(summary),
            issue_type: issue_type@,
            description: opt_view(description),
            priority: opt_view(priority),
            assignee: opt_view(assignee),
        },
        IssueCmd::Edit { key, summary, description, priority } => IssueCmd::Edit {
            key: key@,
            summary: opt_view(summary),
            description: opt_view(description),
            priority: opt_view(priority),
        },
        IssueCmd::Delete { key, delete_subtasks } => IssueCmd::Delete { key: key@, delete_subtasks },
        IssueCmd::Assign { key, account_id } => IssueCmd::Assign { key: key@, account_id: opt_view(account_id) },
        IssueCmd::Transition { key, transition_id, status } => IssueCmd::Transition {
            key: key@,
            transition_id: opt_view(transition_id),
            status: opt_view(status),
        },
        IssueCmd::Transitions { key } => IssueCmd::Transitions { key: key@ },
        IssueCmd::Comment => IssueCmd::Comment,
        IssueCmd::Worklog => IssueCmd::Worklog,
        IssueCmd::Attach { key, file_path } => IssueCmd::Attach { key: key@, file_path: file_path@ },
    }
}

pub open spec fn issue_result_view(r: Result<IssueCmd<String>, String>) -> Result<IssueCmd<Seq<char>>, Seq<char>> {
    match r {
        Ok(c) => Ok(issue_cmd_view(c)),
        Err(e) => Err(e@),
    }
}

/// The account to assign: `none` and `-` unassign.
pub open spec fn assignee_of(id: Seq<char>) -> Option<Seq<char>> {
    if id == "none"@ || id == "-"@ {
        None
    } else {
        Some(id)
    }
}

/// What the words after `jira issue` ask for.
pub open spec fn issue_spec(w: Seq<Seq<char>>) -> Result<IssueCmd<Seq<char>>, Seq<char>> {
    if w.len() == 0 {
        Ok(IssueCmd::Help)
    } else if w[0] == "list"@ || w[0] == "ls"@ {
        let f = flags_from(w, 1, seq!["--jql"@, "--project"@, "--assignee"@, "--status"@, "--max-results"@], seq![]);
        Ok(IssueCmd::List { jql: f[0], project: f[1], assignee: f[2], status: f[3], max_results: count_or(f[4], 50) })
    } else if w[0] == "get"@ {
        if w.len() < 2 {
            Err("Usage: acli jira issue get <issue-key>"@)
        } else {
            Ok(IssueCmd::Get { key: w[1] })
        }
    } else if w[0] == "create"@ {
        let f = flags_from(
            w,
            1,
            seq!["--project"@, "--summary"@, "--type"@, "--description"@, "--priority"@, "--assignee"@],
            seq![],
        );
        Ok(
            IssueCmd::Create {
                project: f[0],
                summary: f[1],
                issue_type: match f[2] {
                    Some(t) => t,
                    None => "Task"@,
                },
                description: f[3],
                priority: f[4],
                assignee: f[5],
            },
        )
    } else if w[0] == "edit"@ {
        if w.len() < 2 {
            Err("Usage: acli jira issue edit <key> [--summary <s>] [--description <d>] [--priority <p>]"@)
        } else {
            let f = flags_from(w, 2, seq!["--summary"@, "--description"@, "--priority"@], seq![]);
            if f[0] is None && f[1] is None && f[2] is None {
                Err("At least one field (--summary, --description, --priority) is required"@)
            } else {
                Ok(IssueCmd::Edit { key: w[1], summary: f[0], description: f[1], priority: f[2] })
            }
        }
    } else if w[0] == "delete"@ || w[0] == "rm"@ {
        if w.len() < 2 {
            Err("Usage: acli jira issue delete <key> [--delete-subtasks]"@)
        } else {
            Ok(IssueCmd::Delete { key: w[1], delete_subtasks: has_arg(w.drop_first(), "--delete-subtasks"@) })
        }
    } else if w[0] == "assign"@ {
        if w.len() < 3 {
            Err("Usage: acli jira issue assign <key> <account-id|none>"@)
        } else {
            Ok(IssueCmd::Assign { key: w[1], account_id: assignee_of(w[2]) })
        }
    } else if w[0] == "transition"@ {
        if w.len() < 2 {
            Err("Usage: acli jira issue transition <key> --id <id> | --status <name>"@)
        } else {
            let f = flags_from(w, 2, seq!["--id"@, "--status"@], seq![]);
            Ok(IssueCmd::Transition { key: w[1], transition_id: f[0], status: f[1] })
        }
    } else if w[0] == "transitions"@ {
        if w.len() < 2 {
            Err("Usage: acli jira issue transitions <key>"@)
        } else {
            Ok(IssueCmd::Transitions { key: w[1] })
        }
    } else if w[0] == "comment"@ || w[0] == "c"@ {
        Ok(IssueCmd::Comment)
    } else if w[0] == "worklog"@ || w[0] == "wl"@ {
        Ok(IssueCmd::Worklog)
    } else if w[0] == "attach"@ {
        if w.len() < 3 {
            Err("Usage: acli jira issue attach <key> <file-path>"@)
        } else {
            Ok(IssueCmd::Attach { key: w[1], file_path: w[2] })
        }
    } else {
        Err(unknown("Unknown issue action: "@, w[0]))
    }
}

fn skip_first(args: &Vec<String>) -> (r: Vec<String>)
    requires
        args@.len() > 0,
    ensures
        strings_view(r@) == strings_view(args@).drop_first(),
{
    let mut r: Vec<String> = Vec::new();
    let n = args.len();
    for i in 1..n
        invariant
            n == args@.len(),
            strings_view(r@) == strings_view(args@).subrange(1, i as int),
    {
        let ghost before = strings_view(r@);
        r.push(args[i].clone());
        assert(strings_view(r@) =~= before.push(strings_view(args@)[i as int]));
        assert(strings_view(args@).subrange(1, i + 1) =~= strings_view(args@).subrange(1, i as int).push(strings_view(args@)[i as int]));
    }
    assert(strings_view(args@).subrange(1, n as int) =~= strings_view(args@).drop_first());
    r
}

/// Reads the words after `jira issue` (see [`issue_spec`]).
pub fn parse_jira_issue(args: &Vec<String>) -> (r: Result<IssueCmd<String>, String>)
    ensures
        issue_result_view(r) == issue_spec(strings_view(args@)),
{
    if args.len() == 0 {
        return Ok(IssueCmd::Help);
    }
    let none: Vec<&str> = Vec::new();
    assert(crate::text::strs_view(none@) =~= Seq::<Seq<char>>::empty());
    if word_is(args, 0, "list") || word_is(args, 0, "ls") {
        let names = ["--jql", "--project", "--assignee", "--status", "--max-results"];
        let f = scan_flags(args, 1, &names, none.as_slice());
        assert(crate::text::strs_view(names@) =~= seq!["--jql"@, "--project"@, "--assignee"@, "--status"@, "--max-results"@]);
        let max_results = count_or_exec(&f[4], 50);
        assert(opt_strings_view(f@)[4] == opt_view(f@[4]));
        Ok(
            IssueCmd::List {
                jql: flag_at(&f, 0),
                project: flag_at(&f, 1),
                assignee: flag_at(&f, 2),
                status: flag_at(&f, 3),
                max_results,
            },
        )
    } else if word_is(args, 0, "get") {
        if args.len() < 2 {
            return Err(String::from_str("Usage: acli jira issue get <issue-key>"));
        }
        Ok(IssueCmd::Get { key: args[1].clone() })
    } else if word_is(args, 0, "create") {
        let names = ["--project", "--summary", "--type", "--description", "--priority", "--assignee"];
        let f = scan_flags(args, 1, &names, none.as_slice());
        assert(crate::text::strs_view(names@) =~= seq![
            "--project"@,
            "--summary"@,
            "--type"@,
            "--description"@,
            "--priority"@,
            "--assignee"@,
        ]);
        let issue_type = match flag_at(&f, 2) {
            Some(t) => t,
            None => String::from_str("Task"),
        };
        Ok(
            IssueCmd::Create {
                project: flag_at(&f, 0),
                summary: flag_at(&f, 1),
                issue_type,
                description: flag_at(&f, 3),
                priority: flag_at(&f, 4),
                assignee: flag_at(&f, 5),
            },
        )
    } else if word_is(args, 0, "edit") {
        if args.len() < 2 {
            return Err(
                String::from_str("Usage: acli jira issue edit <key> [--summary <s>] [--description <d>] [--priority <p>]"),
            );
        }
        let names = ["--summary", "--description", "--priority"];
        let f = scan_flags(args, 2, &names, none.as_slice());
        assert(crate::text::strs_view(names@) =~= seq!["--summary"@, "--description"@, "--priority"@]);
        let summary = flag_at(&f, 0);
        let description = flag_at(&f, 1);
        let priority = flag_at(&f, 2);
        if summary.is_none() && description.is_none() && priority.is_none() {
            return Err(String::from_str("At least one field (--summary, --description, --priority) is required"));
        }
        Ok(IssueCmd::Edit { key: args[1].clone(), summary, description, priority })
    } else if word_is(args, 0, "delete") || word_is(args, 0, "rm") {
        if args.len() < 2 {
            return Err(String::from_str("Usage: acli jira issue delete <key> [--delete-subtasks]"));
        }
        let rest = skip_first(args);
        Ok(IssueCmd::Delete { key: args[1].clone(), delete_subtasks: any_arg(&rest, "--delete-subtasks") })
    } else if word_is(args, 0, "assign") {
        if args.len() < 3 {
            return Err(String::from_str("Usage: acli jira issue assign <key> <account-id|none>"));
        }
        let account_id = if word_is(args, 2, "none") || word_is(args, 2, "-") {
            None
        } else {
            Some(args[2].clone())
        };
        Ok(IssueCmd::Assign { key: args[1].clone(), account_id })
    } else if word_is(args, 0, "transition") {
        if args.len() < 2 {
            return Err(String::from_str("Usage: acli jira issue transition <key> --id <id> | --status <name>"));
        }
        let names = ["--id", "--status"];
        let f = scan_flags(args, 2, &names, none.as_slice());
        assert(crate::text::strs_view(names@) =~= seq!["--id"@, "--status"@]);
        Ok(IssueCmd::Transition { key: args[1].clone(), transition_id: flag_at(&f, 0), status: flag_at(&f, 1) })
    } else if word_is(args, 0, "transitions") {
        if args.len() < 2 {
            return Err(String::from_str("Usage: acli jira issue transitions <key>"));
        }
        Ok(IssueCmd::Transitions { key: args[1].clone() })
    } else if word_is(args, 0, "comment") || word_is(args, 0, "c") {
        Ok(IssueCmd::Comment)
    } else if word_is(args, 0, "worklog") || word_is(args, 0, "wl") {
        Ok(IssueCmd::Worklog)
    } else if word_is(args, 0, "attach") {
        if args.len() < 3 {
            return Err(String::from_str("Usage: acli jira issue attach <key> <file-path>"));
        }
        Ok(IssueCmd::Attach { key: args[1].clone(), file_path: args[2].clone() })
    } else {
        Err(unknown_exec("Unknown issue action: ", args[0].as_str()))
    }
}

/// One JQL clause when its value is given.
pub open spec fn clause(prefix: Seq<char>, value: Option<Seq<char>>, suffix: Seq<char>) -> Seq<Seq<char>> {
    match value {
        Some(v) => seq![prefix + v + suffix],
        None => seq![],
    }
}

/// The JQL that `jira issue list` searches with: the given JQL, else the
/// project, assignee and status clauses joined with `AND` and ordered by
/// creation date, newest first (the last 30 days when no clause is given).
pub open spec fn issue_list_jql_spec(
    jql: Option<Seq<char>>,
    project: Option<Seq<char>>,
    assignee: Option<Seq<char>>,
    status: Option<Seq<char>>,
) -> Seq<char> {
    match jql {
        Some(j) => j,
        None => {
            let clauses = clause("project = "@, project, seq![]) + clause("assignee = \""@, assignee, "\""@) + clause(
                "status = \""@,
                status,
                "\""@,
            );
            if clauses.len() == 0 {
                "created >= -30d order by created DESC"@
            } else {
                join_with(clauses, " AND "@) + " order by created DESC"@
            }
        },
    }
}

fn push_clause(clauses: &mut Vec<String>, prefix: &str, value: &Option<String>, suffix: &str)
    ensures
        strings_view(final(clauses)@) == strings_view(old(clauses)@) + clause(prefix@, opt_view(*value), suffix@),
{
    let ghost before = strings_view(clauses@);
    match value {
        Some(v) => {
            let mut c = String::from_str(prefix);
            c.append(v.as_str());
            c.append(suffix);
            clauses.push(c);
            assert(strings_view(clauses@) =~= before + clause(prefix@, opt_view(*value), suffix@));
        },
        None => {
            assert(strings_view(clauses@) =~= before + clause(prefix@, opt_view(*value), suffix@));
        },
    }
}

/// The JQL of `jira issue list` (see [`issue_list_jql_spec`]); `project` is
/// the `--project` flag or else the profile's default project.
pub fn issue_list_jql(jql: &Option<String>, project: &Option<String>, assignee: &Option<String>, status: &Option<String>) -> (r: String)
    ensures
        r@ == issue_list_jql_spec(opt_view(*jql), opt_view(*project), opt_view(*assignee), opt_view(*status)),
{
    match jql {
        Some(j) => j.clone(),
        None => {
            let mut clauses: Vec<String> = Vec::new();
            assert(strings_view(clauses@) =~= Seq::<Seq<char>>::empty());
            push_clause(&mut clauses, "project = ", project, "");
            proof {
                reveal_strlit("");
            }
            push_clause(&mut clauses, "assignee = \"", assignee, "\"");
            push_clause(&mut clauses, "status = \"", status, "\"");
            assert(strings_view(clauses@) =~= clause("project = "@, opt_view(*project), seq![]) + clause(
                "assignee = \""@,
                opt_view(*assignee),
                "\""@,
            ) + clause("status = \""@, opt_view(*status), "\""@));
            if clauses.len() == 0 {
                String::from_str("created >= -30d order by created DESC")
            } else {
                let mut q = join_strings(&clauses, " AND ");
                q.append(" order by created DESC");
                q
            }
        },
    }
}

/// The project and summary of a new issue: the `--project` flag or the
/// profile's default project, and the `--summary` flag; both are required.
pub open spec fn create_fields_spec(
    project: Option<Seq<char>>,
    default_project: Option<Seq<char>>,
    summary: Option<Seq<char>>,
) -> Result<(Seq<char>, Seq<char>), Seq<char>> {
    let p = match project {
        Some(p) => Some(p),
        None => default_project,
    };
    match p {
        None => Err("--project is required (or set a profile default)"@),
        Some(p) => match summary {
            None => Err("--summary is required"@),
            Some(s) => Ok((p, s)),
        },
    }
}

/// Decides the project and summary of a new issue (see [`create_fields_spec`]).
pub fn create_fields(project: &Option<String>, default_project: &Option<String>, summary: &Option<String>) -> (r: Result<(String, String), String>)
    ensures
        match r {
            Ok((p, s)) => create_fields_spec(opt_view(*project), opt_view(*default_project), opt_view(*summary)) == Ok::<
                (Seq<char>, Seq<char>),
                Seq<char>,
            >((p@, s@)),
            Err(e) => create_fields_spec(opt_view(*project), opt_view(*default_project), opt_view(*summary)) == Err::<
                (Seq<char>, Seq<char>),
                Seq<char>,
            >(e@),
        },
{
    let p = match project {
        Some(p) => p.clone(),
        None => match default_project {
            Some(d) => d.clone(),
            None => return Err(String::from_str("--project is required (or set a profile default)")),
        },
    };
    match summary {
        Some(s) => Ok((p, s.clone())),
        None => Err(String::from_str("--summary is required")),
    }
}

/// The ASCII lower-case form of a character.
pub open spec fn ascii_lower(c: char) -> char {
    if 'A' <= c && c <= 'Z' {
        ((c as u32) + 32) as char
    } else {
        c
    }
}

/// `a.eq_ignore_ascii_case(b)`: equal once ASCII letters are folded to lower case.
pub open spec fn eq_ignore_ascii_case(a: Seq<char>, b: Seq<char>) -> bool {
    a.len() == b.len() && forall|i: int| 0 <= i < a.len() ==> ascii_lower(#[trigger] a[i]) == ascii_lower(b[i])
}

fn eq_ignore_ascii_case_exec(a: &str, b: &str) -> (r: bool)
    ensures
        r == eq_ignore_ascii_case(a@, b@),
{
    let x = crate::text::chars_of(a);
    let y = crate::text::chars_of(b);
    if x.len() != y.len() {
        return false;
    }
    let n = x.len();
    for i in 0..n
        invariant
            n == x@.len(),
            n == y@.len(),
            x@ == a@,
            y@ == b@,
            forall|k: int| 0 <= k < i ==> ascii_lower(#[trigger] x@[k]) == ascii_lower(y@[k]),
    {
        let p = if 'A' <= x[i] && x[i] <= 'Z' {
            ((x[i] as u32) + 32) as u8 as char
        } else {
            x[i]
        };
        let q = if 'A' <= y[i] && y[i] <= 'Z' {
            ((y[i] as u32) + 32) as u8 as char
        } else {
            y[i]
        };
        assert(p == ascii_lower(x@[i as int]));
        assert(q == ascii_lower(y@[i as int]));
        if p != q {
            return false;
        }
    }
    true
}

/// The id of the first transition whose name matches `status` ignoring ASCII
/// case, if any.
pub open spec fn find_transition_spec(names: Seq<(Seq<char>, Seq<char>)>, status: Seq<char>) -> Result<Seq<char>, Seq<char>>
    decreases names.len(),
{
    if names.len() == 0 {
        Err("No transition found matching status '"@ + status + "'"@)
    } else if eq_ignore_ascii_case(names[0].1, status) {
        Ok(names[0].0)
    } else {
        find_transition_spec(names.drop_first(), status)
    }
}

/// The ids and names of transitions.
pub open spec fn transitions_view(t: Seq<Transition>) -> Seq<(Seq<char>, Seq<char>)> {
    Seq::new(t.len(), |i: int| (t[i].id@, t[i].name@))
}

/// Finds the transition to a status by its name (see [`find_transition_spec`]).
pub fn find_transition(transitions: &Vec<Transition>, status: &str) -> (r: Result<String, String>)
    ensures
        err_view_string(r) == find_transition_spec(transitions_view(transitions@), status@),
{
    let ghost tv = transitions_view(transitions@);
    let n = transitions.len();
    assert(tv.skip(0) =~= tv);
    for i in 0..n
        invariant
            n == transitions@.len(),
            tv == transitions_view(transitions@),
            find_transition_spec(tv.skip(i as int), status@) == find_transition_spec(tv, status@),
    {
        assert(tv.skip(i as int)[0] == tv[i as int]);
        assert(tv.skip(i as int).drop_first() =~= tv.skip(i + 1));
        if eq_ignore_ascii_case_exec(transitions[i].name.as_str(), status) {
            return Ok(transitions[i].id.clone());
        }
    }
    assert(tv.skip(n as int) =~= Seq::<(Seq<char>, Seq<char>)>::empty());
    let mut e = String::from_str("No transition found matching status '");
    e.append(status);
    e.append("'");
    Err(e)
}

pub open spec fn err_view_string(r: Result<String, String>) -> Result<Seq<char>, Seq<char>> {
    match r {
        Ok(s) => Ok(s@),
        Err(e) => Err(e@),
    }
}

/// How `jira issue transition` finds its transition.
pub enum TransitionPlan {
    /// The transition id was given.
    Id(String),
    /// The transition is looked up by the name of its status.
    ByStatus(String),
}

/// Picks the transition: `--id` wins over `--status`; one of them is required.
pub fn transition_plan(transition_id: &Option<String>, status: &Option<String>) -> (r: Result<TransitionPlan, String>)
    ensures
        transition_id matches Some(t) ==> (r matches Ok(TransitionPlan::Id(x)) && x@ == t@),
        transition_id is None ==> (status matches Some(s) ==> (r matches Ok(TransitionPlan::ByStatus(x)) && x@ == s@)),
        transition_id is None && status is None ==> (r matches Err(e) && e@ == "Provide --id <transition-id> or --status <name>"@),
{
    match transition_id {
        Some(t) => Ok(TransitionPlan::Id(t.clone())),
        None => match status {
            Some(s) => Ok(TransitionPlan::ByStatus(s.clone())),
            None => Err(String::from_str("Provide --id <transition-id> or --status <name>")),
        },
    }
}

/// What a `jira issue comment` or `jira issue worklog` command asks for (`S`
/// is the string type); `Add`'s text is the comment body or the time spent.
pub enum NoteCmd<S> {
    Help,
    List { key: S },
    Add { key: S, text: S, comment: Option<S> },
    Delete { key: S, id: S },
}

pub open spec fn note_cmd_view(c: NoteCmd<String>) -> NoteCmd<Seq<char>> {
    match c {
        NoteCmd::Help => NoteCmd::Help,
        NoteCmd::List { key } => NoteCmd::List { key: key@ },
        NoteCmd::Add { key, text, comment } => NoteCmd::Add { key: key@, text: text@, comment: opt_view(comment) },
        NoteCmd::Delete { key, id } => NoteCmd::Delete { key: key@, id: id@ },
    }
}

pub open spec fn note_result_view(r: Result<NoteCmd<String>, String>) -> Result<NoteCmd<Seq<char>>, Seq<char>> {
    match r {
        Ok(c) => Ok(note_cmd_view(c)),
        Err(e) => Err(e@),
    }
}

/// What the words after `jira issue comment` ask for.
pub open spec fn comment_spec(w: Seq<Seq<char>>) -> Result<NoteCmd<Seq<char>>, Seq<char>> {
    if w.len() == 0 {
        Ok(NoteCmd::Help)
    } else if w[0] == "list"@ || w[0] == "ls"@ {
        if w.len() < 2 {
            Err("Usage: acli jira issue comment list <key>"@)
        } else {
            Ok(NoteCmd::List { key: w[1] })
        }
    } else if w[0] == "add"@ {
        if w.len() < 2 {
            Err("Usage: acli jira issue comment add <key> --body <text>"@)
        } else {
            match flag1(w, 2, "--body"@) {
                Some(b) => Ok(NoteCmd::Add { key: w[1], text: b, comment: None }),
                None => Err("--body <text> is required"@),
            }
        }
    } else if w[0] == "delete"@ || w[0] == "rm"@ {
        if w.len() < 3 {
            Err("Usage: acli jira issue comment delete <key> <comment-id>"@)
        } else {
            Ok(NoteCmd::Delete { key: w[1], id: w[2] })
        }
    } else {
        Err(unknown("Unknown comment subcommand: "@, w[0]))
    }
}

/// Reads the words after `jira issue comment` (see [`comment_spec`]).
pub fn parse_issue_comment(args: &Vec<String>) -> (r: Result<NoteCmd<String>, String>)
    ensures
        note_result_view(r) == comment_spec(strings_view(args@)),
{
    if args.len() == 0 {
        return Ok(NoteCmd::Help);
    }
    if word_is(args, 0, "list") || word_is(args, 0, "ls") {
        if args.len() < 2 {
            return Err(String::from_str("Usage: acli jira issue comment list <key>"));
        }
        Ok(NoteCmd::List { key: args[1].clone() })
    } else if word_is(args, 0, "add") {
        if args.len() < 2 {
            return Err(String::from_str("Usage: acli jira issue comment add <key> --body <text>"));
        }
        match flag1_exec(args, 2, "--body") {
            Some(b) => Ok(NoteCmd::Add { key: args[1].clone(), text: b, comment: None }),
            None => Err(String::from_str("--body <text> is required")),
        }
    } else if word_is(args, 0, "delete") || word_is(args, 0, "rm") {
        if args.len() < 3 {
            return Err(String::from_str("Usage: acli jira issue comment delete <key> <comment-id>"));
        }
        Ok(NoteCmd::Delete { key: args[1].clone(), id: args[2].clone() })
    } else {
        Err(unknown_exec("Unknown comment subcommand: ", args[0].as_str()))
    }
}

/// What the words after `jira issue worklog` ask for.
pub open spec fn worklog_spec(w: Seq<Seq<char>>) -> Result<NoteCmd<Seq<char>>, Seq<char>> {
    if w.len() == 0 {
        Ok(NoteCmd::Help)
    } else if w[0] == "list"@ || w[0] == "ls"@ {
        if w.len() < 2 {
            Err("Usage: acli jira issue worklog list <key>"@)
        } else {
            Ok(NoteCmd::List { key: w[1] })
        }
    } else if w[0] == "add"@ {
        if w.len() < 2 {
            Err("Usage: acli jira issue worklog add <key> --time-spent <t>"@)
        } else {
            let f = flags_from(w, 2, seq!["--time-spent"@, "--comment"@], seq![]);
            match f[0] {
                Some(t) => Ok(NoteCmd::Add { key: w[1], text: t, comment: f[1] }),
                None => Err("--time-spent <duration> is required (e.g. 2h, 30m)"@),
            }
        }
    } else if w[0] == "delete"@ || w[0] == "rm"@ {
        if w.len() < 3 {
            Err("Usage: acli jira issue worklog delete <key> <worklog-id>"@)
        } else {
            Ok(NoteCmd::Delete { key: w[1], id: w[2] })
        }
    } else {
        Err(unknown("Unknown worklog subcommand: "@, w[0]))
    }
}

/// Reads the words after `jira issue worklog` (see [`worklog_spec`]).
pub fn parse_issue_worklog(args: &Vec<String>) -> (r: Result<NoteCmd<String>, String>)
    ensures
        note_result_view(r) == worklog_spec(strings_view(args@)),
{
    if args.len() == 0 {
        return Ok(NoteCmd::Help);
    }
    if word_is(args, 0, "list") || word_is(args, 0, "ls") {
        if args.len() < 2 {
            return Err(String::from_str("Usage: acli jira issue worklog list <key>"));
        }
        Ok(NoteCmd::List { key: args[1].clone() })
    } else if word_is(args, 0, "add") {
        if args.len() < 2 {
            return Err(String::from_str("Usage: acli jira issue worklog add <key> --time-spent <t>"));
        }
        let names = ["--time-spent", "--comment"];
        let none: Vec<&str> = Vec::new();
        let f = scan_flags(args, 2, &names, none.as_slice());
        assert(crate::text::strs_view(names@) =~= seq!["--time-spent"@, "--comment"@]);
        assert(crate::text::strs_view(none@) =~= Seq::<Seq<char>>::empty());
        match flag_at(&f, 0) {
            Some(t) => Ok(NoteCmd::Add { key: args[1].clone(), text: t, comment: flag_at(&f, 1) }),
            None => Err(String::from_str("--time-spent <duration> is required (e.g. 2h, 30m)")),
        }
    } else if word_is(args, 0, "delete") || word_is(args, 0, "rm") {
        if args.len() < 3 {
            return Err(String::from_str("Usage: acli jira issue worklog delete <key> <worklog-id>"));
        }
        Ok(NoteCmd::Delete { key: args[1].clone(), id: args[2].clone() })
    } else {
        Err(unknown_exec("Unknown worklog subcommand: ", args[0].as_str()))
    }
}

/// What a `jira board`, `jira sprint` or `jira epic` command asks for (`S` is
/// the string type).
pub enum AgileCmd<S> {
    Help,
    Boards { project: Option<S>, max_results: i32 },
    Sprints { board_id: i32 },
    SprintIssues { sprint_id: i32 },
    EpicIssues { epic_key: S },
}

pub open spec fn agile_cmd_view(c: AgileCmd<String>) -> AgileCmd<Seq<char>> {
    match c {
        AgileCmd::Help => AgileCmd::Help,
        AgileCmd::Boards { project, max_results } => AgileCmd::Boards { project: opt_view(project), max_results },
        AgileCmd::Sprints { board_id } => AgileCmd::Sprints { board_id },
        AgileCmd::SprintIssues { sprint_id } => AgileCmd::SprintIssues { sprint_id },
        AgileCmd::EpicIssues { epic_key } => AgileCmd::EpicIssues { epic_key: epic_key@ },
    }
}

pub open spec fn agile_result_view(r: Result<AgileCmd<String>, String>) -> Result<AgileCmd<Seq<char>>, Seq<char>> {
    match r {
        Ok(c) => Ok(agile_cmd_view(c)),
        Err(e) => Err(e@),
    }
}

/// What the words after `jira board` ask for.
pub open spec fn board_spec(w: Seq<Seq<char>>) -> Result<AgileCmd<Seq<char>>, Seq<char>> {
    if w.len() == 0 {
        Ok(AgileCmd::Help)
    } else if w[0] == "list"@ || w[0] == "ls"@ {
        let f = flags_from(w, 1, seq!["--project"@, "--max-results"@], seq![]);
        Ok(AgileCmd::Boards { project: f[0], max_results: count_or(f[1], 50) })
    } else if w[0] == "sprints"@ {
        if w.len() < 2 {
            Err("Usage: acli jira board sprints <board-id>"@)
        } else {
            match parse_i32(w[1]) {
                Some(id) => Ok(AgileCmd::Sprints { board_id: id }),
                None => Err("Board ID must be a number"@),
            }
        }
    } else {
        Err(unknown("Unknown board action: "@, w[0]))
    }
}

/// Reads the words after `jira board` (see [`board_spec`]).
pub fn parse_jira_board(args: &Vec<String>) -> (r: Result<AgileCmd<String>, String>)
    ensures
        agile_result_view(r) == board_spec(strings_view(args@)),
{
    if args.len() == 0 {
        return Ok(AgileCmd::Help);
    }
    if word_is(args, 0, "list") || word_is(args, 0, "ls") {
        let names = ["--project", "--max-results"];
        let none: Vec<&str> = Vec::new();
        let f = scan_flags(args, 1, &names, none.as_slice());
        assert(crate::text::strs_view(names@) =~= seq!["--project"@, "--max-results"@]);
        assert(crate::text::strs_view(none@) =~= Seq::<Seq<char>>::empty());
        let max_results = count_or_exec(&f[1], 50);
        assert(opt_strings_view(f@)[1] == opt_view(f@[1]));
        Ok(AgileCmd::Boards { project: flag_at(&f, 0), max_results })
    } else if word_is(args, 0, "sprints") {
        if args.len() < 2 {
            return Err(String::from_str("Usage: acli jira board sprints <board-id>"));
        }
        match parse_i32_text(args[1].as_str()) {
            Some(id) => Ok(AgileCmd::Sprints { board_id: id }),
            None => Err(String::from_str("Board ID must be a number")),
        }
    } else {
        Err(unknown_exec("Unknown board action: ", args[0].as_str()))
    }
}

/// What the words after `jira sprint` ask for.
pub open spec fn sprint_spec(w: Seq<Seq<char>>) -> Result<AgileCmd<Seq<char>>, Seq<char>> {
    if w.len() == 0 {
        Ok(AgileCmd::Help)
    } else if w[0] == "issues"@ {
        if w.len() < 2 {
            Err("Usage: acli jira sprint issues <sprint-id>"@)
        } else {
            match parse_i32(w[1]) {
                Some(id) => Ok(AgileCmd::SprintIssues { sprint_id: id }),
                None => Err("Sprint ID must be a number"@),
            }
        }
    } else {
        Err(unknown("Unknown sprint action: "@, w[0]))
    }
}

/// Reads the words after `jira sprint` (see [`sprint_spec`]).
pub fn parse_jira_sprint(args: &Vec<String>) -> (r: Result<AgileCmd<String>, String>)
    ensures
        agile_result_view(r) == sprint_spec(strings_view(args@)),
{
    if args.len() == 0 {
        return Ok(AgileCmd::Help);
    }
    if word_is(args, 0, "issues") {
        if args.len() < 2 {
            return Err(String::from_str("Usage: acli jira sprint issues <sprint-id>"));
        }
        match parse_i32_text(args[1].as_str()) {
            Some(id) => Ok(AgileCmd::SprintIssues { sprint_id: id }),
            None => Err(String::from_str("Sprint ID must be a number")),
        }
    } else {
        Err(unknown_exec("Unknown sprint action: ", args[0].as_str()))
    }
}

/// What the words after `jira epic` ask for.
pub open spec fn epic_spec(w: Seq<Seq<char>>) -> Result<AgileCmd<Seq<char>>, Seq<char>> {
    if w.len() == 0 {
        Ok(AgileCmd::Help)
    } else if w[0] == "issues"@ {
        if w.len() < 2 {
            Err("Usage: acli jira epic issues <epic-key>"@)
        } else {
            Ok(AgileCmd::EpicIssues { epic_key: w[1] })
        }
    } else {
        Err(unknown("Unknown epic action: "@, w[0]))
    }
}

/// Reads the words after `jira epic` (see [`epic_spec`]).
pub fn parse_jira_epic(args: &Vec<String>) -> (r: Result<AgileCmd<String>, String>)
    ensures
        agile_result_view(r) == epic_spec(strings_view(args@)),
{
    if args.len() == 0 {
        return Ok(AgileCmd::Help);
    }
    if word_is(args, 0, "issues") {
        if args.len() < 2 {
            return Err(String::from_str("Usage: acli jira epic issues <epic-key>"));
        }
        Ok(AgileCmd::EpicIssues { epic_key: args[1].clone() })
    } else {
        Err(unknown_exec("Unknown epic action: ", args[0].as_str()))
    }
}

// ---------------------------------------------------------------------------
// config and the top level
// ---------------------------------------------------------------------------

/// What a `config` command asks for (`S` is the string type).
pub enum ConfigCmd<S> {
    Help,
    Setup { name: S },
    List,
    Show { name: Option<S> },
    Delete { name: S },
    SetDefault { name: S },
}

pub open spec fn config_cmd_view(c: ConfigCmd<String>) -> ConfigCmd<Seq<char>> {
    match c {
        ConfigCmd::Help => ConfigCmd::Help,
        ConfigCmd::Setup { name } => ConfigCmd::Setup { name: name@ },
        ConfigCmd::List => ConfigCmd::List,
        ConfigCmd::Show { name } => ConfigCmd::Show { name: opt_view(name) },
        ConfigCmd::Delete { name } => ConfigCmd::Delete { name: name@ },
        ConfigCmd::SetDefault { name } => ConfigCmd::SetDefault { name: name@ },
    }
}

pub open spec fn config_result_view(r: Result<ConfigCmd<String>, String>) -> Result<ConfigCmd<Seq<char>>, Seq<char>> {
    match r {
        Ok(c) => Ok(config_cmd_view(c)),
        Err(e) => Err(e@),
    }
}

/// What the words after `config` ask for.
pub open spec fn config_spec(w: Seq<Seq<char>>) -> Result<ConfigCmd<Seq<char>>, Seq<char>> {
    if w.len() == 0 {
        Ok(ConfigCmd::Help)
    } else if w[0] == "setup"@ {
        if w.len() < 2 {
            Err("Usage: acli config setup <profile-name>"@)
        } else {
            Ok(ConfigCmd::Setup { name: w[1] })
        }
    } else if w[0] == "list"@ || w[0] == "ls"@ {
        Ok(ConfigCmd::List)
    } else if w[0] == "show"@ {
        Ok(ConfigCmd::Show { name: if w.len() > 1 { Some(w[1]) } else { None } })
    } else if w[0] == "delete"@ || w[0] == "rm"@ {
        if w.len() < 2 {
            Err("Usage: acli config delete <profile-name>"@)
        } else {
            Ok(ConfigCmd::Delete { name: w[1] })
        }
    } else if w[0] == "set-default"@ {
        if w.len() < 2 {
            Err("Usage: acli config set-default <profile-name>"@)
        } else {
            Ok(ConfigCmd::SetDefault { name: w[1] })
        }
    } else {
        Err(unknown("Unknown config subcommand: "@, w[0]))
    }
}

/// Reads the words after `config` (see [`config_spec`]).
pub fn parse_config(args: &Vec<String>) -> (r: Result<ConfigCmd<String>, String>)
    ensures
        config_result_view(r) == config_spec(strings_view(args@)),
{
    if args.len() == 0 {
        return Ok(ConfigCmd::Help);
    }
    if word_is(args, 0, "setup") {
        if args.len() < 2 {
            return Err(String::from_str("Usage: acli config setup <profile-name>"));
        }
        Ok(ConfigCmd::Setup { name: args[1].clone() })
    } else if word_is(args, 0, "list") || word_is(args, 0, "ls") {
        Ok(ConfigCmd::List)
    } else if word_is(args, 0, "show") {
        Ok(ConfigCmd::Show { name: if args.len() > 1 { Some(args[1].clone()) } else { None } })
    } else if word_is(args, 0, "delete") || word_is(args, 0, "rm") {
        if args.len() < 2 {
            return Err(String::from_str("Usage: acli config delete <profile-name>"));
        }
        Ok(ConfigCmd::Delete { name: args[1].clone() })
    } else if word_is(args, 0, "set-default") {
        if args.len() < 2 {
            return Err(String::from_str("Usage: acli config set-default <profile-name>"));
        }
        Ok(ConfigCmd::SetDefault { name: args[1].clone() })
    } else {
        Err(unknown_exec("Unknown config subcommand: ", args[0].as_str()))
    }
}

/// The product a command line is about (its second word; the first is the
/// program name).
pub enum TopCommand {
    Usage,
    Config,
    Jira,
    Confluence,
    Bitbucket,
    Alert,
    Version,
    Unknown,
}

/// What the second word of a command line selects.
pub open spec fn top_spec(w: Seq<Seq<char>>) -> TopCommand {
    if w.len() < 2 {
        TopCommand::Usage
    } else if w[1] == "config"@ || w[1] == "cfg"@ {
        TopCommand::Config
    } else if w[1] == "jira"@ || w[1] == "j"@ {
        TopCommand::Jira
    } else if w[1] == "confluence"@ || w[1] == "conf"@ || w[1] == "c"@ {
        TopCommand::Confluence
    } else if w[1] == "bitbucket"@ || w[1] == "bb"@ {
        TopCommand::Bitbucket
    } else if w[1] == "alert"@ {
        TopCommand::Alert
    } else if w[1] == "version"@ {
        TopCommand::Version
    } else {
        TopCommand::Unknown
    }
}

/// Reads the second word of a command line (see [`top_spec`]).
pub fn route_command(cmd: &Vec<String>) -> (r: TopCommand)
    ensures
        r == top_spec(strings_view(cmd@)),
{
    if cmd.len() < 2 {
        TopCommand::Usage
    } else if word_is(cmd, 1, "config") || word_is(cmd, 1, "cfg") {
        TopCommand::Config
    } else if word_is(cmd, 1, "jira") || word_is(cmd, 1, "j") {
        TopCommand::Jira
    } else if word_is(cmd, 1, "confluence") || word_is(cmd, 1, "conf") || word_is(cmd, 1, "c") {
        TopCommand::Confluence
    } else if word_is(cmd, 1, "bitbucket") || word_is(cmd, 1, "bb") {
        TopCommand::Bitbucket
    } else if word_is(cmd, 1, "alert") {
        TopCommand::Alert
    } else if word_is(cmd, 1, "version") {
        TopCommand::Version
    } else {
        TopCommand::Unknown
    }
}

/// How `alert oncall` runs once its arguments are read (`S` is the string type).
pub enum OnCallMode<S> {
    /// Who is on call between two times, for the given schedules (all when none).
    Range { from: S, until: S, schedule_ids: Vec<S> },
    /// Who is on call now for one schedule.
    Current { schedule_id: S },
}

/// Decides the mode of `alert oncall`: a range when both `--from` and
/// `--until` are given, otherwise exactly one schedule is required.
pub fn oncall_mode(from: Option<String>, until: Option<String>, schedule_ids: Vec<String>) -> (r: Result<OnCallMode<String>, String>)
    ensures
        (from is Some && until is Some) ==> (r matches Ok(OnCallMode::Range { from: f, until: u, schedule_ids: ids }) && f@ == from->0@
            && u@ == until->0@ && strings_view(ids@) == strings_view(schedule_ids@)),
        !(from is Some && until is Some) && schedule_ids@.len() == 1 ==> (r matches Ok(OnCallMode::Current { schedule_id: s })
            && s@ == schedule_ids@[0]@),
        !(from is Some && until is Some) && schedule_ids@.len() != 1 ==> (r matches Err(e) && e@
            == "Usage: acli alert oncall <schedule-id>\n   or: acli alert oncall --from <iso> --until <iso> [<schedule-id> ...]"@),
{
    match (from, until) {
        (Some(f), Some(u)) => Ok(OnCallMode::Range { from: f, until: u, schedule_ids }),
        _ => {
            if schedule_ids.len() != 1 {
                Err(
                    String::from_str(
                        "Usage: acli alert oncall <schedule-id>\n   or: acli alert oncall --from <iso> --until <iso> [<schedule-id> ...]",
                    ),
                )
            } else {
                Ok(OnCallMode::Current { schedule_id: schedule_ids[0].clone() })
            }
        },
    }
}

} // verus!
