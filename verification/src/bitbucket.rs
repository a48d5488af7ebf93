use vstd::prelude::*;
use vstd::string::StringExecFns;
use crate::client::{query_view, Client, HttpRequest};
use crate::config::str_opt_view;
use crate::confluence::opt_param;
use crate::json::{json_entries, json_object, json_object1, json_str, obj1, opt_entry, opt_str, push_entry, Json, JsonValue};
use crate::text::{i64_to_decimal, signed_decimal};

verus! {

// ---------------------------------------------------------------------------
// Shared types
// ---------------------------------------------------------------------------

/// A Bitbucket user.
pub struct BbUser {
    pub display_name: String,
    pub uuid: Option<String>,
    pub nickname: Option<String>,
}

/// A branch reference.
pub struct BbRef {
    pub name: String,
}

/// A commit.
pub struct BbCommit {
    pub hash: String,
}

// ---------------------------------------------------------------------------
// Repository types
// ---------------------------------------------------------------------------

/// A repository's main branch.
pub struct MainBranch {
    pub name: String,
}

/// A repository.
pub struct Repo {
    pub full_name: String,
    pub slug: Option<String>,
    pub name: Option<String>,
    pub description: Option<String>,
    pub language: Option<String>,
    pub scm: Option<String>,
    pub is_private: bool,
    pub created_on: Option<String>,
    pub updated_on: Option<String>,
    pub main_branch: Option<MainBranch>,
}

/// One page of repositories.
pub struct ReposPage {
    pub values: Vec<Repo>,
    pub next: Option<String>,
    pub page_len: Option<i32>,
    pub size: Option<i32>,
}

// ---------------------------------------------------------------------------
// Pull request types
// ---------------------------------------------------------------------------

/// One end of a pull request.
pub struct PrEndpoint {
    pub branch: BbRef,
}

/// A pull request.
pub struct PullRequest {
    pub id: i64,
    pub title: String,
    pub state: String,
    pub author: BbUser,
    pub source: PrEndpoint,
    pub destination: PrEndpoint,
    pub description: Option<String>,
    pub created_on: Option<String>,
    pub updated_on: Option<String>,
}

/// One page of pull requests.
pub struct PrsPage {
    pub values: Vec<PullRequest>,
    pub next: Option<String>,
    pub size: Option<i32>,
}

// ---------------------------------------------------------------------------
// Pipeline types
// ---------------------------------------------------------------------------

/// How a finished pipeline or step ended.
pub struct PipelineStateResult {
    pub name: String,
}

/// A pipeline's or step's state.
pub struct PipelineState {
    pub name: String,
    pub result: Option<PipelineStateResult>,
}

/// What started a pipeline.
pub struct PipelineTrigger {
    pub name: String,
}

/// What a pipeline ran on.
pub struct PipelineTarget {
    pub ref_name: Option<String>,
    pub commit: Option<BbCommit>,
}

/// A pipeline run.
pub struct Pipeline {
    pub uuid: String,
    pub build_number: i64,
    pub state: PipelineState,
    pub trigger: PipelineTrigger,
    pub target: PipelineTarget,
    pub created_on: Option<String>,
    pub completed_on: Option<String>,
    pub duration_in_seconds: Option<i64>,
}

/// One page of pipelines.
pub struct PipelinesPage {
    pub values: Vec<Pipeline>,
    pub next: Option<String>,
    pub size: Option<i32>,
}

/// One step of a pipeline.
pub struct PipelineStep {
    pub uuid: String,
    pub name: Option<String>,
    pub state: PipelineState,
    pub started_on: Option<String>,
    pub completed_on: Option<String>,
    pub duration_in_seconds: Option<i64>,
}

/// The steps of a pipeline.
pub struct StepsPage {
    pub values: Vec<PipelineStep>,
}

// ---------------------------------------------------------------------------
// URLs
// ---------------------------------------------------------------------------

/// A Bitbucket Cloud API URL.
pub open spec fn bb_url_spec(path: Seq<char>) -> Seq<char> {
    "https://api.bitbucket.org/2.0"@ + path
}

fn bb_url(path: &str) -> (r: String)
    ensures
        r@ == bb_url_spec(path@),
{
    let mut u = String::from_str("https://api.bitbucket.org/2.0");
    u.append(path);
    u
}

/// The URL of a repository, followed by `suffix`.
pub open spec fn repo_url(workspace: Seq<char>, slug: Seq<char>, suffix: Seq<char>) -> Seq<char> {
    bb_url_spec("/repositories/"@ + workspace + "/"@ + slug + suffix)
}

fn repo_url_exec(workspace: &str, slug: &str, suffix: &str) -> (r: String)
    ensures
        r@ == repo_url(workspace@, slug@, suffix@),
{
    let mut p = String::from_str("/repositories/");
    p.append(workspace);
    p.append("/");
    p.append(slug);
    p.append(suffix);
    bb_url(p.as_str())
}

fn pr_url_exec(workspace: &str, slug: &str, pr_id: i64, suffix: &str) -> (r: String)
    ensures
        r@ == repo_url(workspace@, slug@, "/pullrequests/"@ + signed_decimal(pr_id as int) + suffix@),
{
    let mut s = String::from_str("/pullrequests/");
    let id = i64_to_decimal(pr_id);
    s.append(id.as_str());
    s.append(suffix);
    repo_url_exec(workspace, slug, s.as_str())
}

// ---------------------------------------------------------------------------
// Repositories
// ---------------------------------------------------------------------------

/// Lists the repositories of a workspace, optionally filtered by role and query.
pub fn list_repos(client: &Client, workspace: &str, role: Option<&str>, query: Option<&str>, page_len: i32) -> (r: HttpRequest)
    ensures
        r@ == client.request_spec(
            "GET"@,
            bb_url_spec("/repositories/"@ + workspace@),
            Some(
                seq![("pagelen"@, signed_decimal(page_len as int))] + opt_param("role"@, str_opt_view(role)) + opt_param(
                    "q"@,
                    str_opt_view(query),
                ),
            ),
            None,
        ),
{
    let mut p = String::from_str("/repositories/");
    p.append(workspace);
    let url = bb_url(p.as_str());
    let len_str = i64_to_decimal(page_len as i64);
    let mut q: Vec<(&str, &str)> = Vec::new();
    q.push(("pagelen", len_str.as_str()));
    match role {
        Some(r) => q.push(("role", r)),
        None => {},
    }
    match query {
        Some(f) => q.push(("q", f)),
        None => {},
    }
    let qs = q.as_slice();
    assert(query_view(Some(qs))->0 =~= seq![("pagelen"@, signed_decimal(page_len as int))] + opt_param(
        "role"@,
        str_opt_view(role),
    ) + opt_param("q"@, str_opt_view(query)));
    client.request("GET", url.as_str(), Some(qs), None)
}

/// Fetches one repository.
pub fn get_repo(client: &Client, workspace: &str, slug: &str) -> (r: HttpRequest)
    ensures
        r@ == client.request_spec("GET"@, repo_url(workspace@, slug@, seq![]), None, None),
{
    let u = repo_url_exec(workspace, slug, "");
    proof {
        reveal_strlit("");
        assert(""@ =~= Seq::<char>::empty());
    }
    client.request("GET", u.as_str(), None, None)
}

/// The body that creates a git repository (entries in key order).
pub open spec fn create_repo_body(name: Seq<char>, is_private: bool, description: Option<Seq<char>>, language: Option<Seq<char>>) -> Json {
    Json::Object(
        opt_entry("description"@, opt_str(description)) + seq![("is_private"@, Json::Bool(is_private))] + opt_entry(
            "language"@,
            opt_str(language),
        ) + seq![("name"@, Json::Str(name)), ("scm"@, Json::Str("git"@))],
    )
}

/// Creates a git repository.
pub fn create_repo(
    client: &Client,
    workspace: &str,
    slug: &str,
    name: &str,
    is_private: bool,
    description: Option<&str>,
    language: Option<&str>,
) -> (r: HttpRequest)
    ensures
        r@ == client.request_spec(
            "POST"@,
            repo_url(workspace@, slug@, seq![]),
            None,
            Some(create_repo_body(name@, is_private, str_opt_view(description), str_opt_view(language))),
        ),
{
    let mut e: Vec<(String, JsonValue)> = Vec::new();
    match description {
        Some(d) => push_entry(&mut e, "description", json_str(d)),
        None => {},
    }
    push_entry(&mut e, "is_private", JsonValue::Bool(is_private));
    match language {
        Some(l) => push_entry(&mut e, "language", json_str(l)),
        None => {},
    }
    push_entry(&mut e, "name", json_str(name));
    push_entry(&mut e, "scm", json_str("git"));
    assert(json_entries(e@) =~= create_repo_body(name@, is_private, str_opt_view(description), str_opt_view(language))->Object_0);
    let body = json_object(e);
    let u = repo_url_exec(workspace, slug, "");
    proof {
        reveal_strlit("");
        assert(""@ =~= Seq::<char>::empty());
    }
    client.request("POST", u.as_str(), None, Some(body))
}

/// Deletes a repository.
pub fn delete_repo(client: &Client, workspace: &str, slug: &str) -> (r: HttpRequest)
    ensures
        r@ == client.request_spec("DELETE"@, repo_url(workspace@, slug@, seq![]), None, None),
{
    let u = repo_url_exec(workspace, slug, "");
    proof {
        reveal_strlit("");
        assert(""@ =~= Seq::<char>::empty());
    }
    client.request("DELETE", u.as_str(), None, None)
}

// ---------------------------------------------------------------------------
// Pull requests
// ---------------------------------------------------------------------------

/// Lists a repository's pull requests, optionally in one state.
pub fn list_prs(client: &Client, workspace: &str, slug: &str, state: Option<&str>, page_len: i32) -> (r: HttpRequest)
    ensures
        r@ == client.request_spec(
            "GET"@,
            repo_url(workspace@, slug@, "/pullrequests"@),
            Some(seq![("pagelen"@, signed_decimal(page_len as int))] + opt_param("state"@, str_opt_view(state))),
            None,
        ),
{
    let u = repo_url_exec(workspace, slug, "/pullrequests");
    let len_str = i64_to_decimal(page_len as i64);
    let mut q: Vec<(&str, &str)> = Vec::new();
    q.push(("pagelen", len_str.as_str()));
    match state {
        Some(s) => q.push(("state", s)),
        None => {},
    }
    let qs = q.as_slice();
    assert(query_view(Some(qs))->0 =~= seq![("pagelen"@, signed_decimal(page_len as int))] + opt_param("state"@, str_opt_view(state)));
    client.request("GET", u.as_str(), Some(qs), None)
}

/// Fetches one pull request.
pub fn get_pr(client: &Client, workspace: &str, slug: &str, pr_id: i64) -> (r: HttpRequest)
    ensures
        r@ == client.request_spec("GET"@, repo_url(workspace@, slug@, "/pullrequests/"@ + signed_decimal(pr_id as int)), None, None),
{
    let u = pr_url_exec(workspace, slug, pr_id, "");
    proof {
        reveal_strlit("");
        assert("/pullrequests/"@ + signed_decimal(pr_id as int) + ""@ =~= "/pullrequests/"@ + signed_decimal(pr_id as int));
    }
    client.request("GET", u.as_str(), None, None)
}

/// `{"branch": {"name": b}}`.
pub open spec fn branch_obj(b: Seq<char>) -> Json {
    obj1("branch"@, obj1("name"@, Json::Str(b)))
}

/// The body that opens a pull request (entries in key order).
pub open spec fn create_pr_body(title: Seq<char>, source: Seq<char>, dest: Seq<char>, description: Option<Seq<char>>) -> Json {
    Json::Object(
        opt_entry("description"@, opt_str(description)) + seq![
            ("destination"@, branch_obj(dest)),
            ("source"@, branch_obj(source)),
            ("title"@, Json::Str(title)),
        ],
    )
}

fn branch_value(b: &str) -> (r: JsonValue)
    ensures
        r@ == branch_obj(b@),
{
    json_object1("branch", json_object1("name", json_str(b)))
}

/// Opens a pull request from one branch into another.
pub fn create_pr(
    client: &Client,
    workspace: &str,
    slug: &str,
    title: &str,
    source_branch: &str,
    dest_branch: &str,
    description: Option<&str>,
) -> (r: HttpRequest)
    ensures
        r@ == client.request_spec(
            "POST"@,
            repo_url(workspace@, slug@, "/pullrequests"@),
            None,
            Some(create_pr_body(title@, source_branch@, dest_branch@, str_opt_view(description))),
        ),
{
    let mut e: Vec<(String, JsonValue)> = Vec::new();
    match description {
        Some(d) => push_entry(&mut e, "description", json_str(d)),
        None => {},
    }
    push_entry(&mut e, "destination", branch_value(dest_branch));
    push_entry(&mut e, "source", branch_value(source_branch));
    push_entry(&mut e, "title", json_str(title));
    assert(json_entries(e@) =~= create_pr_body(title@, source_branch@, dest_branch@, str_opt_view(description))->Object_0);
    let body = json_object(e);
    let u = repo_url_exec(workspace, slug, "/pullrequests");
    client.request("POST", u.as_str(), None, Some(body))
}

/// Approves a pull request.
pub fn approve_pr(client: &Client, workspace: &str, slug: &str, pr_id: i64) -> (r: HttpRequest)
    ensures
        r@ == client.request_spec(
            "POST"@,
            repo_url(workspace@, slug@, "/pullrequests/"@ + signed_decimal(pr_id as int) + "/approve"@),
            None,
            None,
        ),
{
    let u = pr_url_exec(workspace, slug, pr_id, "/approve");
    client.request("POST", u.as_str(), None, None)
}

/// Merges a pull request, with the given merge strategy if any.
pub fn merge_pr(client: &Client, workspace: &str, slug: &str, pr_id: i64, merge_strategy: Option<&str>) -> (r: HttpRequest)
    ensures
        r@ == client.request_spec(
            "POST"@,
            repo_url(workspace@, slug@, "/pullrequests/"@ + signed_decimal(pr_id as int) + "/merge"@),
            None,
            match merge_strategy {
                Some(s) => Some(obj1("merge_strategy"@, Json::Str(s@))),
                None => None,
            },
        ),
{
    let u = pr_url_exec(workspace, slug, pr_id, "/merge");
    let body = match merge_strategy {
        Some(s) => Some(json_object1("merge_strategy", json_str(s))),
        None => None,
    };
    client.request("POST", u.as_str(), None, body)
}

/// Declines a pull request.
pub fn decline_pr(client: &Client, workspace: &str, slug: &str, pr_id: i64) -> (r: HttpRequest)
    ensures
        r@ == client.request_spec(
            "POST"@,
            repo_url(workspace@, slug@, "/pullrequests/"@ + signed_decimal(pr_id as int) + "/decline"@),
            None,
            None,
        ),
{
    let u = pr_url_exec(workspace, slug, pr_id, "/decline");
    client.request("POST", u.as_str(), None, None)
}

// ---------------------------------------------------------------------------
// Pipelines
// ---------------------------------------------------------------------------

/// Lists a repository's pipelines, newest first.
pub fn list_pipelines(client: &Client, workspace: &str, slug: &str, page_len: i32) -> (r: HttpRequest)
    ensures
        r@ == client.request_spec(
            "GET"@,
            repo_url(workspace@, slug@, "/pipelines/"@),
            Some(seq![("pagelen"@, signed_decimal(page_len as int)), ("sort"@, "-created_on"@)]),
            None,
        ),
{
    let u = repo_url_exec(workspace, slug, "/pipelines/");
    let len_str = i64_to_decimal(page_len as i64);
    let q = [("pagelen", len_str.as_str()), ("sort", "-created_on")];
    let qs: &[(&str, &str)] = &q;
    assert(query_view(Some(qs))->0 =~= seq![("pagelen"@, signed_decimal(page_len as int)), ("sort"@, "-created_on"@)]);
    client.request("GET", u.as_str(), Some(qs), None)
}

fn pipeline_url_exec(workspace: &str, slug: &str, uuid: &str, suffix: &str) -> (r: String)
    ensures
        r@ == repo_url(workspace@, slug@, "/pipelines/"@ + uuid@ + suffix@),
{
    let mut s = String::from_str("/pipelines/");
    s.append(uuid);
    s.append(suffix);
    repo_url_exec(workspace, slug, s.as_str())
}

/// Fetches one pipeline.
pub fn get_pipeline(client: &Client, workspace: &str, slug: &str, uuid: &str) -> (r: HttpRequest)
    ensures
        r@ == client.request_spec("GET"@, repo_url(workspace@, slug@, "/pipelines/"@ + uuid@), None, None),
{
    let u = pipeline_url_exec(workspace, slug, uuid, "");
    proof {
        reveal_strlit("");
        assert("/pipelines/"@ + uuid@ + ""@ =~= "/pipelines/"@ + uuid@);
    }
    client.request("GET", u.as_str(), None, None)
}

/// The body that runs the pipeline of a branch.
pub open spec fn run_pipeline_body(branch: Seq<char>) -> Json {
    obj1(
        "target"@,
        Json::Object(
            seq![
                ("ref_name"@, Json::Str(branch)),
                ("ref_type"@, Json::Str("branch"@)),
                ("type"@, Json::Str("pipeline_ref_target"@)),
            ],
        ),
    )
}

/// Runs the pipeline of a branch.
pub fn run_pipeline(client: &Client, workspace: &str, slug: &str, branch: &str) -> (r: HttpRequest)
    ensures
        r@ == client.request_spec("POST"@, repo_url(workspace@, slug@, "/pipelines/"@), None, Some(run_pipeline_body(branch@))),
{
    let mut e: Vec<(String, JsonValue)> = Vec::new();
    push_entry(&mut e, "ref_name", json_str(branch));
    push_entry(&mut e, "ref_type", json_str("branch"));
    push_entry(&mut e, "type", json_str("pipeline_ref_target"));
    assert(json_entries(e@) =~= run_pipeline_body(branch@)->Object_0[0].1->Object_0);
    let body = json_object1("target", json_object(e));
    let u = repo_url_exec(workspace, slug, "/pipelines/");
    client.request("POST", u.as_str(), None, Some(body))
}

/// Stops a running pipeline.
pub fn stop_pipeline(client: &Client, workspace: &str, slug: &str, uuid: &str) -> (r: HttpRequest)
    ensures
        r@ == client.request_spec("POST"@, repo_url(workspace@, slug@, "/pipelines/"@ + uuid@ + "/stopPipeline"@), None, None),
{
    let u = pipeline_url_exec(workspace, slug, uuid, "/stopPipeline");
    client.request("POST", u.as_str(), None, None)
}

/// Fetches the log of one step of a pipeline.
pub fn get_pipeline_log(client: &Client, workspace: &str, slug: &str, pipeline_uuid: &str, step_uuid: &str) -> (r: HttpRequest)
    ensures
        r@ == client.request_spec(
            "GET"@,
            repo_url(workspace@, slug@, "/pipelines/"@ + pipeline_uuid@ + "/steps/"@ + step_uuid@ + "/log"@),
            None,
            None,
        ),
{
    let mut s = String::from_str("/steps/");
    s.append(step_uuid);
    s.append("/log");
    let u = pipeline_url_exec(workspace, slug, pipeline_uuid, s.as_str());
    assert(u@ =~= repo_url(workspace@, slug@, "/pipelines/"@ + pipeline_uuid@ + "/steps/"@ + step_uuid@ + "/log"@));
    client.request("GET", u.as_str(), None, None)
}

/// Lists the steps of a pipeline.
pub fn list_pipeline_steps(client: &Client, workspace: &str, slug: &str, pipeline_uuid: &str) -> (r: HttpRequest)
    ensures
        r@ == client.request_spec("GET"@, repo_url(workspace@, slug@, "/pipelines/"@ + pipeline_uuid@ + "/steps/"@), None, None),
{
    let u = pipeline_url_exec(workspace, slug, pipeline_uuid, "/steps/");
    client.request("GET", u.as_str(), None, None)
}

} // verus!
