use vstd::prelude::*;
use vstd::string::StringExecFns;
use crate::client::{query_view, Client, HttpRequest};
use crate::text::{i64_to_decimal, signed_decimal};

verus! {

// ---------------------------------------------------------------------------
// Boards and sprints (Jira Software agile API)
// ---------------------------------------------------------------------------

/// The project a board belongs to.
pub struct BoardLocation {
    pub project_key: String,
    pub project_name: String,
}

/// A Scrum or Kanban board.
pub struct Board {
    pub id: i32,
    pub name: String,
    pub board_type: String,
    pub location: Option<BoardLocation>,
}

/// One page of boards.
pub struct BoardsResponse {
    pub start_at: i32,
    pub max_results: i32,
    pub total: i32,
    pub is_last: bool,
    pub values: Vec<Board>,
}

/// A sprint of a board.
pub struct Sprint {
    pub id: i32,
    pub name: String,
    pub state: String,
    pub start_date: Option<String>,
    pub end_date: Option<String>,
}

/// One page of sprints.
pub struct SprintsResponse {
    pub start_at: i32,
    pub max_results: i32,
    pub total: i32,
    pub is_last: bool,
    pub values: Vec<Sprint>,
}

/// The paging parameters `startAt` and `maxResults`.
pub open spec fn page_query(start_at: i32, max_results: i32) -> Seq<(Seq<char>, Seq<char>)> {
    seq![("startAt"@, signed_decimal(start_at as int)), ("maxResults"@, signed_decimal(max_results as int))]
}

/// Lists boards, optionally only those of one project.
pub fn list_boards(client: &Client, start_at: i32, max_results: i32, project: Option<&str>) -> (r: HttpRequest)
    ensures
        r@ == client.request_spec(
            "GET"@,
            "/rest/agile/1.0/board"@,
            Some(
                page_query(start_at, max_results) + match project {
                    Some(p) => seq![("projectKeyOrId"@, p@)],
                    None => seq![],
                },
            ),
            None,
        ),
{
    let start_str = i64_to_decimal(start_at as i64);
    let max_str = i64_to_decimal(max_results as i64);
    let mut q: Vec<(&str, &str)> = Vec::new();
    q.push(("startAt", start_str.as_str()));
    q.push(("maxResults", max_str.as_str()));
    match project {
        Some(p) => q.push(("projectKeyOrId", p)),
        None => {},
    }
    let qs = q.as_slice();
    assert(query_view(Some(qs))->0 =~= page_query(start_at, max_results) + match project {
        Some(p) => seq![("projectKeyOrId"@, p@)],
        None => seq![],
    });
    client.request("GET", "/rest/agile/1.0/board", Some(qs), None)
}

fn paged_get(client: &Client, path: &str, start_at: i32, max_results: i32) -> (r: HttpRequest)
    ensures
        r@ == client.request_spec("GET"@, path@, Some(page_query(start_at, max_results)), None),
{
    let start_str = i64_to_decimal(start_at as i64);
    let max_str = i64_to_decimal(max_results as i64);
    let q = [("startAt", start_str.as_str()), ("maxResults", max_str.as_str())];
    let qs: &[(&str, &str)] = &q;
    assert(query_view(Some(qs))->0 =~= page_query(start_at, max_results));
    client.request("GET", path, Some(qs), None)
}

/// Lists a board's sprints.
pub fn get_board_sprints(client: &Client, board_id: i32, start_at: i32, max_results: i32) -> (r: HttpRequest)
    ensures
        r@ == client.request_spec(
            "GET"@,
            "/rest/agile/1.0/board/"@ + signed_decimal(board_id as int) + "/sprint"@,
            Some(page_query(start_at, max_results)),
            None,
        ),
{
    let mut p = String::from_str("/rest/agile/1.0/board/");
    let id = i64_to_decimal(board_id as i64);
    p.append(id.as_str());
    p.append("/sprint");
    paged_get(client, p.as_str(), start_at, max_results)
}

/// Lists the issues of a sprint.
pub fn get_sprint_issues(client: &Client, sprint_id: i32, start_at: i32, max_results: i32) -> (r: HttpRequest)
    ensures
        r@ == client.request_spec(
            "GET"@,
            "/rest/agile/1.0/sprint/"@ + signed_decimal(sprint_id as int) + "/issue"@,
            Some(page_query(start_at, max_results)),
            None,
        ),
{
    let mut p = String::from_str("/rest/agile/1.0/sprint/");
    let id = i64_to_decimal(sprint_id as i64);
    p.append(id.as_str());
    p.append("/issue");
    paged_get(client, p.as_str(), start_at, max_results)
}

/// Lists the issues of an epic.
pub fn get_epic_issues(client: &Client, epic_key: &str, start_at: i32, max_results: i32) -> (r: HttpRequest)
    ensures
        r@ == client.request_spec(
            "GET"@,
            "/rest/agile/1.0/epic/"@ + epic_key@ + "/issue"@,
            Some(page_query(start_at, max_results)),
            None,
        ),
{
    let mut p = String::from_str("/rest/agile/1.0/epic/");
    p.append(epic_key);
    p.append("/issue");
    paged_get(client, p.as_str(), start_at, max_results)
}

} // verus!
