use acli_rust::bitbucket::{
    approve_pr, create_pr, create_repo, decline_pr, delete_repo, get_pipeline, get_pipeline_log, get_pr, get_repo,
    list_pipeline_steps, list_pipelines, list_prs, list_repos, merge_pr, run_pipeline, stop_pipeline,
};
use acli_rust::client::{Body, Client, HttpRequest};
use acli_rust::config::Profile;
use acli_rust::json::to_json_text;

fn client() -> Client {
    Client::new(Profile {
        name: "test".to_string(),
        atlassian_url: "http://127.0.0.1:9".to_string(),
        email: "test@example.com".to_string(),
        api_token: "test-token".to_string(),
        defaults: None,
    })
}

fn body_text(r: &HttpRequest) -> String {
    match &r.body {
        Body::Json(j) => to_json_text(j),
        _ => String::new(),
    }
}

const BB: &str = "https://api.bitbucket.org/2.0";

#[test]
fn repo_requests() {
    let c = client();
    let r = list_repos(&c, "myteam", Some("member"), None, 50);
    assert_eq!(r.url, format!("{}/repositories/myteam?pagelen=50&role=member", BB));
    assert_eq!(get_repo(&c, "myteam", "acli").url, format!("{}/repositories/myteam/acli", BB));
    let r = create_repo(&c, "myteam", "new-repo", "new-repo", true, None, Some("rust"));
    assert_eq!(r.method, "POST");
    assert_eq!(body_text(&r), "{\"is_private\":true,\"language\":\"rust\",\"name\":\"new-repo\",\"scm\":\"git\"}");
    let r = delete_repo(&c, "myteam", "old-repo");
    assert_eq!(r.method, "DELETE");
    assert_eq!(r.url, format!("{}/repositories/myteam/old-repo", BB));
}

#[test]
fn pull_request_requests() {
    let c = client();
    let r = list_prs(&c, "myteam", "acli", Some("OPEN"), 25);
    assert_eq!(r.url, format!("{}/repositories/myteam/acli/pullrequests?pagelen=25&state=OPEN", BB));
    assert_eq!(get_pr(&c, "myteam", "acli", 42).url, format!("{}/repositories/myteam/acli/pullrequests/42", BB));
    let r = create_pr(&c, "myteam", "acli", "Add feature", "feature/new", "main", Some("d"));
    assert_eq!(
        body_text(&r),
        "{\"description\":\"d\",\"destination\":{\"branch\":{\"name\":\"main\"}},\"source\":{\"branch\":{\"name\":\"feature/new\"}},\"title\":\"Add feature\"}"
    );
    let r = approve_pr(&c, "myteam", "acli", 42);
    assert_eq!(r.method, "POST");
    assert_eq!(r.url, format!("{}/repositories/myteam/acli/pullrequests/42/approve", BB));
    let r = merge_pr(&c, "myteam", "acli", 42, Some("squash"));
    assert_eq!(body_text(&r), "{\"merge_strategy\":\"squash\"}");
    let r = merge_pr(&c, "myteam", "acli", 42, None);
    assert!(matches!(r.body, Body::Empty));
    assert_eq!(decline_pr(&c, "myteam", "acli", -1).url, format!("{}/repositories/myteam/acli/pullrequests/-1/decline", BB));
}

#[test]
fn pipeline_requests() {
    let c = client();
    let r = list_pipelines(&c, "myteam", "acli", 25);
    assert_eq!(r.url, format!("{}/repositories/myteam/acli/pipelines/?pagelen=25&sort=-created_on", BB));
    assert_eq!(get_pipeline(&c, "myteam", "acli", "pipe-uuid-1").url, format!("{}/repositories/myteam/acli/pipelines/pipe-uuid-1", BB));
    let r = run_pipeline(&c, "myteam", "acli", "main");
    assert_eq!(
        body_text(&r),
        "{\"target\":{\"ref_name\":\"main\",\"ref_type\":\"branch\",\"type\":\"pipeline_ref_target\"}}"
    );
    let r = stop_pipeline(&c, "myteam", "acli", "pipe-uuid-1");
    assert_eq!(r.url, format!("{}/repositories/myteam/acli/pipelines/pipe-uuid-1/stopPipeline", BB));
    let r = get_pipeline_log(&c, "myteam", "acli", "pipe-uuid-1", "step-uuid-1");
    assert_eq!(r.url, format!("{}/repositories/myteam/acli/pipelines/pipe-uuid-1/steps/step-uuid-1/log", BB));
    let r = list_pipeline_steps(&c, "myteam", "acli", "pipe-uuid-1");
    assert_eq!(r.url, format!("{}/repositories/myteam/acli/pipelines/pipe-uuid-1/steps/", BB));
}
