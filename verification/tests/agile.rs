use acli_rust::agile::{get_board_sprints, get_epic_issues, get_sprint_issues, list_boards};
use acli_rust::client::Client;
use acli_rust::config::Profile;

fn client() -> Client {
    Client::new(Profile {
        name: "test".to_string(),
        atlassian_url: "https://ex.atlassian.net".to_string(),
        email: "test@example.com".to_string(),
        api_token: "test-token".to_string(),
        defaults: None,
    })
}

#[test]
fn agile_requests() {
    let c = client();
    assert_eq!(list_boards(&c, 0, 50, None).url, "https://ex.atlassian.net/rest/agile/1.0/board?startAt=0&maxResults=50");
    assert_eq!(
        list_boards(&c, 0, 10, Some("ACLI")).url,
        "https://ex.atlassian.net/rest/agile/1.0/board?startAt=0&maxResults=10&projectKeyOrId=ACLI"
    );
    assert_eq!(
        get_board_sprints(&c, 7, 0, 50).url,
        "https://ex.atlassian.net/rest/agile/1.0/board/7/sprint?startAt=0&maxResults=50"
    );
    assert_eq!(
        get_sprint_issues(&c, 12, 0, 50).url,
        "https://ex.atlassian.net/rest/agile/1.0/sprint/12/issue?startAt=0&maxResults=50"
    );
    assert_eq!(
        get_epic_issues(&c, "ACLI-9", 5, 20).url,
        "https://ex.atlassian.net/rest/agile/1.0/epic/ACLI-9/issue?startAt=5&maxResults=20"
    );
}
