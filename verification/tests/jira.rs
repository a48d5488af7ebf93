use acli_rust::client::{Body, Client, HttpRequest};
use acli_rust::config::Profile;
use acli_rust::jira::{
    add_comment, add_worklog, assign_issue, attach_file, create_issue, delete_comment, delete_issue, delete_worklog,
    do_transition, edit_issue, get_issue, get_transitions, list_comments, list_worklogs, render_adf, search_jql,
    text_to_adf,
};
use acli_rust::json::{to_json_text, JsonValue};

fn client() -> Client {
    Client::new(Profile {
        name: "test".to_string(),
        atlassian_url: "https://ex.atlassian.net".to_string(),
        email: "test@example.com".to_string(),
        api_token: "test-token".to_string(),
        defaults: None,
    })
}

fn body_text(r: &HttpRequest) -> String {
    match &r.body {
        Body::Json(j) => to_json_text(j),
        _ => String::new(),
    }
}

fn get<'a>(v: &'a JsonValue, key: &str) -> &'a JsonValue {
    match v {
        JsonValue::Object(m) => &m.iter().find(|(k, _)| k == key).expect("missing key").1,
        _ => panic!("not an object"),
    }
}

fn at(v: &JsonValue, i: usize) -> &JsonValue {
    match v {
        JsonValue::Array(a) => &a[i],
        _ => panic!("not an array"),
    }
}

fn text(v: &JsonValue) -> String {
    match v {
        JsonValue::Str(s) => s.clone(),
        JsonValue::Number(n) => n.clone(),
        _ => panic!("not a scalar"),
    }
}

fn s(t: &str) -> JsonValue {
    JsonValue::Str(t.to_string())
}

fn obj(entries: Vec<(&str, JsonValue)>) -> JsonValue {
    JsonValue::Object(entries.into_iter().map(|(k, v)| (k.to_string(), v)).collect())
}

fn arr(items: Vec<JsonValue>) -> JsonValue {
    JsonValue::Array(items)
}

fn doc(content: Vec<JsonValue>) -> JsonValue {
    obj(vec![("type", s("doc")), ("version", JsonValue::Number("1".to_string())), ("content", arr(content))])
}

fn para(items: Vec<JsonValue>) -> JsonValue {
    obj(vec![("type", s("paragraph")), ("content", arr(items))])
}

fn txt(t: &str) -> JsonValue {
    obj(vec![("type", s("text")), ("text", s(t))])
}

fn item(t: &str) -> JsonValue {
    obj(vec![("type", s("listItem")), ("content", arr(vec![para(vec![txt(t)])]))])
}

#[test]
fn test_text_to_adf_single_line() {
    let adf = text_to_adf("Hello world");
    assert_eq!(text(get(&adf, "type")), "doc");
    assert_eq!(text(get(&adf, "version")), "1");
    assert_eq!(text(get(at(get(&adf, "content"), 0), "type")), "paragraph");
    assert_eq!(text(get(at(get(at(get(&adf, "content"), 0), "content"), 0), "text")), "Hello world");
}

#[test]
fn test_text_to_adf_multi_line() {
    let adf = text_to_adf("Line 1\nLine 2");
    assert_eq!(text(get(at(get(at(get(&adf, "content"), 0), "content"), 0), "text")), "Line 1");
    assert_eq!(text(get(at(get(at(get(&adf, "content"), 1), "content"), 0), "text")), "Line 2");
}

#[test]
fn test_render_adf_plain_paragraph() {
    let d = doc(vec![para(vec![txt("Hello world")])]);
    assert_eq!(render_adf(&d), "Hello world");
}

#[test]
fn test_render_adf_two_paragraphs() {
    let d = doc(vec![para(vec![txt("Line 1")]), para(vec![txt("Line 2")])]);
    assert_eq!(render_adf(&d), "Line 1\nLine 2");
}

#[test]
fn test_render_adf_hard_break() {
    let d = doc(vec![para(vec![txt("Hello"), obj(vec![("type", s("hardBreak"))]), txt("World")])]);
    assert_eq!(render_adf(&d), "Hello\nWorld");
}

#[test]
fn test_render_adf_rule() {
    let d = doc(vec![obj(vec![("type", s("rule"))])]);
    assert_eq!(render_adf(&d), "---");
}

#[test]
fn test_render_adf_bullet_list() {
    let d = doc(vec![obj(vec![("type", s("bulletList")), ("content", arr(vec![item("Item 1"), item("Item 2")]))])]);
    assert_eq!(render_adf(&d), "* Item 1\n* Item 2");
}

#[test]
fn test_render_adf_ordered_list() {
    let d = doc(vec![obj(vec![("type", s("orderedList")), ("content", arr(vec![item("First"), item("Second")]))])]);
    assert_eq!(render_adf(&d), "1. First\n2. Second");
}

#[test]
fn test_render_adf_string_passthrough() {
    let v = JsonValue::Str("plain text".to_string());
    assert_eq!(render_adf(&v), "plain text");
}

#[test]
fn test_roundtrip_text_to_adf_and_render() {
    let source = "Line A\nLine B";
    let adf = text_to_adf(source);
    let rendered = render_adf(&adf);
    assert_eq!(rendered, source);
}

#[test]
fn roundtrip_keeps_empty_and_blank_lines() {
    for t in ["", "\n", "a\n\nb", "trailing\n", "ünïcödé"] {
        assert_eq!(render_adf(&text_to_adf(t)), t);
    }
}

#[test]
fn text_to_adf_json_text() {
    assert_eq!(
        to_json_text(&text_to_adf("Hi")),
        "{\"content\":[{\"content\":[{\"text\":\"Hi\",\"type\":\"text\"}],\"type\":\"paragraph\"}],\"type\":\"doc\",\"version\":1}"
    );
}

#[test]
fn render_adf_inline_nodes_and_tables() {
    let mention = obj(vec![("type", s("mention")), ("attrs", obj(vec![("text", s("@ann"))]))]);
    let emoji = obj(vec![("type", s("emoji")), ("attrs", obj(vec![("shortName", s(":smile:"))]))]);
    let card = obj(vec![("type", s("inlineCard")), ("attrs", obj(vec![("url", s("https://x"))]))]);
    let d = doc(vec![para(vec![mention, txt(" "), emoji, txt(" "), card])]);
    assert_eq!(render_adf(&d), "@ann :smile: https://x");
    let cell = |t: &str| obj(vec![("type", s("tableCell")), ("content", arr(vec![para(vec![txt(t)])]))]);
    let row = obj(vec![("type", s("tableRow")), ("content", arr(vec![cell("a"), cell("b")]))]);
    let table = doc(vec![obj(vec![("type", s("table")), ("content", arr(vec![row]))])]);
    assert_eq!(render_adf(&table), "a\tb");
    assert_eq!(render_adf(&JsonValue::Number("3".to_string())), "3");
}

#[test]
fn issue_requests() {
    let c = client();
    let r = get_issue(&c, "ACLI-1");
    assert_eq!(r.method, "GET");
    assert_eq!(r.url, "https://ex.atlassian.net/rest/api/3/issue/ACLI-1");
    let r = search_jql(&c, "project = A", 0, 50, &["summary", "status"]);
    assert_eq!(
        r.url,
        "https://ex.atlassian.net/rest/api/3/search/jql?jql=project%20%3D%20A&startAt=0&maxResults=50&fields=summary%2Cstatus"
    );
    let r = create_issue(&c, "ACLI", "Fix login", "Bug", None, Some("High"));
    assert_eq!(r.url, "https://ex.atlassian.net/rest/api/3/issue");
    assert_eq!(
        body_text(&r),
        "{\"fields\":{\"issuetype\":{\"name\":\"Bug\"},\"priority\":{\"name\":\"High\"},\"project\":{\"key\":\"ACLI\"},\"summary\":\"Fix login\"}}"
    );
    let r = edit_issue(&c, "ACLI-1", Some("New"), None, None);
    assert_eq!(r.method, "PUT");
    assert_eq!(r.url, "https://ex.atlassian.net/rest/api/3/issue/ACLI-1?notifyUsers=false");
    assert_eq!(body_text(&r), "{\"fields\":{\"summary\":\"New\"}}");
    let r = delete_issue(&c, "ACLI-1", true);
    assert_eq!(r.url, "https://ex.atlassian.net/rest/api/3/issue/ACLI-1?deleteSubtasks=true");
    let r = delete_issue(&c, "ACLI-1", false);
    assert_eq!(r.url, "https://ex.atlassian.net/rest/api/3/issue/ACLI-1?deleteSubtasks=false");
    let r = assign_issue(&c, "ACLI-1", None);
    assert_eq!(body_text(&r), "{\"accountId\":null}");
    let r = assign_issue(&c, "ACLI-1", Some("acc-1"));
    assert_eq!(body_text(&r), "{\"accountId\":\"acc-1\"}");
}

#[test]
fn transition_comment_worklog_requests() {
    let c = client();
    assert_eq!(get_transitions(&c, "K-1").url, "https://ex.atlassian.net/rest/api/3/issue/K-1/transitions");
    let r = do_transition(&c, "K-1", "31");
    assert_eq!(r.method, "POST");
    assert_eq!(body_text(&r), "{\"transition\":{\"id\":\"31\"}}");
    assert_eq!(list_comments(&c, "K-1").url, "https://ex.atlassian.net/rest/api/3/issue/K-1/comment");
    let r = add_comment(&c, "K-1", "Works for me");
    assert!(body_text(&r).starts_with("{\"body\":{\"content\":[{\"content\":[{\"text\":\"Works for me\""));
    assert_eq!(delete_comment(&c, "K-1", "9").url, "https://ex.atlassian.net/rest/api/3/issue/K-1/comment/9");
    assert_eq!(list_worklogs(&c, "K-1").url, "https://ex.atlassian.net/rest/api/3/issue/K-1/worklog");
    let r = add_worklog(&c, "K-1", "2h", None);
    assert_eq!(body_text(&r), "{\"timeSpent\":\"2h\"}");
    let r = delete_worklog(&c, "K-1", "7");
    assert_eq!(r.method, "DELETE");
    assert_eq!(r.url, "https://ex.atlassian.net/rest/api/3/issue/K-1/worklog/7");
    let r = attach_file(&c, "K-1", "notes.txt", b"x");
    assert_eq!(r.url, "https://ex.atlassian.net/rest/api/3/issue/K-1/attachments");
}
