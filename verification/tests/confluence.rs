use acli_rust::client::{Body, Client, HttpRequest};
use acli_rust::config::Profile;
use acli_rust::confluence::{
    create_page, create_space, delete_page, get_page, get_space, list_pages, list_space_pages, list_spaces, render_storage,
    update_page,
};
use acli_rust::json::to_json_text;

fn client() -> Client {
    Client::new(Profile {
        name: "test".to_string(),
        atlassian_url: "https://ex.atlassian.net".to_string(),
        email: "test@example.com".to_string(),
        api_token: "test-token".to_string(),
        defaults: None,
    })
}

fn body_text(r: &HttpRequest) -> String {
    match &r.body {
        Body::Json(j) => to_json_text(j),
        _ => String::new(),
    }
}

#[test]
fn test_render_plain_paragraph() {
    assert_eq!(render_storage("<p>Hello world</p>"), "Hello world");
}

#[test]
fn test_render_heading() {
    assert_eq!(render_storage("<h1>Title</h1>"), "# Title");
    assert_eq!(render_storage("<h2>Subtitle</h2>"), "## Subtitle");
}

#[test]
fn test_render_bullet_list() {
    let html = "<ul><li>Alpha</li><li>Beta</li></ul>";
    let rendered = render_storage(html);
    assert!(rendered.contains("* Alpha"));
    assert!(rendered.contains("* Beta"));
}

#[test]
fn test_render_ordered_list() {
    let html = "<ol><li>First</li><li>Second</li></ol>";
    let rendered = render_storage(html);
    assert!(rendered.contains("1. First"));
    assert!(rendered.contains("2. Second"));
}

#[test]
fn test_render_entity_decoding() {
    assert_eq!(render_storage("a &amp; b"), "a & b");
    assert_eq!(render_storage("&lt;tag&gt;"), "<tag>");
    assert_eq!(render_storage("&quot;quoted&quot;"), "\"quoted\"");
}

#[test]
fn test_render_strips_unknown_tags() {
    assert_eq!(render_storage("<strong>bold</strong>"), "bold");
    assert_eq!(render_storage("<em>italic</em>"), "italic");
}

#[test]
fn test_render_empty() {
    assert_eq!(render_storage(""), "");
    assert_eq!(render_storage("<p></p>"), "");
}

#[test]
fn test_render_numeric_entity() {
    assert_eq!(render_storage("&#65;"), "A");
    assert_eq!(render_storage("&#x41;"), "A");
}

#[test]
fn test_render_collapses_excess_newlines() {
    let html = "<p>First</p><p>Second</p>";
    let rendered = render_storage(html);
    assert!(!rendered.contains("\n\n\n"));
}

#[test]
fn test_render_storage_with_real_html() {
    let html = r#"<h1>Title</h1><p>First paragraph.</p><ul><li>Item A</li><li>Item B</li></ul><p>Second paragraph with &amp; entity.</p>"#;
    let rendered = render_storage(html);

    assert!(rendered.contains("# Title"));
    assert!(rendered.contains("First paragraph."));
    assert!(rendered.contains("* Item A"));
    assert!(rendered.contains("* Item B"));
    assert!(rendered.contains("Second paragraph with & entity."));
}

#[test]
fn render_exact_shapes() {
    assert_eq!(render_storage("<p>First</p><p>Second</p>"), "First\n\nSecond");
    assert_eq!(render_storage("<ul><li>Alpha</li><li>Beta</li></ul>"), "* Alpha\n* Beta");
    assert_eq!(render_storage("<ol><li>First</li><li>Second</li></ol>"), "1. First\n2. Second");
    assert_eq!(render_storage("a<br>b"), "a\nb");
    assert_eq!(render_storage("a<br/>b"), "ab");
    assert_eq!(render_storage("&nbsp;x&apos;s&unknown;"), "x's&unknown;");
    assert_eq!(render_storage("<p>a</p><p></p><p></p><p>b</p>"), "a\n\nb");
}

#[test]
fn render_keeps_no_surrounding_whitespace() {
    let out = render_storage("  <p>  text </p>\n\n\n ");
    assert_eq!(out, out.trim());
    assert!(!out.contains("\n\n\n"));
}

#[test]
fn space_requests() {
    let c = client();
    let r = list_spaces(&c, 25, Some("global"));
    assert_eq!(r.url, "https://ex.atlassian.net/wiki/api/v2/spaces?limit=25&type=global");
    let r = list_spaces(&c, 50, None);
    assert_eq!(r.url, "https://ex.atlassian.net/wiki/api/v2/spaces?limit=50");
    let r = get_space(&c, "SP1");
    assert_eq!(r.url, "https://ex.atlassian.net/wiki/api/v2/spaces/SP1");
    let r = create_space(&c, "Team Docs", Some("TEAM"), Some("About"));
    assert_eq!(r.method, "POST");
    assert_eq!(
        body_text(&r),
        "{\"description\":{\"representation\":\"plain\",\"value\":\"About\"},\"key\":\"TEAM\",\"name\":\"Team Docs\"}"
    );
    let r = list_space_pages(&c, "SP1", Some("On boarding"), 10);
    assert_eq!(r.url, "https://ex.atlassian.net/wiki/api/v2/spaces/SP1/pages?limit=10&title=On%20boarding");
}

#[test]
fn page_requests() {
    let c = client();
    let r = list_pages(&c, Some("S"), None, 50);
    assert_eq!(r.url, "https://ex.atlassian.net/wiki/api/v2/pages?limit=50&space-id=S");
    let r = get_page(&c, "P1", true);
    assert_eq!(r.url, "https://ex.atlassian.net/wiki/api/v2/pages/P1?body-format=storage");
    let r = get_page(&c, "P1", false);
    assert_eq!(r.url, "https://ex.atlassian.net/wiki/api/v2/pages/P1");
    let r = create_page(&c, "S", "Hello", Some("<p>Hi</p>"), None);
    assert_eq!(
        body_text(&r),
        "{\"body\":{\"representation\":\"storage\",\"value\":\"<p>Hi</p>\"},\"spaceId\":\"S\",\"status\":\"current\",\"title\":\"Hello\"}"
    );
    let r = update_page(&c, "P1", "Hello v2", 2, None);
    assert_eq!(r.method, "PUT");
    assert_eq!(
        body_text(&r),
        "{\"id\":\"P1\",\"status\":\"current\",\"title\":\"Hello v2\",\"version\":{\"number\":2}}"
    );
    let r = delete_page(&c, "P1");
    assert_eq!(r.method, "DELETE");
    assert_eq!(r.url, "https://ex.atlassian.net/wiki/api/v2/pages/P1");
}

#[test]
fn blank_lines_are_added_once() {
    // a paragraph after text starts after exactly one blank line, whatever came before
    assert_eq!(render_storage("a<p>b</p>"), "a\n\nb");
    assert_eq!(render_storage("a\n<p>b</p>"), "a\n\nb");
    assert_eq!(render_storage("a\n\n<p>b</p>"), "a\n\nb");
    assert_eq!(render_storage("a<p></p><p>b</p>"), "a\n\nb");
}
