use acli_rust::alerts::{
    acknowledge_alert, close_alert, create_alert, exclude_team, get_alert, get_oncall, get_user, infer_id_type,
    is_account_id, list_alert_logs, list_alert_notes, list_alerts, list_schedules, list_teams, merge_escalation_schedules,
    resolved_alert_id, select_schedules, Alert, AlertLookup, CreateAlertPayload, Schedule,
};
use acli_rust::client::{Body, Client, HttpRequest};
use acli_rust::config::{EscalationSchedule, Profile};
use acli_rust::json::to_json_text;

fn client() -> Client {
    Client::new(Profile {
        name: "test".to_string(),
        atlassian_url: "https://ex.atlassian.net".to_string(),
        email: "test@example.com".to_string(),
        api_token: "test-token".to_string(),
        defaults: None,
    })
}

fn body_text(r: &HttpRequest) -> String {
    match &r.body {
        Body::Json(j) => to_json_text(j),
        _ => String::new(),
    }
}

const JSM: &str = "https://api.atlassian.com/jsm/ops/api/cid/v1";

fn schedule(id: &str, name: &str, team: Option<&str>) -> Schedule {
    Schedule { id: id.to_string(), name: name.to_string(), description: None, team_id: team.map(|t| t.to_string()) }
}

fn alert(id: &str) -> Alert {
    Alert {
        id: id.to_string(),
        tiny_id: Some("101".to_string()),
        alias: None,
        message: "Memory leak detected".to_string(),
        status: "open".to_string(),
        acknowledged: false,
        created_at: "2026-05-31T00:00:00Z".to_string(),
        priority: "P3".to_string(),
        updated_at: None,
        entity: None,
        source: None,
        tags: vec![],
        snoozed: None,
        last_occured_at: None,
        integration_type: None,
        integration_name: None,
        owner: None,
        seen: None,
        count: None,
        description: None,
        ack_time: None,
        responders: vec![],
        actions: vec![],
    }
}

#[test]
fn id_types_are_inferred() {
    assert_eq!(infer_id_type("101"), "tinyId");
    assert_eq!(infer_id_type("alert-uuid-1"), "id");
    assert_eq!(infer_id_type("12a"), "id");
    assert_eq!(infer_id_type(""), "tinyId");
}

#[test]
fn alert_list_queries_by_status() {
    let c = client();
    assert_eq!(list_alerts(&c, "cid", None).url, format!("{}/alerts", JSM));
    assert_eq!(list_alerts(&c, "cid", Some("acked")).url, format!("{}/alerts?query=acknowledged%3Atrue", JSM));
    assert_eq!(list_alerts(&c, "cid", Some("acknowledged")).url, format!("{}/alerts?query=acknowledged%3Atrue", JSM));
    assert_eq!(list_alerts(&c, "cid", Some("unacknowledged")).url, format!("{}/alerts?query=acknowledged%3Afalse", JSM));
    assert_eq!(list_alerts(&c, "cid", Some("open")).url, format!("{}/alerts?query=status%3Aopen", JSM));
}

#[test]
fn alert_creation_and_actions() {
    let c = client();
    let r = create_alert(
        &c,
        "cid",
        CreateAlertPayload {
            message: "Server down".to_string(),
            description: Some("Production server offline".to_string()),
            alias: Some("prod-down".to_string()),
            priority: Some("P1".to_string()),
        },
    );
    assert_eq!(r.url, format!("{}/alerts", JSM));
    assert_eq!(
        body_text(&r),
        "{\"alias\":\"prod-down\",\"description\":\"Production server offline\",\"message\":\"Server down\",\"priority\":\"P1\"}"
    );
    let r = acknowledge_alert(&c, "cid", "alert-uuid-1", "id", Some("Ack note"));
    assert_eq!(r.url, format!("{}/alerts/alert-uuid-1/acknowledge?identifierType=id", JSM));
    assert_eq!(body_text(&r), "{\"note\":\"Ack note\"}");
    let r = close_alert(&c, "cid", "prod-down", "alias", None);
    assert_eq!(r.url, format!("{}/alerts/prod-down/close?identifierType=alias", JSM));
    assert_eq!(body_text(&r), "{}");
}

#[test]
fn alert_lookup_resolves_tiny_ids_first() {
    let c = client();
    match get_alert(&c, "cid", "101", "tinyId") {
        AlertLookup::Resolve(r) => assert_eq!(r.url, format!("{}/alerts?query=tinyId%3A101&limit=1", JSM)),
        AlertLookup::Fetch(_) => panic!("tiny ids are resolved first"),
    }
    match get_alert(&c, "cid", "alert-uuid-1", "id") {
        AlertLookup::Fetch(r) => assert_eq!(r.url, format!("{}/alerts/alert-uuid-1?identifierType=id", JSM)),
        AlertLookup::Resolve(_) => panic!("full ids are fetched at once"),
    }
    assert_eq!(resolved_alert_id(&vec![alert("alert-uuid-1")], "101").unwrap(), "alert-uuid-1");
    match resolved_alert_id(&vec![], "7") {
        Ok(_) => panic!("nothing found"),
        Err(e) => assert_eq!(e, "No alert found with tinyId: 7"),
    }
    assert_eq!(
        list_alert_notes(&c, "cid", "a1").url,
        format!("{}/alerts/a1/notes?identifierType=id&limit=100&order=asc", JSM)
    );
    assert_eq!(list_alert_logs(&c, "cid", "a1").url, format!("{}/alerts/a1/logs?identifierType=id&limit=100&order=asc", JSM));
}

#[test]
fn oncall_teams_schedules_and_users() {
    let c = client();
    match get_oncall(&c, "cid", None) {
        Ok(_) => panic!("a schedule is required"),
        Err(e) => assert_eq!(e, "Schedule ID is required. Use: acli alert oncall <schedule-id>"),
    }
    assert_eq!(get_oncall(&c, "cid", Some("s1")).unwrap().url, format!("{}/schedules/s1/on-calls?flat=true", JSM));
    assert_eq!(list_teams(&c, "cid").url, format!("{}/teams", JSM));
    assert_eq!(list_schedules(&c, "cid").url, format!("{}/schedules", JSM));
    assert!(is_account_id("557058:abc"));
    assert!(!is_account_id("user-1"));
    assert_eq!(get_user(&c, "", "557058:abc").url, "https://ex.atlassian.net/rest/api/3/user?accountId=557058:abc");
    assert_eq!(get_user(&c, "cid", "user-1").url, format!("{}/users/user-1?identifierType=id", JSM));
}

#[test]
fn escalation_schedules_are_merged_once() {
    let listed = vec![schedule("s1", "Primary", Some("t1"))];
    let esc = vec![
        EscalationSchedule { name: "Ops".to_string(), schedule_id: "s2".to_string() },
        EscalationSchedule { name: "Dup".to_string(), schedule_id: "s1".to_string() },
        EscalationSchedule { name: "Ops again".to_string(), schedule_id: "s2".to_string() },
    ];
    let merged = merge_escalation_schedules(listed, Some(esc));
    assert_eq!(merged.len(), 2);
    assert_eq!(merged[0].name, "Primary");
    assert_eq!(merged[1].id, "s2");
    assert_eq!(merged[1].name, "Ops (escalation)");
    assert_eq!(merged[1].description.as_deref(), Some("Configured escalation schedule"));
    assert!(merged[1].team_id.is_none());
    let unchanged = merge_escalation_schedules(vec![schedule("a", "A", None)], None);
    assert_eq!(unchanged.len(), 1);
}

#[test]
fn schedules_are_filtered_and_selected() {
    let all = vec![schedule("s1", "Primary", Some("t1")), schedule("s2", "Secondary", None), schedule("s3", "Third", Some("t2"))];
    let kept = exclude_team(all.clone_list(), "t1");
    assert_eq!(kept.iter().map(|s| s.id.as_str()).collect::<Vec<_>>(), vec!["s2", "s3"]);
    let keys = vec!["Third".to_string(), "missing".to_string(), "s1".to_string()];
    let picked = select_schedules(&all, &keys);
    assert_eq!(picked.iter().map(|s| s.id.as_str()).collect::<Vec<_>>(), vec!["s3", "s1"]);
}

trait CloneList {
    fn clone_list(&self) -> Vec<Schedule>;
}

impl CloneList for Vec<Schedule> {
    fn clone_list(&self) -> Vec<Schedule> {
        self.iter().map(|s| schedule(&s.id, &s.name, s.team_id.as_deref())).collect()
    }
}
