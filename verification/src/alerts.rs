use vstd::prelude::*;
use vstd::string::StringExecFns;
use crate::client::{contains, query_view, str_contains, Client, HttpRequest};
use crate::config::{clone_opt_string, opt_view, str_opt_view, EscalationSchedule, EscalationScheduleView, schedules_view};
use crate::json::{json_entries, json_object, json_str, opt_entry, opt_str, push_entry, Json, JsonValue};
use crate::text::str_eq;

verus! {

// ---------------------------------------------------------------------------
// Types
// ---------------------------------------------------------------------------

/// Someone an alert is routed to.
pub struct AlertResponder {
    pub id: Option<String>,
    pub responder_type: Option<String>,
}

/// A JSM Ops alert.
pub struct Alert {
    pub id: String,
    pub tiny_id: Option<String>,
    pub alias: Option<String>,
    pub message: String,
    pub status: String,
    pub acknowledged: bool,
    pub created_at: String,
    pub priority: String,
    pub updated_at: Option<String>,
    pub entity: Option<String>,
    pub source: Option<String>,
    pub tags: Vec<String>,
    pub snoozed: Option<bool>,
    pub last_occured_at: Option<String>,
    pub integration_type: Option<String>,
    pub integration_name: Option<String>,
    pub owner: Option<String>,
    pub seen: Option<bool>,
    pub count: Option<u64>,
    pub description: Option<String>,
    pub ack_time: Option<String>,
    pub responders: Vec<AlertResponder>,
    pub actions: Vec<String>,
}

/// A list of alerts.
pub struct AlertListResponse {
    pub values: Vec<Alert>,
    pub count: Option<u64>,
}

/// A note on an alert.
pub struct AlertNote {
    pub note: String,
    pub owner: Option<String>,
    pub created_at: Option<String>,
}

/// The notes of an alert.
pub struct AlertNotesResponse {
    pub values: Vec<AlertNote>,
}

/// An entry of an alert's activity log.
pub struct AlertLog {
    pub log_time: Option<String>,
    pub log_type: Option<String>,
    pub log: String,
    pub owner: Option<String>,
}

/// The activity log of an alert.
pub struct AlertLogsResponse {
    pub values: Vec<AlertLog>,
}

/// What a new alert says.
pub struct CreateAlertPayload {
    pub message: String,
    pub description: Option<String>,
    pub alias: Option<String>,
    pub priority: Option<String>,
}

/// Who is on call.
pub struct OnCallResponse {
    pub on_call_users: Vec<String>,
}

/// A team.
pub struct Team {
    pub id: String,
    pub name: String,
    pub description: Option<String>,
}

/// An on-call schedule.
pub struct Schedule {
    pub id: String,
    pub name: String,
    pub description: Option<String>,
    pub team_id: Option<String>,
}

/// A list of schedules.
pub struct SchedulesResponse {
    pub values: Vec<Schedule>,
}

/// A user, as Jira (account) or JSM Ops describes one.
pub struct User {
    pub account_id: Option<String>,
    pub display_name: Option<String>,
    pub email_address: Option<String>,
    pub active: Option<bool>,
    pub account_type: Option<String>,
    pub time_zone: Option<String>,
    pub id: Option<String>,
    pub username: Option<String>,
    pub full_name: Option<String>,
}

// ---------------------------------------------------------------------------
// Alerts
// ---------------------------------------------------------------------------

/// The JSON body of a new alert: its message and the optional fields that are
/// set, entries in key order.
pub open spec fn alert_payload_json(
    message: Seq<char>,
    description: Option<Seq<char>>,
    alias: Option<Seq<char>>,
    priority: Option<Seq<char>>,
) -> Json {
    Json::Object(
        opt_entry("alias"@, opt_str(alias)) + opt_entry("description"@, opt_str(description)) + seq![
            ("message"@, Json::Str(message)),
        ] + opt_entry("priority"@, opt_str(priority)),
    )
}

/// Creates an alert.
pub fn create_alert(client: &Client, cloud_id: &str, payload: CreateAlertPayload) -> (r: HttpRequest)
    ensures
        r@ == client.request_spec(
            "POST"@,
            client.jsm_path(cloud_id@, "/alerts"@),
            None,
            Some(
                alert_payload_json(
                    payload.message@,
                    opt_view(payload.description),
                    opt_view(payload.alias),
                    opt_view(payload.priority),
                ),
            ),
        ),
{
    let mut e: Vec<(String, JsonValue)> = Vec::new();
    match &payload.alias {
        Some(a) => push_entry(&mut e, "alias", json_str(a.as_str())),
        None => {},
    }
    match &payload.description {
        Some(d) => push_entry(&mut e, "description", json_str(d.as_str())),
        None => {},
    }
    push_entry(&mut e, "message", json_str(payload.message.as_str()));
    match &payload.priority {
        Some(p) => push_entry(&mut e, "priority", json_str(p.as_str())),
        None => {},
    }
    assert(json_entries(e@) =~= alert_payload_json(
        payload.message@,
        opt_view(payload.description),
        opt_view(payload.alias),
        opt_view(payload.priority),
    )->Object_0);
    let body = json_object(e);
    client.request_jsm(cloud_id, "POST", "/alerts", None, Some(body))
}

/// The search query for alerts in a status: `acknowledged` and `acked` ask for
/// acknowledged alerts, `unacknowledged` for the others, anything else is a
/// `status:` value.
pub open spec fn status_query(status: Seq<char>) -> Seq<char> {
    if status == "acknowledged"@ || status == "acked"@ {
        "acknowledged:true"@
    } else if status == "unacknowledged"@ {
        "acknowledged:false"@
    } else {
        "status:"@ + status
    }
}

fn status_query_exec(status: &str) -> (r: String)
    ensures
        r@ == status_query(status@),
{
    if str_eq(status, "acknowledged") || str_eq(status, "acked") {
        String::from_str("acknowledged:true")
    } else if str_eq(status, "unacknowledged") {
        String::from_str("acknowledged:false")
    } else {
        let mut q = String::from_str("status:");
        q.append(status);
        q
    }
}

/// Lists alerts, optionally only those in one status.
pub fn list_alerts(client: &Client, cloud_id: &str, query_status: Option<&str>) -> (r: HttpRequest)
    ensures
        r@ == client.request_spec(
            "GET"@,
            client.jsm_path(cloud_id@, "/alerts"@),
            Some(
                match query_status {
                    Some(s) => seq![("query"@, status_query(s@))],
                    None => seq![],
                },
            ),
            None,
        ),
{
    let sq = match query_status {
        Some(s) => Some(status_query_exec(s)),
        None => None,
    };
    let mut q: Vec<(&str, &str)> = Vec::new();
    match &sq {
        Some(t) => q.push(("query", t.as_str())),
        None => {},
    }
    let qs = q.as_slice();
    assert(query_view(Some(qs))->0 =~= match query_status {
        Some(s) => seq![("query"@, status_query(s@))],
        None => seq![],
    });
    client.request_jsm(cloud_id, "GET", "/alerts", Some(qs), None)
}

/// Whether every character is an ASCII digit.
pub open spec fn all_digits(s: Seq<char>) -> bool {
    forall|i: int| 0 <= i < s.len() ==> '0' <= #[trigger] s[i] <= '9'
}

/// The identifier type of an alert identifier: all-digit identifiers are tiny
/// ids, anything else is a full id.
pub fn infer_id_type(identifier: &str) -> (r: &'static str)
    ensures
        r@ == (if all_digits(identifier@) {
            "tinyId"@
        } else {
            "id"@
        }),
{
    let cs = crate::text::chars_of(identifier);
    let n = cs.len();
    for i in 0..n
        invariant
            n == cs@.len(),
            cs@ == identifier@,
            forall|k: int| 0 <= k < i ==> '0' <= #[trigger] cs@[k] <= '9',
    {
        if cs[i] < '0' || cs[i] > '9' {
            return "id";
        }
    }
    "tinyId"
}

/// Looks an alert up by its tiny id (the first match).
pub fn resolve_tiny_id(client: &Client, cloud_id: &str, tiny_id: &str) -> (r: HttpRequest)
    ensures
        r@ == client.request_spec(
            "GET"@,
            client.jsm_path(cloud_id@, "/alerts"@),
            Some(seq![("query"@, "tinyId:"@ + tiny_id@), ("limit"@, "1"@)]),
            None,
        ),
{
    let mut t = String::from_str("tinyId:");
    t.append(tiny_id);
    let q = [("query", t.as_str()), ("limit", "1")];
    let qs: &[(&str, &str)] = &q;
    assert(query_view(Some(qs))->0 =~= seq![("query"@, "tinyId:"@ + tiny_id@), ("limit"@, "1"@)]);
    client.request_jsm(cloud_id, "GET", "/alerts", Some(qs), None)
}

/// The full id of the first alert found for a tiny id.
pub fn resolved_alert_id(found: &Vec<Alert>, tiny_id: &str) -> (r: Result<String, String>)
    ensures
        found@.len() > 0 ==> (r matches Ok(id) && id@ == found@[0].id@),
        found@.len() == 0 ==> (r matches Err(e) && e@ == "No alert found with tinyId: "@ + tiny_id@),
{
    if found.len() > 0 {
        Ok(found[0].id.clone())
    } else {
        let mut e = String::from_str("No alert found with tinyId: ");
        e.append(tiny_id);
        Err(e)
    }
}

/// Fetches an alert by its full id.
pub fn alert_by_id(client: &Client, cloud_id: &str, alert_id: &str) -> (r: HttpRequest)
    ensures
        r@ == client.request_spec(
            "GET"@,
            client.jsm_path(cloud_id@, "/alerts/"@ + alert_id@),
            Some(seq![("identifierType"@, "id"@)]),
            None,
        ),
{
    let mut p = String::from_str("/alerts/");
    p.append(alert_id);
    let q = [("identifierType", "id")];
    let qs: &[(&str, &str)] = &q;
    assert(query_view(Some(qs))->0 =~= seq![("identifierType"@, "id"@)]);
    client.request_jsm(cloud_id, "GET", p.as_str(), Some(qs), None)
}

/// The first request of fetching an alert: a tiny id is first resolved to the
/// alert's full id (the detail endpoint does not take tiny ids); a full id is
/// fetched at once.
pub enum AlertLookup {
    Resolve(HttpRequest),
    Fetch(HttpRequest),
}

/// Starts fetching an alert given an identifier and its type.
pub fn get_alert(client: &Client, cloud_id: &str, identifier: &str, id_type: &str) -> (r: AlertLookup)
    ensures
        id_type@ == "tinyId"@ ==> (r matches AlertLookup::Resolve(q) && q@ == client.request_spec(
            "GET"@,
            client.jsm_path(cloud_id@, "/alerts"@),
            Some(seq![("query"@, "tinyId:"@ + identifier@), ("limit"@, "1"@)]),
            None,
        )),
        id_type@ != "tinyId"@ ==> (r matches AlertLookup::Fetch(q) && q@ == client.request_spec(
            "GET"@,
            client.jsm_path(cloud_id@, "/alerts/"@ + identifier@),
            Some(seq![("identifierType"@, "id"@)]),
            None,
        )),
{
    if str_eq(id_type, "tinyId") {
        AlertLookup::Resolve(resolve_tiny_id(client, cloud_id, identifier))
    } else {
        AlertLookup::Fetch(alert_by_id(client, cloud_id, identifier))
    }
}

/// The paging of an alert's notes and log: by id, a hundred, oldest first.
pub open spec fn alert_detail_query() -> Seq<(Seq<char>, Seq<char>)> {
    seq![("identifierType"@, "id"@), ("limit"@, "100"@), ("order"@, "asc"@)]
}

fn alert_detail(client: &Client, cloud_id: &str, alert_id: &str, what: &str) -> (r: HttpRequest)
    ensures
        r@ == client.request_spec("GET"@, client.jsm_path(cloud_id@, "/alerts/"@ + alert_id@ + what@), Some(alert_detail_query()), None),
{
    let mut p = String::from_str("/alerts/");
    p.append(alert_id);
    p.append(what);
    let q = [("identifierType", "id"), ("limit", "100"), ("order", "asc")];
    let qs: &[(&str, &str)] = &q;
    assert(query_view(Some(qs))->0 =~= alert_detail_query());
    client.request_jsm(cloud_id, "GET", p.as_str(), Some(qs), None)
}

/// Lists an alert's notes.
pub fn list_alert_notes(client: &Client, cloud_id: &str, alert_id: &str) -> (r: HttpRequest)
    ensures
        r@ == client.request_spec("GET"@, client.jsm_path(cloud_id@, "/alerts/"@ + alert_id@ + "/notes"@), Some(alert_detail_query()), None),
{
    alert_detail(client, cloud_id, alert_id, "/notes")
}

/// Lists an alert's activity log.
pub fn list_alert_logs(client: &Client, cloud_id: &str, alert_id: &str) -> (r: HttpRequest)
    ensures
        r@ == client.request_spec("GET"@, client.jsm_path(cloud_id@, "/alerts/"@ + alert_id@ + "/logs"@), Some(alert_detail_query()), None),
{
    alert_detail(client, cloud_id, alert_id, "/logs")
}

/// The body of an acknowledge or close action: the note, if any.
pub open spec fn note_body(note: Option<Seq<char>>) -> Json {
    Json::Object(opt_entry("note"@, opt_str(note)))
}

fn alert_action(client: &Client, cloud_id: &str, identifier: &str, id_type: &str, note: Option<&str>, action: &str) -> (r: HttpRequest)
    ensures
        r@ == client.request_spec(
            "POST"@,
            client.jsm_path(cloud_id@, "/alerts/"@ + identifier@ + action@),
            Some(seq![("identifierType"@, id_type@)]),
            Some(note_body(str_opt_view(note))),
        ),
{
    let mut p = String::from_str("/alerts/");
    p.append(identifier);
    p.append(action);
    let q = [("identifierType", id_type)];
    let qs: &[(&str, &str)] = &q;
    assert(query_view(Some(qs))->0 =~= seq![("identifierType"@, id_type@)]);
    let mut e: Vec<(String, JsonValue)> = Vec::new();
    match note {
        Some(n) => push_entry(&mut e, "note", json_str(n)),
        None => {},
    }
    assert(json_entries(e@) =~= opt_entry("note"@, opt_str(str_opt_view(note))));
    let body = json_object(e);
    client.request_jsm(cloud_id, "POST", p.as_str(), Some(qs), Some(body))
}

/// Acknowledges an alert, with an optional note.
pub fn acknowledge_alert(client: &Client, cloud_id: &str, identifier: &str, id_type: &str, note: Option<&str>) -> (r: HttpRequest)
    ensures
        r@ == client.request_spec(
            "POST"@,
            client.jsm_path(cloud_id@, "/alerts/"@ + identifier@ + "/acknowledge"@),
            Some(seq![("identifierType"@, id_type@)]),
            Some(note_body(str_opt_view(note))),
        ),
{
    alert_action(client, cloud_id, identifier, id_type, note, "/acknowledge")
}

/// Closes an alert, with an optional note.
pub fn close_alert(client: &Client, cloud_id: &str, identifier: &str, id_type: &str, note: Option<&str>) -> (r: HttpRequest)
    ensures
        r@ == client.request_spec(
            "POST"@,
            client.jsm_path(cloud_id@, "/alerts/"@ + identifier@ + "/close"@),
            Some(seq![("identifierType"@, id_type@)]),
            Some(note_body(str_opt_view(note))),
        ),
{
    alert_action(client, cloud_id, identifier, id_type, note, "/close")
}

// ---------------------------------------------------------------------------
// On-call, teams, schedules, users
// ---------------------------------------------------------------------------

/// Asks who is on call for a schedule (by id, which is required).
pub fn get_oncall(client: &Client, cloud_id: &str, schedule_id: Option<&str>) -> (r: Result<HttpRequest, String>)
    ensures
        schedule_id is None ==> (r matches Err(e) && e@ == "Schedule ID is required. Use: acli alert oncall <schedule-id>"@),
        schedule_id matches Some(sid) ==> (r matches Ok(q) && q@ == client.request_spec(
            "GET"@,
            client.jsm_path(cloud_id@, "/schedules/"@ + sid@ + "/on-calls"@),
            Some(seq![("flat"@, "true"@)]),
            None,
        )),
{
    match schedule_id {
        None => Err(String::from_str("Schedule ID is required. Use: acli alert oncall <schedule-id>")),
        Some(sid) => {
            let mut p = String::from_str("/schedules/");
            p.append(sid);
            p.append("/on-calls");
            let q = [("flat", "true")];
            let qs: &[(&str, &str)] = &q;
            assert(query_view(Some(qs))->0 =~= seq![("flat"@, "true"@)]);
            Ok(client.request_jsm(cloud_id, "GET", p.as_str(), Some(qs), None))
        },
    }
}

/// Lists teams.
pub fn list_teams(client: &Client, cloud_id: &str) -> (r: HttpRequest)
    ensures
        r@ == client.request_spec("GET"@, client.jsm_path(cloud_id@, "/teams"@), None, None),
{
    client.request_jsm(cloud_id, "GET", "/teams", None, None)
}

/// Lists schedules.
pub fn list_schedules(client: &Client, cloud_id: &str) -> (r: HttpRequest)
    ensures
        r@ == client.request_spec("GET"@, client.jsm_path(cloud_id@, "/schedules"@), None, None),
{
    client.request_jsm(cloud_id, "GET", "/schedules", None, None)
}

/// The model of a schedule.
pub struct ScheduleView {
    pub id: Seq<char>,
    pub name: Seq<char>,
    pub description: Option<Seq<char>>,
    pub team_id: Option<Seq<char>>,
}

impl View for Schedule {
    type V = ScheduleView;

    open spec fn view(&self) -> ScheduleView {
        ScheduleView { id: self.id@, name: self.name@, description: opt_view(self.description), team_id: opt_view(self.team_id) }
    }
}

/// The models of a list of schedules.
pub open spec fn schedule_list_view(v: Seq<Schedule>) -> Seq<ScheduleView> {
    Seq::new(v.len(), |i: int| v[i]@)
}

/// Whether a schedule with this id is listed.
pub open spec fn lists_schedule(s: Seq<ScheduleView>, id: Seq<char>) -> bool {
    exists|i: int| 0 <= i < s.len() && #[trigger] s[i].id == id
}

/// The schedule that stands for a configured escalation schedule.
pub open spec fn escalation_entry(e: EscalationScheduleView) -> ScheduleView {
    ScheduleView {
        id: e.schedule_id,
        name: e.name + " (escalation)"@,
        description: Some("Configured escalation schedule"@),
        team_id: None,
    }
}

/// `listed` followed by the escalation schedules, in order, each added only
/// when no schedule with its id is listed yet.
pub open spec fn merge_escalations(listed: Seq<ScheduleView>, esc: Seq<EscalationScheduleView>) -> Seq<ScheduleView>
    decreases esc.len(),
{
    if esc.len() == 0 {
        listed
    } else {
        let next = if lists_schedule(listed, esc[0].schedule_id) {
            listed
        } else {
            listed.push(escalation_entry(esc[0]))
        };
        merge_escalations(next, esc.drop_first())
    }
}

/// No two schedules share an id.
pub open spec fn ids_distinct(s: Seq<ScheduleView>) -> bool {
    forall|i: int, j: int| 0 <= i < j < s.len() ==> #[trigger] s[i].id != #[trigger] s[j].id
}

/// Merging keeps the listed schedules first, unchanged, and only appends.
pub proof fn law_merge_keeps_listed(listed: Seq<ScheduleView>, esc: Seq<EscalationScheduleView>)
    ensures
        merge_escalations(listed, esc).len() >= listed.len(),
        merge_escalations(listed, esc).take(listed.len() as int) == listed,
        merge_escalations(listed, esc).len() <= listed.len() + esc.len(),
    decreases esc.len(),
{
    if esc.len() > 0 {
        let next = if lists_schedule(listed, esc[0].schedule_id) {
            listed
        } else {
            listed.push(escalation_entry(esc[0]))
        };
        law_merge_keeps_listed(next, esc.drop_first());
        assert(merge_escalations(listed, esc).take(listed.len() as int) =~= merge_escalations(next, esc.drop_first()).take(
            next.len() as int,
        ).take(listed.len() as int));
    }
}

/// After merging, every configured escalation schedule is listed.
pub proof fn law_merge_lists_every_escalation(listed: Seq<ScheduleView>, esc: Seq<EscalationScheduleView>)
    ensures
        forall|k: int| 0 <= k < esc.len() ==> lists_schedule(merge_escalations(listed, esc), #[trigger] esc[k].schedule_id),
        forall|i: int| 0 <= i < listed.len() ==> lists_schedule(merge_escalations(listed, esc), #[trigger] listed[i].id),
    decreases esc.len(),
{
    let m = merge_escalations(listed, esc);
    law_merge_keeps_listed(listed, esc);
    assert forall|i: int| 0 <= i < listed.len() implies lists_schedule(m, #[trigger] listed[i].id) by {
        assert(m.take(listed.len() as int)[i] == m[i]);
        assert(m[i].id == listed[i].id);
    }
    if esc.len() > 0 {
        let next = if lists_schedule(listed, esc[0].schedule_id) {
            listed
        } else {
            listed.push(escalation_entry(esc[0]))
        };
        law_merge_lists_every_escalation(next, esc.drop_first());
        assert forall|k: int| 0 <= k < esc.len() implies lists_schedule(m, #[trigger] esc[k].schedule_id) by {
            if k == 0 {
                if lists_schedule(listed, esc[0].schedule_id) {
                    let i = choose|i: int| 0 <= i < listed.len() && #[trigger] listed[i].id == esc[0].schedule_id;
                    assert(lists_schedule(m, listed[i].id));
                } else {
                    assert(next[listed.len() as int].id == esc[0].schedule_id);
                    assert(lists_schedule(m, next[listed.len() as int].id));
                }
            } else {
                assert(esc[k] == esc.drop_first()[k - 1]);
            }
        }
    }
}

/// Merging into schedules with distinct ids gives schedules with distinct ids.
pub proof fn law_merge_ids_distinct(listed: Seq<ScheduleView>, esc: Seq<EscalationScheduleView>)
    requires
        ids_distinct(listed),
    ensures
        ids_distinct(merge_escalations(listed, esc)),
    decreases esc.len(),
{
    if esc.len() > 0 {
        let next = if lists_schedule(listed, esc[0].schedule_id) {
            listed
        } else {
            listed.push(escalation_entry(esc[0]))
        };
        if !lists_schedule(listed, esc[0].schedule_id) {
            assert forall|i: int, j: int| 0 <= i < j < next.len() implies #[trigger] next[i].id != #[trigger] next[j].id by {
                if j == listed.len() {
                    assert(listed[i].id != esc[0].schedule_id);
                } else {
                    assert(listed[i].id != listed[j].id);
                }
            }
        }
        law_merge_ids_distinct(next, esc.drop_first());
    }
}

fn clone_schedule(s: &Schedule) -> (r: Schedule)
    ensures
        r@ == s@,
{
    Schedule {
        id: s.id.clone(),
        name: s.name.clone(),
        description: clone_opt_string(&s.description),
        team_id: clone_opt_string(&s.team_id),
    }
}

fn has_schedule(v: &Vec<Schedule>, id: &str) -> (r: bool)
    ensures
        r == lists_schedule(schedule_list_view(v@), id@),
{
    let n = v.len();
    for i in 0..n
        invariant
            n == v@.len(),
            forall|k: int| 0 <= k < i ==> v@[k].id@ != id@,
    {
        if str_eq(v[i].id.as_str(), id) {
            assert(schedule_list_view(v@)[i as int].id == id@);
            return true;
        }
    }
    false
}

/// Adds the profile's configured escalation schedules to the listed ones:
/// each escalation schedule whose id is not listed yet is appended, named
/// `<name> (escalation)`.
pub fn merge_escalation_schedules(listed: Vec<Schedule>, escalation_schedules: Option<Vec<EscalationSchedule>>) -> (r: Vec<Schedule>)
    ensures
        schedule_list_view(r@) == match escalation_schedules {
            Some(e) => merge_escalations(schedule_list_view(listed@), schedules_view(e@)),
            None => schedule_list_view(listed@),
        },
{
    let mut all = listed;
    match escalation_schedules {
        None => all,
        Some(esc) => {
            let ghost target = merge_escalations(schedule_list_view(all@), schedules_view(esc@));
            let n = esc.len();
            let ghost ev = schedules_view(esc@);
            assert(ev.skip(0) =~= ev);
            for i in 0..n
                invariant
                    n == esc@.len(),
                    ev == schedules_view(esc@),
                    merge_escalations(schedule_list_view(all@), ev.skip(i as int)) == target,
            {
                let ghost before = schedule_list_view(all@);
                assert(ev.skip(i as int).drop_first() =~= ev.skip(i + 1));
                assert(ev.skip(i as int)[0] == esc@[i as int]@);
                if !has_schedule(&all, esc[i].schedule_id.as_str()) {
                    let mut name = esc[i].name.clone();
                    name.append(" (escalation)");
                    let s = Schedule {
                        id: esc[i].schedule_id.clone(),
                        name: name,
                        description: Some(String::from_str("Configured escalation schedule")),
                        team_id: None,
                    };
                    all.push(s);
                    assert(schedule_list_view(all@) =~= before.push(escalation_entry(esc@[i as int]@)));
                }
            }
            assert(ev.skip(n as int) =~= Seq::<EscalationScheduleView>::empty());
            all
        },
    }
}

/// The schedules that do not belong to the given team, in order.
pub open spec fn without_team(s: Seq<ScheduleView>, team_id: Seq<char>) -> Seq<ScheduleView>
    decreases s.len(),
{
    if s.len() == 0 {
        seq![]
    } else {
        let rest = without_team(s.drop_last(), team_id);
        if s.last().team_id == Some(team_id) {
            rest
        } else {
            rest.push(s.last())
        }
    }
}

/// Excluding a team leaves no schedule of that team, keeps every other
/// schedule in order, and drops nothing else.
pub proof fn law_exclude_team(s: Seq<ScheduleView>, team_id: Seq<char>)
    ensures
        forall|i: int| 0 <= i < without_team(s, team_id).len() ==> #[trigger] without_team(s, team_id)[i].team_id != Some(team_id),
        without_team(s, team_id).len() <= s.len(),
        (forall|i: int| 0 <= i < s.len() ==> #[trigger] s[i].team_id != Some(team_id)) ==> without_team(s, team_id) == s,
    decreases s.len(),
{
    if s.len() > 0 {
        law_exclude_team(s.drop_last(), team_id);
        if forall|i: int| 0 <= i < s.len() ==> #[trigger] s[i].team_id != Some(team_id) {
            assert forall|i: int| 0 <= i < s.drop_last().len() implies #[trigger] s.drop_last()[i].team_id != Some(team_id) by {
                assert(s.drop_last()[i] == s[i]);
            }
            assert(s.drop_last().push(s.last()) =~= s);
        }
    }
}

/// The listed schedules but those of one team.
pub fn exclude_team(schedules: Vec<Schedule>, team_id: &str) -> (r: Vec<Schedule>)
    ensures
        schedule_list_view(r@) == without_team(schedule_list_view(schedules@), team_id@),
{
    let ghost sv = schedule_list_view(schedules@);
    let mut out: Vec<Schedule> = Vec::new();
    let n = schedules.len();
    for i in 0..n
        invariant
            n == schedules@.len(),
            sv == schedule_list_view(schedules@),
            schedule_list_view(out@) == without_team(sv.take(i as int), team_id@),
    {
        let ghost before = schedule_list_view(out@);
        assert(sv.take(i + 1).drop_last() =~= sv.take(i as int));
        assert(sv.take(i + 1).last() == sv[i as int]);
        let keep = match &schedules[i].team_id {
            Some(t) => !str_eq(t.as_str(), team_id),
            None => true,
        };
        if keep {
            out.push(clone_schedule(&schedules[i]));
            assert(schedule_list_view(out@) =~= before.push(sv[i as int]));
        }
    }
    assert(sv.take(n as int) =~= sv);
    out
}

/// The first schedule whose id or name is `key`, if any.
pub open spec fn find_schedule(all: Seq<ScheduleView>, key: Seq<char>) -> Option<ScheduleView>
    decreases all.len(),
{
    if all.len() == 0 {
        None
    } else if all[0].id == key || all[0].name == key {
        Some(all[0])
    } else {
        find_schedule(all.drop_first(), key)
    }
}

/// For each requested key in order, the first schedule with that id or name;
/// keys that match nothing are skipped.
pub open spec fn select_spec(all: Seq<ScheduleView>, keys: Seq<Seq<char>>) -> Seq<ScheduleView>
    decreases keys.len(),
{
    if keys.len() == 0 {
        seq![]
    } else {
        let rest = select_spec(all, keys.drop_last());
        match find_schedule(all, keys.last()) {
            Some(s) => rest.push(s),
            None => rest,
        }
    }
}

fn find_schedule_exec(all: &Vec<Schedule>, key: &str) -> (r: Option<Schedule>)
    ensures
        match r {
            Some(s) => find_schedule(schedule_list_view(all@), key@) == Some(s@),
            None => find_schedule(schedule_list_view(all@), key@) is None,
        },
{
    let ghost av = schedule_list_view(all@);
    let n = all.len();
    assert(av.skip(0) =~= av);
    for i in 0..n
        invariant
            n == all@.len(),
            av == schedule_list_view(all@),
            find_schedule(av.skip(i as int), key@) == find_schedule(av, key@),
    {
        assert(av.skip(i as int)[0] == all@[i as int]@);
        assert(av.skip(i as int).drop_first() =~= av.skip(i + 1));
        if str_eq(all[i].id.as_str(), key) || str_eq(all[i].name.as_str(), key) {
            return Some(clone_schedule(&all[i]));
        }
    }
    assert(av.skip(n as int) =~= Seq::<ScheduleView>::empty());
    None
}

/// The schedules named by id or name, in the order asked for.
pub fn select_schedules(all: &Vec<Schedule>, keys: &Vec<String>) -> (r: Vec<Schedule>)
    ensures
        schedule_list_view(r@) == select_spec(schedule_list_view(all@), crate::text::strings_view(keys@)),
{
    let ghost kv = crate::text::strings_view(keys@);
    let mut out: Vec<Schedule> = Vec::new();
    let n = keys.len();
    for i in 0..n
        invariant
            n == keys@.len(),
            kv == crate::text::strings_view(keys@),
            schedule_list_view(out@) == select_spec(schedule_list_view(all@), kv.take(i as int)),
    {
        let ghost before = schedule_list_view(out@);
        assert(kv.take(i + 1).drop_last() =~= kv.take(i as int));
        assert(kv.take(i + 1).last() == keys@[i as int]@);
        match find_schedule_exec(all, keys[i].as_str()) {
            Some(s) => {
                out.push(s);
                assert(schedule_list_view(out@) =~= before.push(s@));
            },
            None => {},
        }
    }
    assert(kv.take(n as int) =~= kv);
    out
}

/// Whether a user id is a Jira account id (these hold a `:`).
pub fn is_account_id(user_id: &str) -> (r: bool)
    ensures
        r == contains(user_id@, ":"@),
{
    str_contains(user_id, ":")
}

/// Fetches a user: a Jira account id (one with a `:`) from the Jira REST API,
/// any other id from JSM Ops (where `cloud_id` is used).
pub fn get_user(client: &Client, cloud_id: &str, user_id: &str) -> (r: HttpRequest)
    ensures
        contains(user_id@, ":"@) ==> r@ == client.request_spec("GET"@, "/rest/api/3/user?accountId="@ + user_id@, None, None),
        !contains(user_id@, ":"@) ==> r@ == client.request_spec(
            "GET"@,
            client.jsm_path(cloud_id@, "/users/"@ + user_id@),
            Some(seq![("identifierType"@, "id"@)]),
            None,
        ),
{
    if is_account_id(user_id) {
        let mut p = String::from_str("/rest/api/3/user?accountId=");
        p.append(user_id);
        client.request("GET", p.as_str(), None, None)
    } else {
        let mut p = String::from_str("/users/");
        p.append(user_id);
        let q = [("identifierType", "id")];
        let qs: &[(&str, &str)] = &q;
        assert(query_view(Some(qs))->0 =~= seq![("identifierType"@, "id"@)]);
        client.request_jsm(cloud_id, "GET", p.as_str(), Some(qs), None)
    }
}

} // verus!
