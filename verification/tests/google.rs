use std::sync::Arc;
use caltui::dates::Date;
use caltui::google::{events_query, pick_items, query_between};
use chrono::TimeZone;
use caltui::calendar::{CalendarSource, Moment, ResponseStatus};
use caltui::config::Config;
use caltui::google::{
    events_from_response, exchange_form, parse_attendees, parse_times, refresh_token_from_response,
    rsvp_from_str, self_rsvp, CachedToken, EventsResponse, GoogleAttendee, GoogleClient, GoogleItem,
    GoogleTime, TokenResponse,
};

fn config() -> Config {
    let mut c = Config::default();
    c.google.client_id = "cid".to_string();
    c.google.client_secret = "secret".to_string();
    c.google.refresh_token = "rtok".to_string();
    c
}

fn reply() -> TokenResponse {
    TokenResponse { error: None, error_description: None, access_token: None, refresh_token: None, expires_in: None }
}

fn att(email: &str, status: Option<&str>, me: Option<bool>) -> GoogleAttendee {
    GoogleAttendee {
        email: Some(email.to_string()),
        display_name: None,
        response_status: status.map(|s| s.to_string()),
        is_self: me,
    }
}

fn timed(s: &str, e: &str) -> (GoogleTime, GoogleTime) {
    (
        GoogleTime { date_time: Some(s.to_string()), date: None },
        GoogleTime { date_time: Some(e.to_string()), date: None },
    )
}

fn item(id: &str, start: &str, end: &str) -> GoogleItem {
    let (s, e) = timed(start, end);
    GoogleItem {
        id: Some(id.to_string()),
        summary: None,
        description: Some("call https://zoom.us/j/42".to_string()),
        location: None,
        html_link: Some(format!("https://calendar.google.com/{id}")),
        hangout_link: None,
        status: Some("cancelled".to_string()),
        organizer_display_name: None,
        organizer_email: Some("org@example.com".to_string()),
        start: s,
        end: e,
        attendees: None,
    }
}

#[test]
fn api_answers() {
    assert_eq!(rsvp_from_str("accepted"), ResponseStatus::Accepted);
    assert_eq!(rsvp_from_str("declined"), ResponseStatus::Declined);
    assert_eq!(rsvp_from_str("tentative"), ResponseStatus::Tentative);
    assert_eq!(rsvp_from_str("needsAction"), ResponseStatus::NeedsAction);
    assert_eq!(rsvp_from_str("Accepted"), ResponseStatus::NeedsAction);
}

#[test]
fn own_answer_from_the_attendee_list() {
    assert_eq!(self_rsvp(&None), ResponseStatus::Accepted);
    assert_eq!(self_rsvp(&Some(vec![])), ResponseStatus::Accepted);
    let list = vec![att("a@x", Some("declined"), None), att("me@x", Some("tentative"), Some(true))];
    assert_eq!(self_rsvp(&Some(list)), ResponseStatus::Tentative);
    let list = vec![att("a@x", Some("declined"), Some(false))];
    assert_eq!(self_rsvp(&Some(list)), ResponseStatus::Accepted);
    let list = vec![att("me@x", None, Some(true))];
    assert_eq!(self_rsvp(&Some(list)), ResponseStatus::NeedsAction);
}

#[test]
fn attendees_are_copied() {
    let list = vec![att("a@x", Some("accepted"), None), att("me@x", None, Some(true))];
    let atts = parse_attendees(&Some(list));
    assert_eq!(atts.len(), 2);
    assert_eq!(atts[0].email, "a@x");
    assert_eq!(atts[0].response, ResponseStatus::Accepted);
    assert!(!atts[0].is_self);
    assert_eq!(atts[1].response, ResponseStatus::NeedsAction);
    assert!(atts[1].is_self);
    assert!(parse_attendees(&None).is_empty());
}

#[test]
fn times_of_timed_and_whole_day_events() {
    let (s, e) = timed("2024-05-17T10:00:00+02:00", "2024-05-17T11:00:00+02:00");
    let (a, b, all_day) = parse_times(&s, &e).unwrap();
    assert_eq!((a.secs, b.secs, all_day), (1715932800, 1715936400, false));
    let (s, e) = timed("garbage", "2024-05-17T11:00:00Z");
    assert!(parse_times(&s, &e).is_none());
    let s = GoogleTime { date_time: None, date: Some("2024-05-17".to_string()) };
    let e = GoogleTime { date_time: None, date: Some("2024-05-18".to_string()) };
    let (a, b, all_day) = parse_times(&s, &e).unwrap();
    assert!(all_day);
    assert_eq!(a.secs + a.offset as i64, 1715904000);
    assert_eq!(b.secs + b.offset as i64, 1715904000 + 86400);
    let none = GoogleTime { date_time: None, date: None };
    assert!(parse_times(&none, &none).is_none());
}

#[test]
fn listing_becomes_sorted_events() {
    let resp = EventsResponse {
        error: None,
        items: Some(vec![
            item("late", "2024-05-17T15:00:00Z", "2024-05-17T16:00:00Z"),
            item("bad", "not a time", "2024-05-17T16:00:00Z"),
            item("early", "2024-05-17T09:00:00Z", "2024-05-17T09:30:00Z"),
        ]),
    };
    let evs = events_from_response(&resp).unwrap();
    assert_eq!(evs.len(), 2);
    assert_eq!(evs[0].id, "early");
    assert_eq!(evs[1].id, "late");
    assert_eq!(evs[0].title, "(no title)");
    assert_eq!(evs[0].meeting_url, Some("https://zoom.us/j/42".to_string()));
    assert_eq!(evs[0].organizer, Some("org@example.com".to_string()));
    assert_eq!(evs[0].event_url, Some("https://calendar.google.com/early".to_string()));
    assert!(evs[0].cancelled);
    assert_eq!(evs[0].source, CalendarSource::Google);
    assert_eq!(evs[0].response_status, ResponseStatus::Accepted);
}

#[test]
fn listing_errors() {
    let resp = EventsResponse { error: Some(Some("Invalid Credentials".to_string())), items: None };
    assert_eq!(events_from_response(&resp).unwrap_err(), "Calendar API error: Invalid Credentials");
    let resp = EventsResponse { error: Some(None), items: None };
    assert_eq!(events_from_response(&resp).unwrap_err(), "Calendar API error: unknown");
    let resp = EventsResponse { error: None, items: None };
    assert!(events_from_response(&resp).unwrap().is_empty());
}

#[test]
fn token_cache_is_used_while_fresh() {
    let mut client = GoogleClient::new(Arc::new(config()));
    let now = Moment { secs: 1000, offset: 0 };
    assert_eq!(client.usable_token(now), None);
    client.cached_token = Some(CachedToken { access_token: "tok".to_string(), expires_at: 1061 });
    assert_eq!(client.usable_token(now), Some("tok".to_string()));
    client.cached_token = Some(CachedToken { access_token: "tok".to_string(), expires_at: 1060 });
    assert_eq!(client.usable_token(now), None);
}

#[test]
fn refresh_replies() {
    let mut client = GoogleClient::new(Arc::new(config()));
    let now = Moment { secs: 1000, offset: 0 };
    let mut r = reply();
    r.error = Some("invalid_grant".to_string());
    assert_eq!(client.accept_token_response(&r, now).unwrap_err(), "token refresh failed: invalid_grant");
    assert!(client.cached_token.is_none());
    assert_eq!(client.accept_token_response(&reply(), now).unwrap_err(), "no access_token in refresh response");
    let mut r = reply();
    r.access_token = Some("new".to_string());
    assert_eq!(client.accept_token_response(&r, now).unwrap(), "new");
    assert_eq!(client.cached_token.as_ref().unwrap().expires_at, 4600);
    r.expires_in = Some(120);
    client.accept_token_response(&r, now).unwrap();
    assert_eq!(client.cached_token.as_ref().unwrap().expires_at, 1120);
}

#[test]
fn forms_posted_to_the_token_endpoint() {
    let client = GoogleClient::new(Arc::new(config()));
    let form = client.refresh_form();
    let pairs: Vec<(&str, &str)> = form.iter().map(|(k, v)| (k.as_str(), v.as_str())).collect();
    assert_eq!(pairs, vec![("client_id", "cid"), ("client_secret", "secret"), ("refresh_token", "rtok"), ("grant_type", "refresh_token")]);
    let form = exchange_form(&config(), "the-code", "http://localhost:9", "the-verifier");
    let pairs: Vec<(&str, &str)> = form.iter().map(|(k, v)| (k.as_str(), v.as_str())).collect();
    assert_eq!(
        pairs,
        vec![("client_id", "cid"), ("client_secret", "secret"), ("code", "the-code"), ("redirect_uri", "http://localhost:9"), ("grant_type", "authorization_code"), ("code_verifier", "the-verifier")]
    );
}

#[test]
fn exchange_replies() {
    let mut r = reply();
    r.refresh_token = Some("r1".to_string());
    assert_eq!(refresh_token_from_response(&r).unwrap(), "r1");
    assert_eq!(
        refresh_token_from_response(&reply()).unwrap_err(),
        "no refresh_token in response \u{2014} did you include access_type=offline?"
    );
    let mut r = reply();
    r.error = Some("invalid_client".to_string());
    r.error_description = Some("bad secret".to_string());
    assert_eq!(refresh_token_from_response(&r).unwrap_err(), "token exchange failed: invalid_client \u{2014} bad secret");
}

#[test]
fn the_events_query_spans_the_local_day() {
    let q = events_query(Date { year: 2024, month: 3, day: 15 }).unwrap();
    let start = chrono::Local
        .from_local_datetime(&chrono::NaiveDate::from_ymd_opt(2024, 3, 15).unwrap().and_hms_opt(0, 0, 0).unwrap())
        .earliest()
        .unwrap();
    let end = chrono::Local
        .from_local_datetime(&chrono::NaiveDate::from_ymd_opt(2024, 3, 15).unwrap().and_hms_opt(23, 59, 59).unwrap())
        .earliest()
        .unwrap();
    assert_eq!(q.len(), 4);
    assert_eq!(q[0], ("timeMin".to_string(), start.to_rfc3339()));
    assert_eq!(q[1], ("timeMax".to_string(), end.to_rfc3339()));
    assert_eq!(q[2], ("singleEvents".to_string(), "true".to_string()));
    assert_eq!(q[3], ("orderBy".to_string(), "startTime".to_string()));
}

#[test]
fn the_query_between_two_instants() {
    let q = query_between(Moment { secs: 0, offset: 3600 }, Moment { secs: 86399, offset: 3600 });
    assert_eq!(q[0], ("timeMin".to_string(), "1970-01-01T01:00:00+01:00".to_string()));
    assert_eq!(q[1], ("timeMax".to_string(), "1970-01-02T00:59:59+01:00".to_string()));
    assert_eq!(q.len(), 4);
}

#[test]
fn items_with_read_times_all_give_events() {
    let all_day = GoogleItem {
        start: GoogleTime { date_time: None, date: Some("2024-01-15".to_string()) },
        end: GoogleTime { date_time: None, date: Some("2024-01-16".to_string()) },
        ..item("d", "", "")
    };
    let items = vec![item("a", "2024-01-15T10:00:00Z", "2024-01-15T11:00:00Z"), all_day, item("x", "bad", "bad")];
    let m = |s: i64| Moment { secs: s, offset: 0 };
    let times = vec![Some((m(1705312800), m(1705316400), false)), Some((m(1705276800), m(1705363200), true)), None];
    let v = pick_items(&items, &times);
    let ids: Vec<&str> = v.iter().map(|e| e.id.as_str()).collect();
    assert_eq!(ids, vec!["d", "a"]);
    assert!(v[0].is_all_day);
}
