use ip_whitelist::addr::{contains_addr, resolve_address, ClientAddr};
use ip_whitelist::handler::{
    check_shared, check_shared_now, handle, handle_allowed, handle_authorize, handle_authorize_now,
    route, Reply, Route,
};
use ip_whitelist::headers::{filter_headers, is_forwarded_header, names_match, HeaderPair};
use ip_whitelist::settings::{Settings, SettingsError};
use ip_whitelist::shared::SharedWhitelist;
use ip_whitelist::time::{expiry, Timestamp};
use ip_whitelist::whitelist::{IpWhitelist, Lookup, NotAuthorized};

fn at(day: i64, hour: u32, minute: u32) -> Timestamp {
    Timestamp { day, second: hour * 3600 + minute * 60, nano: 0 }
}

fn header(name: &str, value: &str) -> HeaderPair {
    HeaderPair { name: name.to_string(), value: value.to_string() }
}

fn pairs(hs: &[HeaderPair]) -> Vec<(String, String)> {
    hs.iter().map(|h| (h.name.clone(), h.value.clone())).collect()
}

fn settings(headers: &[&str], allow: Vec<ClientAddr>, days: u32) -> Settings {
    Settings::new(
        "127.0.0.1:8080".to_string(),
        1,
        headers.iter().map(|s| s.to_string()).collect(),
        allow,
        days,
        3,
        0,
        3600,
    )
    .unwrap()
}

const A: ClientAddr = ClientAddr::V4(0x0a00_0001);
const B: ClientAddr = ClientAddr::V6(1);

#[test]
fn expiry_before_cutoff_lands_advance_days_out() {
    assert_eq!(expiry(at(1000, 2, 0), 2, 3, 0), at(1002, 3, 0));
}

#[test]
fn expiry_after_cutoff_adds_one_more_day() {
    assert_eq!(expiry(at(1000, 4, 0), 2, 3, 0), at(1003, 3, 0));
}

#[test]
fn expiry_exactly_at_cutoff_adds_no_day() {
    assert_eq!(expiry(at(1000, 3, 0), 2, 3, 0), at(1002, 3, 0));
    assert_eq!(expiry(at(1000, 3, 0), 0, 3, 0), at(1000, 3, 0));
}

#[test]
fn expiry_a_nanosecond_past_cutoff_adds_one_day() {
    let t = Timestamp { day: 1000, second: 3 * 3600, nano: 1 };
    assert_eq!(expiry(t, 2, 3, 0), at(1002 + 1, 3, 0));
}

#[test]
fn expiry_with_minutes_and_no_advance() {
    assert_eq!(expiry(at(500, 23, 59), 0, 23, 30), at(501, 23, 30));
    assert_eq!(expiry(at(500, 0, 0), 0, 0, 0), at(500, 0, 0));
    assert_eq!(expiry(at(-3, 12, 0), 7, 6, 45), at(5, 6, 45));
}

#[test]
fn check_right_after_authorize_returns_the_headers() {
    let mut w = IpWhitelist::build(0, 3, 1);
    let hs = vec![header("Remote-User", "bob"), header("Remote-Groups", "admins")];
    w.allow_at(&A, &hs, at(10, 12, 0));
    let got = w.is_allowed_at(&A, at(10, 12, 0)).unwrap();
    assert_eq!(pairs(&got), pairs(&hs));
    assert_eq!(w.get_ip(&A).unwrap().valid_until, at(12, 3, 0));
}

#[test]
fn check_of_unknown_address_fails() {
    let mut w = IpWhitelist::build(0, 3, 1);
    assert_eq!(w.is_allowed_at(&B, at(10, 0, 0)).err(), Some(NotAuthorized));
    assert!(matches!(w.lookup_at(&B, at(10, 0, 0)), Lookup::Absent));
}

#[test]
fn expired_entry_fails_and_is_removed() {
    let mut w = IpWhitelist::build(0, 3, 0);
    w.allow_at(&A, &vec![header("Remote-User", "bob")], at(10, 1, 0));
    assert!(matches!(w.lookup_at(&A, at(10, 3, 0)), Lookup::Expired));
    assert!(w.get_ip(&A).is_some());
    assert_eq!(w.is_allowed_at(&A, at(10, 3, 0)).err(), Some(NotAuthorized));
    assert!(w.get_ip(&A).is_none());
    w.prune_at(at(10, 4, 0));
    assert!(w.get_ip(&A).is_none());
}

#[test]
fn prune_removes_expired_and_keeps_future_entries() {
    let mut w = IpWhitelist::build(0, 3, 0);
    w.allow_at(&A, &vec![header("Remote-User", "a")], at(10, 1, 0));
    w.allow_at(&B, &vec![header("Remote-User", "b")], at(10, 5, 0));
    w.prune_at(at(10, 4, 0));
    assert!(w.get_ip(&A).is_none());
    let kept = w.get_ip(&B).unwrap();
    assert_eq!(kept.valid_until, at(11, 3, 0));
    assert_eq!(pairs(&kept.headers), vec![("Remote-User".to_string(), "b".to_string())]);
    w.prune_at(at(10, 4, 0));
    assert!(w.get_ip(&B).is_some());
}

#[test]
fn prune_on_an_empty_cache_is_a_no_op() {
    let mut w = IpWhitelist::build(0, 3, 0);
    w.prune_at(at(10, 4, 0));
    assert!(w.get_ip(&A).is_none());
}

#[test]
fn repeated_authorize_keeps_one_entry_with_same_expiry() {
    let mut w = IpWhitelist::build(0, 3, 2);
    let hs = vec![header("Remote-User", "bob")];
    w.allow_at(&A, &hs, at(10, 4, 0));
    let first = w.get_ip(&A).unwrap().valid_until;
    w.allow_at(&A, &hs, at(10, 4, 0));
    let second = w.get_ip(&A).unwrap();
    assert_eq!(first, second.valid_until);
    assert_eq!(pairs(&second.headers), pairs(&hs));
    w.delete_ip(&A);
    assert!(w.get_ip(&A).is_none());
}

#[test]
fn later_authorize_replaces_whole_entry() {
    let mut w = IpWhitelist::build(0, 3, 1);
    w.allow_at(&A, &vec![header("Remote-User", "bob"), header("Remote-Name", "Bob")], at(10, 1, 0));
    w.allow_at(&A, &vec![header("Remote-User", "eve")], at(10, 5, 0));
    let got = w.is_allowed_at(&A, at(10, 6, 0)).unwrap();
    assert_eq!(pairs(&got), vec![("Remote-User".to_string(), "eve".to_string())]);
    assert_eq!(w.get_ip(&A).unwrap().valid_until, at(12, 3, 0));
}

#[test]
fn remove_expired_keeps_a_fresh_entry() {
    let mut w = IpWhitelist::build(0, 3, 1);
    w.allow_at(&A, &vec![], at(10, 1, 0));
    assert!(!w.remove_expired_at(&A, at(10, 2, 0)));
    assert!(w.get_ip(&A).is_some());
    assert!(w.remove_expired_at(&A, at(11, 3, 0)));
    assert!(w.get_ip(&A).is_none());
}

#[test]
fn allow_listed_address_is_approved_whatever_the_cache() {
    let s = settings(&["Remote-User"], vec![A], 0);
    let mut w = IpWhitelist::build(0, 3, 0);
    let r = handle_allowed(&s, &mut w, A, at(10, 0, 0));
    assert_eq!(r.status(), 200);
    assert_eq!(r.body(), "Ok");
    w.allow_at(&A, &vec![header("Remote-User", "bob")], at(10, 1, 0));
    let r = handle(&s, &mut w, "/allowed", A, &vec![], at(20, 0, 0));
    assert_eq!(r.status(), 200);
    assert!(matches!(r, Reply::Approved(ref h) if h.is_empty()));
}

#[test]
fn unauthorized_check_is_forbidden() {
    let s = settings(&["Remote-User"], vec![], 0);
    let mut w = IpWhitelist::build(0, 3, 0);
    let r = handle(&s, &mut w, "/allowed", B, &vec![], at(10, 0, 0));
    assert_eq!(r.status(), 403);
    assert_eq!(r.body(), "Please (re)authenticate yourself");
}

#[test]
fn authorize_then_check_replays_filtered_headers() {
    let s = settings(&["Remote-User"], vec![], 1);
    let mut w = IpWhitelist::build(0, 3, 1);
    let request = vec![header("Remote-User", "bob"), header("X-Other", "x")];
    let r = handle_authorize(&s, &mut w, A, &request, at(10, 9, 0));
    assert_eq!(r.status(), 200);
    let r = handle(&s, &mut w, "/allowed", A, &vec![], at(10, 9, 30));
    assert_eq!(r.status(), 200);
    match r {
        Reply::Approved(h) => {
            assert_eq!(pairs(&h), vec![("Remote-User".to_string(), "bob".to_string())])
        }
        _ => panic!("expected approval"),
    }
}

#[test]
fn header_filter_keeps_only_listed_names() {
    let allowed = vec!["Remote-User".to_string()];
    let request = vec![header("Remote-User", "bob"), header("X-Other", "x")];
    let got = filter_headers(&allowed, &request);
    assert_eq!(pairs(&got), vec![("Remote-User".to_string(), "bob".to_string())]);
}

#[test]
fn header_filter_ignores_name_case_and_keeps_order() {
    let allowed = vec!["remote-user".to_string(), "Remote-Groups".to_string()];
    let request = vec![
        header("REMOTE-GROUPS", "g"),
        header("X-Other", "x"),
        header("Remote-User", "bob"),
    ];
    let got = filter_headers(&allowed, &request);
    assert_eq!(
        pairs(&got),
        vec![
            ("REMOTE-GROUPS".to_string(), "g".to_string()),
            ("Remote-User".to_string(), "bob".to_string())
        ]
    );
    assert!(filter_headers(&vec![], &request).is_empty());
}

#[test]
fn unknown_path_is_not_found() {
    let s = settings(&["Remote-User"], vec![A], 0);
    let mut w = IpWhitelist::build(0, 3, 0);
    w.allow_at(&A, &vec![header("Remote-User", "bob")], at(10, 1, 0));
    let r = handle(&s, &mut w, "/foo", A, &vec![], at(10, 2, 0));
    assert_eq!(r.status(), 404);
    assert_eq!(r.body(), "not found");
    assert!(w.get_ip(&A).is_some());
}

#[test]
fn routes_by_exact_path() {
    assert_eq!(route("/allowed"), Route::Allowed);
    assert_eq!(route("/authorize"), Route::Authorize);
    assert_eq!(route("/Allowed"), Route::NotFound);
    assert_eq!(route("/allowed/"), Route::NotFound);
    assert_eq!(route(""), Route::NotFound);
}

#[test]
fn forwarded_address_wins_when_it_parses() {
    let peer = Some(ClientAddr::V4(0x7f00_0001));
    assert_eq!(resolve_address(&vec![None, Some(B), Some(A)], peer), Some(B));
    assert_eq!(resolve_address(&vec![None], peer), peer);
    assert_eq!(resolve_address(&vec![], peer), peer);
    assert_eq!(resolve_address(&vec![Some(A)], None), Some(A));
    assert_eq!(resolve_address(&vec![None], None), None);
}

#[test]
fn forwarded_header_name_matches_any_case() {
    assert!(is_forwarded_header("X-Forwarded-For"));
    assert!(is_forwarded_header("x-forwarded-for"));
    assert!(!is_forwarded_header("X-Forwarded-Host"));
    assert!(names_match("Remote-User", "REMOTE-user"));
    assert!(!names_match("Remote-User", "Remote-Use"));
    assert!(!names_match("a[", "A{"));
}

#[test]
fn allow_list_membership() {
    assert!(contains_addr(&vec![B, A], A));
    assert!(!contains_addr(&vec![B], A));
    assert!(!contains_addr(&vec![ClientAddr::V6(0x0a00_0001)], A));
}

#[test]
fn settings_refuse_out_of_range_cutoff() {
    let make = |hour, minute| {
        Settings::new(String::new(), 1, vec![], vec![], 0, hour, minute, 3600).err()
    };
    assert_eq!(make(24, 0), Some(SettingsError::HourOutOfRange));
    assert_eq!(make(24, 60), Some(SettingsError::HourOutOfRange));
    assert_eq!(make(23, 60), Some(SettingsError::MinuteOutOfRange));
    assert_eq!(make(23, 59), None);
}

#[test]
fn entries_from_long_ago_are_expired_at_the_current_time() {
    // Day 737425 is 2020-01-01, counted from the first day of the common era.
    let mut w = IpWhitelist::build(0, 3, 0);
    w.allow_at(&A, &vec![header("Remote-User", "bob")], at(737_425, 1, 0));
    assert!(w.get_ip(&A).is_some());
    assert!(w.remove_expired(&A));
    assert!(w.get_ip(&A).is_none());
    w.allow_at(&B, &vec![], at(737_425, 1, 0));
    assert!(w.is_allowed(&B).is_err());
    assert!(w.get_ip(&B).is_none());
    w.allow_at(&A, &vec![], at(737_425, 1, 0));
    w.prune();
    assert!(w.get_ip(&A).is_none());
}

#[test]
fn shared_check_reports_expired_entries() {
    let s = settings(&["Remote-User"], vec![], 0);
    let mut w = IpWhitelist::build(0, 3, 0);
    w.allow_at(&A, &vec![header("Remote-User", "bob")], at(10, 1, 0));
    let (r, expired) = check_shared(&s, &w, A, at(10, 2, 0));
    assert_eq!(r.status(), 200);
    assert!(!expired);
    let (r, expired) = check_shared(&s, &w, A, at(10, 3, 0));
    assert_eq!(r.status(), 403);
    assert!(expired);
    let (r, expired) = check_shared(&s, &w, B, at(10, 3, 0));
    assert_eq!(r.status(), 403);
    assert!(!expired);
}

#[test]
fn authorize_and_check_at_the_current_time() {
    let s = settings(&["Remote-User"], vec![], 1);
    let mut w = IpWhitelist::build(0, 3, 1);
    let request = vec![header("Remote-User", "bob"), header("X-Other", "x")];
    assert_eq!(handle_authorize_now(&s, &mut w, A, &request).status(), 200);
    let (r, expired) = check_shared_now(&s, &w, A);
    assert!(!expired);
    match r {
        Reply::Approved(h) => {
            assert_eq!(pairs(&h), vec![("Remote-User".to_string(), "bob".to_string())])
        }
        _ => panic!("expected approval"),
    }
    assert!(!w.remove_expired(&A));
}

#[test]
fn clock_driven_operations_agree_with_fresh_entries() {
    let mut w = IpWhitelist::build(0, 3, 1);
    let hs = vec![header("Remote-User", "bob")];
    assert!(w.allow(&A, &hs));
    assert_eq!(pairs(&w.is_allowed(&A).unwrap()), pairs(&hs));
    w.prune();
    assert!(w.get_ip(&A).is_some());
    assert!(w.is_allowed(&B).is_err());
}

#[test]
fn shared_cache_authorize_then_check() {
    let s = settings(&["Remote-User"], vec![B], 1);
    let w = SharedWhitelist::build(0, 3, 1);
    let request = vec![header("Remote-User", "bob"), header("X-Other", "x")];
    assert_eq!(w.check(&s, A).status(), 403);
    assert_eq!(w.authorize(&s, A, &request).status(), 200);
    match w.check(&s, A) {
        Reply::Approved(h) => {
            assert_eq!(pairs(&h), vec![("Remote-User".to_string(), "bob".to_string())])
        }
        _ => panic!("expected approval"),
    }
    w.prune();
    assert_eq!(w.check(&s, A).status(), 200);
    let r = w.check(&s, B);
    assert_eq!(r.status(), 200);
    assert!(matches!(r, Reply::Approved(ref h) if h.is_empty()));
}

#[test]
fn shared_cache_reauthorize_replaces_headers() {
    let s = settings(&["Remote-User", "Remote-Name"], vec![], 1);
    let w = SharedWhitelist::build(0, 3, 1);
    w.authorize(&s, A, &vec![header("Remote-User", "bob"), header("Remote-Name", "Bob")]);
    w.authorize(&s, A, &vec![header("Remote-User", "eve")]);
    match w.check(&s, A) {
        Reply::Approved(h) => {
            assert_eq!(pairs(&h), vec![("Remote-User".to_string(), "eve".to_string())])
        }
        _ => panic!("expected approval"),
    }
}

#[test]
fn shared_cache_routes_requests() {
    let s = settings(&["Remote-User"], vec![], 1);
    let w = SharedWhitelist::build(0, 3, 1);
    let request = vec![header("Remote-User", "bob")];
    assert_eq!(w.handle(&s, "/foo", A, &request).status(), 404);
    assert_eq!(w.handle(&s, "/allowed", A, &request).status(), 403);
    assert_eq!(w.handle(&s, "/authorize", A, &request).status(), 200);
    match w.handle(&s, "/allowed", A, &vec![]) {
        Reply::Approved(h) => {
            assert_eq!(pairs(&h), vec![("Remote-User".to_string(), "bob".to_string())])
        }
        _ => panic!("expected approval"),
    }
    assert_eq!(w.handle(&s, "/foo", A, &vec![]).status(), 404);
}

#[test]
fn unavailable_reply_reads_as_service_unavailable() {
    assert_eq!(Reply::Unavailable.status(), 503);
    assert_eq!(Reply::Unavailable.body(), "clock unavailable");
}
