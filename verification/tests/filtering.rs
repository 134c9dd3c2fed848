use rnd_alerts::date::Date;
use rnd_alerts::filter::{
    filter_announcements, filter_announcements_on, is_not_expired, is_not_expired_on,
    match_keywords, parse_deadline,
};
use rnd_alerts::models::Announcement;
use rnd_alerts::seen::{filter_new, retain_unseen, SeenIds};

fn ann(id: &str, title: &str, deadline: Option<&str>) -> Announcement {
    let mut a = Announcement::new(
        id.to_string(),
        title.to_string(),
        format!("https://example.org/{}", id),
        "TEST".to_string(),
    );
    a.deadline = deadline.map(|d| d.to_string());
    a
}

fn day(year: i32, month: u32, day: u32) -> Date {
    Date { year, month, day }
}

fn kw(list: &[&str]) -> Vec<String> {
    list.iter().map(|s| s.to_string()).collect()
}

#[test]
fn deadline_full_date() {
    assert_eq!(parse_deadline("2025-03-15"), Some(day(2025, 3, 15)));
    assert_eq!(parse_deadline("마감: 2025.12.01 18:00"), Some(day(2025, 12, 1)));
}

#[test]
fn deadline_short_date() {
    assert_eq!(parse_deadline("25.03.15"), Some(day(2025, 3, 15)));
}

#[test]
fn deadline_open_ended_or_empty() {
    assert_eq!(parse_deadline(""), None);
    assert_eq!(parse_deadline("상시 접수"), None);
    assert_eq!(parse_deadline("별도 공지"), None);
    assert_eq!(parse_deadline("미정"), None);
    assert_eq!(parse_deadline("추후 안내 2025-01-01"), None);
}

#[test]
fn deadline_too_few_digits_or_invalid() {
    assert_eq!(parse_deadline("12345"), None);
    assert_eq!(parse_deadline("2025-13-40"), None);
    assert_eq!(parse_deadline("no digits"), None);
}

#[test]
fn deadline_cut_inside_character_gives_none() {
    // Full-width digits take three bytes each: the first eight bytes end inside one.
    assert_eq!(parse_deadline("２０２５-０３-１５"), None);
}

#[test]
fn open_without_deadline_on_any_day() {
    let a = ann("a", "x", None);
    assert!(is_not_expired_on(&a, day(2100, 1, 1)));
    assert!(is_not_expired(&a));
    let e = ann("b", "x", Some(""));
    assert!(is_not_expired_on(&e, day(2100, 1, 1)));
}

#[test]
fn open_until_the_deadline_day() {
    let a = ann("a", "x", Some("2025-03-15"));
    assert!(is_not_expired_on(&a, day(2025, 3, 14)));
    assert!(is_not_expired_on(&a, day(2025, 3, 15)));
    assert!(!is_not_expired_on(&a, day(2025, 3, 16)));
    assert!(!is_not_expired_on(&a, day(2026, 1, 1)));
}

#[test]
fn unparsable_deadline_stays_open() {
    let a = ann("a", "x", Some("별도 공지"));
    assert!(is_not_expired_on(&a, day(2100, 1, 1)));
}

#[test]
fn past_deadline_is_expired_today() {
    let a = ann("a", "x", Some("2000-01-01"));
    assert!(!is_not_expired(&a));
}

#[test]
fn keywords_match_case_insensitively_in_order() {
    let a = ann("a", "클라우드 기반 AI 보안 플랫폼", None);
    let m = match_keywords(&a, &kw(&["보안", "ai", "Cloud", "플랫폼", "데이터"]));
    assert_eq!(m, kw(&["보안", "ai", "플랫폼"]));
}

#[test]
fn no_keyword_matches() {
    let a = ann("a", "체육 행사 안내", None);
    assert!(match_keywords(&a, &kw(&["보안", "AI"])).is_empty());
}

#[test]
fn filter_keeps_open_matching_announcements() {
    let anns = vec![
        ann("a", "AI 보안 과제", Some("2025-03-15")),
        ann("b", "체육 행사", None),
        ann("c", "데이터 플랫폼", Some("2025-01-01")),
        ann("d", "보안 솔루션", None),
    ];
    let out = filter_announcements_on(anns, &kw(&["보안", "AI", "데이터"]), day(2025, 2, 1));
    let ids: Vec<&str> = out.iter().map(|a| a.id.as_str()).collect();
    assert_eq!(ids, vec!["a", "d"]);
    assert_eq!(out[0].matched_keywords, kw(&["보안", "AI"]));
    assert_eq!(out[1].matched_keywords, kw(&["보안"]));
}

#[test]
fn filtering_twice_changes_nothing() {
    let anns = vec![
        ann("a", "AI 보안 과제", Some("2025-03-15")),
        ann("b", "체육 행사", None),
        ann("d", "보안 솔루션", None),
    ];
    let keys = kw(&["보안", "AI"]);
    let once = filter_announcements_on(anns, &keys, day(2025, 2, 1));
    let first: Vec<(String, Vec<String>)> =
        once.iter().map(|a| (a.id.clone(), a.matched_keywords.clone())).collect();
    let twice = filter_announcements_on(once, &keys, day(2025, 2, 1));
    let second: Vec<(String, Vec<String>)> =
        twice.iter().map(|a| (a.id.clone(), a.matched_keywords.clone())).collect();
    assert_eq!(first, second);
}

#[test]
fn filter_by_today_drops_long_past_deadlines() {
    let anns = vec![ann("old", "보안", Some("2000-01-01")), ann("new", "보안", None)];
    let out = filter_announcements(anns, &kw(&["보안"]));
    assert_eq!(out.len(), 1);
    assert_eq!(out[0].id, "new");
}

#[test]
fn seen_ids_are_filtered_out() {
    let anns = vec![ann("a", "x", None), ann("b", "y", None), ann("c", "z", None)];
    let seen = SeenIds::from_ids(vec!["b".to_string()]);
    let fresh: Vec<&str> = filter_new(&anns, &seen).iter().map(|a| a.id.as_str()).collect();
    assert_eq!(fresh, vec!["a", "c"]);
    let kept: Vec<String> = retain_unseen(anns, &seen).into_iter().map(|a| a.id).collect();
    assert_eq!(kept, vec!["a".to_string(), "c".to_string()]);
}

#[test]
fn recorded_announcements_are_not_new() {
    let anns = vec![ann("a", "x", None), ann("b", "y", None)];
    let mut seen = SeenIds::new();
    assert_eq!(filter_new(&anns, &seen).len(), 2);
    seen.record(&anns);
    assert!(filter_new(&anns, &seen).is_empty());
    assert!(seen.contains(&"a".to_string()));
    assert!(!seen.contains(&"z".to_string()));
}

#[test]
fn seen_ids_survive_a_round_trip() {
    let mut seen = SeenIds::new();
    seen.insert("x".to_string());
    seen.insert("y".to_string());
    seen.insert("x".to_string());
    let mut saved = seen.to_vec();
    saved.sort();
    assert_eq!(saved, vec!["x".to_string(), "y".to_string()]);
    let loaded = SeenIds::from_ids(saved);
    assert!(loaded.contains(&"x".to_string()));
    assert!(loaded.contains(&"y".to_string()));
    assert_eq!(loaded.to_vec().len(), 2);
}


#[test]
fn seen_ids_from_saved_json() {
    let loaded = SeenIds::from_json("[\"ntis_1\", \"kisa_2\", \"ntis_1\"]");
    assert!(loaded.contains(&"ntis_1".to_string()));
    assert!(loaded.contains(&"kisa_2".to_string()));
    assert_eq!(loaded.to_vec().len(), 2);
    assert!(SeenIds::from_json("not json").to_vec().is_empty());
    assert!(SeenIds::from_json("{\"a\": 1}").to_vec().is_empty());
    assert!(SeenIds::from_json("[1, 2]").to_vec().is_empty());
}

#[test]
fn seen_ids_written_as_json() {
    let mut seen = SeenIds::new();
    seen.insert("x".to_string());
    assert_eq!(seen.to_json().as_deref(), Some("[\n  \"x\"\n]"));
    seen.insert("y\"q".to_string());
    let text = seen.to_json().unwrap();
    let back = SeenIds::from_json(&text);
    assert!(back.contains(&"x".to_string()));
    assert!(back.contains(&"y\"q".to_string()));
    assert_eq!(back.to_vec().len(), 2);
    assert_eq!(SeenIds::new().to_json().as_deref(), Some("[]"));
}
