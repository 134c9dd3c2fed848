use rnd_alerts::config::{parse_u64, parse_u64_or, split_list};
use rnd_alerts::extractor::detail_fields;
use rnd_alerts::job::body_for_summary;
use rnd_alerts::models::{Announcement, Extra};
use rnd_alerts::slack::{batch_text, batches, build_blocks, next_send, reply_ok, section, Block, SendAction};
use rnd_alerts::summarizer::summary_prompt;
use rnd_alerts::text::{decimal, hex, to_chars, trim};

fn s(v: &[char]) -> String {
    v.iter().collect()
}

#[test]
fn number_formats() {
    assert_eq!(s(&decimal(0)), "0");
    assert_eq!(s(&decimal(1234)), "1234");
    assert_eq!(s(&hex(255)), "ff");
    assert_eq!(s(&hex(0)), "0");
    assert_eq!(s(&hex(u64::MAX)), "ffffffffffffffff");
}

#[test]
fn trimming_unicode_spaces() {
    assert_eq!(s(&trim(&to_chars("\u{3000} 공고\t\n"))), "공고");
    assert_eq!(s(&trim(&to_chars("   "))), "");
}

#[test]
fn comma_lists() {
    assert_eq!(
        split_list(" 사이버, 보안 ,,AI , "),
        vec!["사이버".to_string(), "보안".to_string(), "AI".to_string()]
    );
    assert!(split_list("").is_empty());
    assert_eq!(split_list("09:00,14:00"), vec!["09:00".to_string(), "14:00".to_string()]);
}

#[test]
fn numbers_parse_like_from_str() {
    assert_eq!(parse_u64("15"), Some(15));
    assert_eq!(parse_u64("+7"), Some(7));
    assert_eq!(parse_u64(""), None);
    assert_eq!(parse_u64("+"), None);
    assert_eq!(parse_u64("-1"), None);
    assert_eq!(parse_u64(" 1"), None);
    assert_eq!(parse_u64("18446744073709551615"), Some(u64::MAX));
    assert_eq!(parse_u64("18446744073709551616"), None);
    assert_eq!(parse_u64_or("abc", 15), 15);
    for n in [0u64, 9, 10, 123456789, u64::MAX] {
        assert_eq!(parse_u64(&s(&decimal(n))), Some(n));
        assert_eq!(parse_u64(&n.to_string()), n.to_string().parse::<u64>().ok());
    }
}

fn sample() -> Announcement {
    let mut a = Announcement::new(
        "ntis_1".to_string(),
        "AI 보안 과제".to_string(),
        "https://example.org/1".to_string(),
        "NTIS".to_string(),
    );
    a.agency = Some("IITP".to_string());
    a.deadline = Some("2025-03-31".to_string());
    a.matched_keywords = vec!["AI".to_string(), "보안".to_string()];
    let mut extra = Extra::new();
    extra.insert("금액", "1억 원".to_string());
    extra.insert("AI요약", "- 예산: 1억".to_string());
    a.extra = extra;
    a
}

#[test]
fn section_text_layout() {
    assert_eq!(
        section(&sample()),
        "*<https://example.org/1|AI 보안 과제>*\n출처: NTIS | 기관: IITP | 마감: 2025-03-31\n키워드: AI / 보안\n금액: 1억 원\n📋 - 예산: 1억"
    );
    let bare = Announcement::new("x".to_string(), "T".to_string(), "U".to_string(), "S".to_string());
    assert_eq!(section(&bare), "*<U|T>*\n출처: S\n키워드: ");
}

#[test]
fn message_blocks_layout() {
    let a = sample();
    let b = sample();
    let blocks = build_blocks(&[&a, &b]);
    assert_eq!(blocks.len(), 6);
    match &blocks[0] {
        Block::Header(t) => assert_eq!(t, "R&D 공고 알림 - 2건"),
        _ => panic!("header expected"),
    }
    assert!(matches!(blocks[1], Block::Divider));
    assert!(matches!(blocks[2], Block::Section(_)));
    assert!(matches!(blocks[5], Block::Divider));
    assert_eq!(build_blocks(&[]).len(), 2);
    assert_eq!(batch_text(3), "R&D 공고 3건");
}

#[test]
fn batches_of_fifteen() {
    assert_eq!(batches(0), vec![]);
    assert_eq!(batches(15), vec![(0, 15)]);
    assert_eq!(batches(31), vec![(0, 15), (15, 30), (30, 31)]);
}

#[test]
fn prompt_truncates_to_a_thousand_chars() {
    let long: String = std::iter::repeat('Z').take(1500).collect();
    let p = summary_prompt(&long);
    assert!(p.starts_with("다음 R&D 공고 본문을 간결하게 요약해줘."));
    assert_eq!(p.chars().filter(|c| *c == 'Z').count(), 1000);
    assert!(p.contains("공고 본문:\nZZZ") && p.ends_with("ZZZ"));
    let short = summary_prompt("짧은 본문");
    assert!(short.ends_with("공고 본문:\n짧은 본문"));
}

#[test]
fn body_to_summarize() {
    let long_text = "본문 ".repeat(30);
    let html = format!("<html><body><div class=\"board_body\"><p>{}</p><p>끝</p></div></body></html>", long_text);
    assert_eq!(body_for_summary(&html), Some(format!("{}\n끝", long_text)));
    assert_eq!(body_for_summary("<html><body><p>짧다</p></body></html>"), None);
}

#[test]
fn details_from_content() {
    let html = "<html><body><div id=\"main\"><table><tr><th>등록마감</th><td> 2025-05-01 </td></tr></table>\
        <p>사업비 : 3,000,000원 내외</p><p>계약기간 : 2025.06.01 ~ 2025.11.30</p><p>참여자격 : 중소기업 및 스타트업 대상</p></div></body></html>";
    let e = detail_fields(html, "div#main").unwrap();
    assert_eq!(e.get("마감일").as_deref(), Some("2025-05-01"));
    assert_eq!(e.get("금액").as_deref(), Some("3,000,000원 내외"));
    assert_eq!(e.get("기간").as_deref(), Some("2025.06.01 ~ 2025.11.30"));
    assert_eq!(e.get("자격").as_deref(), Some("중소기업 및 스타트업 대상"));
    assert!(detail_fields(html, "div#none").unwrap().entries().is_empty());
    assert!(detail_fields(html, "((").unwrap().entries().is_empty());
}

#[test]
fn details_read_back() {
    let mut e = Extra::new();
    e.insert("k", "1".to_string());
    e.insert("k", "2".to_string());
    e.insert("j", "3".to_string());
    assert_eq!(e.get("k").as_deref(), Some("2"));
    assert_eq!(e.get("j").as_deref(), Some("3"));
    assert_eq!(e.get("z"), None);
    assert_eq!(e.entries().len(), 2);
}

#[test]
fn slack_reply_is_read() {
    assert!(reply_ok("{\"ok\":true,\"channel\":\"C1\"}"));
    assert!(!reply_ok("{\"ok\":false,\"error\":\"not_in_channel\"}"));
    assert!(!reply_ok("{\"ok\":\"true\"}"));
    assert!(!reply_ok("{}"));
    assert!(!reply_ok("<html>bad gateway</html>"));
}

fn posts(n: usize, fail_at: Option<usize>) -> (Vec<(usize, usize)>, bool) {
    let mut out = Vec::new();
    let mut sent = 0;
    let mut ok = true;
    loop {
        match next_send(n, sent, ok) {
            SendAction::Finish(b) => return (out, b),
            SendAction::Post(s, e) => {
                out.push((s, e));
                ok = fail_at != Some(out.len());
                sent = e;
            }
        }
    }
}

#[test]
fn sending_follows_the_batches() {
    assert_eq!(posts(0, None), (vec![], true));
    assert_eq!(posts(31, None), (vec![(0, 15), (15, 30), (30, 31)], true));
    assert_eq!(posts(31, None).0, batches(31));
    assert_eq!(posts(15, None), (vec![(0, 15)], true));
}

#[test]
fn sending_stops_at_a_refused_message() {
    assert_eq!(posts(40, Some(2)), (vec![(0, 15), (15, 30)], false));
    assert_eq!(posts(5, Some(1)), (vec![(0, 5)], false));
}
