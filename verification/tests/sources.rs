use rnd_alerts::crawlers::base::{md5_hash, pattern, patterns, selector, Crawler, ScrapeError};
use rnd_alerts::crawlers::build_crawlers;
use rnd_alerts::crawlers::etri::EtriCrawler;
use rnd_alerts::crawlers::iitp::IitpCrawler;
use rnd_alerts::crawlers::iris::IrisCrawler;
use rnd_alerts::crawlers::kisa::KisaCrawler;
use rnd_alerts::crawlers::kisti::KistiCrawler;
use rnd_alerts::crawlers::krit::KritCrawler;
use rnd_alerts::crawlers::msit::MsitCrawler;
use rnd_alerts::crawlers::nst::NstCrawler;
use rnd_alerts::crawlers::ntis::NtisCrawler;
use std::hash::{Hash, Hasher};

fn std_hash_hex(s: &str) -> String {
    let mut hasher = std::collections::hash_map::DefaultHasher::new();
    s.hash(&mut hasher);
    format!("{:x}", hasher.finish())
}

fn page(body: &str) -> String {
    format!("<html><head><title>t</title></head><body>{}</body></html>", body)
}

#[test]
fn hash_matches_the_standard_hasher() {
    let url = "https://example.org/x?y=1";
    let mut hasher = std::collections::hash_map::DefaultHasher::new();
    url.hash(&mut hasher);
    assert_eq!(md5_hash(url), hasher.finish());
    assert_ne!(md5_hash(url), md5_hash("https://example.org/other"));
}

#[test]
fn crawlers_in_order_with_timeout() {
    let all = build_crawlers(7);
    let names: Vec<&str> = all.iter().map(|c| c.source_name()).collect();
    assert_eq!(names, vec!["NTIS", "KISA", "IITP", "KISTI", "NST", "KRIT", "IRIS", "ETRI", "MSIT"]);
    assert!(all.iter().all(|c| c.timeout() == 7));
}

#[test]
fn ntis_listing_rows() {
    let html = page(
        r#"<table class="basic_list"><tbody>
        <tr><td data-title=" 공고명 "><a href="/rndgate/eg/un/ra/view.do?roRndUid=1234&amp;flag=x">  2025 AI 보안 과제 공고 </a></td>
            <td data-title="기관명"> 정보통신기획평가원 </td><td data-title="등록일">2025-03-01</td><td data-title="마감일">2025-04-01</td></tr>
        <tr><td data-title="공고명"><a href="https://other.example/x">다른 공고</a></td></tr>
        <tr><td>제목 없음</td></tr>
        <tr><td data-title="공고명">링크 없음</td></tr>
        </tbody></table>"#,
    );
    let out = NtisCrawler::new(5).parse_listing(&html).unwrap();
    assert_eq!(out.len(), 2);
    assert_eq!(out[0].id, "ntis_1234");
    assert_eq!(out[0].url, "https://www.ntis.go.kr/rndgate/eg/un/ra/view.do?roRndUid=1234&flag=x");
    assert_eq!(out[0].title, "2025 AI 보안 과제 공고");
    assert_eq!(out[0].source, "NTIS");
    assert_eq!(out[0].agency.as_deref(), Some("정보통신기획평가원"));
    assert_eq!(out[0].date.as_deref(), Some("2025-03-01"));
    assert_eq!(out[0].deadline.as_deref(), Some("2025-04-01"));
    assert_eq!(out[1].id, format!("ntis_{}", std_hash_hex("https://other.example/x")));
    assert_eq!(out[1].agency, None);
}

#[test]
fn ntis_without_table_is_empty() {
    let out = NtisCrawler::new(5).parse_listing(&page("<p>점검 중</p>")).unwrap();
    assert!(out.is_empty());
}

#[test]
fn nst_listing_rows() {
    let html = page(
        r#"<table class="p-table"><tbody>
        <tr><td>1</td><td class="p-subject"><a href="./selectBbsNttView.do?nttNo=77&amp;key=60">  연구 과제 공모 </a></td>
            <td>한국과학기술연구원</td><td>2025-03-01</td><td>2025-03-31</td></tr>
        <tr><td class="p-subject"><a href="/www/view.do?x=1">공지</a></td><td>2025-02-02</td></tr>
        <tr><td>제목 없음</td></tr>
        </tbody></table>"#,
    );
    let out = NstCrawler::new(5).parse_listing(&html).unwrap();
    assert_eq!(out.len(), 2);
    assert_eq!(out[0].id, "nst_77");
    assert_eq!(out[0].url, "https://www.nst.re.kr/www/selectBbsNttView.do?nttNo=77&key=60");
    assert_eq!(out[0].title, "연구 과제 공모");
    assert_eq!(out[0].agency.as_deref(), Some("한국과학기술연구원"));
    assert_eq!(out[0].date.as_deref(), Some("2025-03-01"));
    assert_eq!(out[0].deadline.as_deref(), Some("2025-03-31"));
    assert_eq!(out[1].url, "https://www.nst.re.kr/www/view.do?x=1");
    assert_eq!(out[1].id, format!("nst_{}", std_hash_hex("https://www.nst.re.kr/www/view.do?x=1")));
    assert_eq!(out[1].date.as_deref(), Some("2025-02-02"));
    assert_eq!(out[1].deadline, None);
}

#[test]
fn msit_listing_items() {
    let html = page(
        r#"<div class="board_list">
        <div class="toggle"><a onclick="fn_detail(3456); return false;"><p class="title"> 정보보호 사업 공고 </p><div class="date"> 2025.03.02 </div><div class="meta">정보보호과</div></a></div>
        <div class="toggle"><a onclick="other()"><p class="title">무시</p></a></div>
        <div class="toggle"><a onclick="fn_detail(99)"><span>제목 없음</span></a></div>
        </div>"#,
    );
    let out = MsitCrawler::new(5).parse_listing(&html).unwrap();
    assert_eq!(out.len(), 1);
    assert_eq!(out[0].id, "msit_3456");
    assert_eq!(
        out[0].url,
        "https://www.msit.go.kr/bbs/view.do?sCode=user&mId=311&mPid=121&bbsSeqNo=100&nttSeqNo=3456"
    );
    assert_eq!(out[0].title, "정보보호 사업 공고");
    assert_eq!(out[0].date.as_deref(), Some("2025.03.02"));
    assert_eq!(out[0].agency.as_deref(), Some("정보보호과"));
    assert_eq!(out[0].source, "MSIT");
}

#[test]
fn krit_listing_rows() {
    let html = page(
        r#"<table data-skin="board_list"><tbody>
        <tr onclick="fncBusinessInfo('R-001')"><td>1</td><td title=" 국방 AI 과제 ">국방 AI...</td><td>국방기술진흥연구소</td></tr>
        <tr onclick="fncBusinessInfo('R-002')"><td>2</td><td>가장 긴 셀의 제목입니다</td><td>짧음</td></tr>
        <tr onclick="fncBusinessInfo('R-003')"><td> </td></tr>
        <tr><td>no onclick</td></tr>
        </tbody></table>"#,
    );
    let out = KritCrawler::new(5).parse_listing(&html).unwrap();
    assert_eq!(out.len(), 2);
    assert_eq!(out[0].id, "krit_R-001");
    assert_eq!(out[0].url, "https://dtims.krit.re.kr/vps/OINF_RndProjView.do?rndNo=R-001");
    assert_eq!(out[0].title, "국방 AI 과제");
    assert_eq!(out[0].agency.as_deref(), Some("국방기술진흥연구소"));
    assert_eq!(out[1].title, "가장 긴 셀의 제목입니다");
    assert_eq!(out[1].agency.as_deref(), Some("짧음"));
}

#[test]
fn iitp_listing_items() {
    let html = page(
        r#"<ul class="basic_bbs">
        <li class="clearfix"><span class="tit"> ICT 기술개발 공고 </span><a onclick="post_to_url('/common/anno/view?PMS_TSK_PBNC_ID=PB-77&amp;x=1', {})">보기</a>
            <span class="bbs_info"><span>2025-03-01 ~ 2025-03-31</span></span></li>
        <li class="clearfix"><span class="tit">경로만</span><a onclick="post_to_url('/common/anno/other', {})">보기</a>
            <span class="bbs_info"><span>상시</span></span></li>
        <li class="clearfix"><span class="tit"> </span><a onclick="post_to_url('/x', {})">보기</a></li>
        <li class="clearfix"><span class="tit">링크 없음</span></li>
        </ul>"#,
    );
    let out = IitpCrawler::new(5).parse_listing(&html).unwrap();
    assert_eq!(out.len(), 2);
    assert_eq!(out[0].id, "iitp_PB-77");
    assert_eq!(out[0].url, "https://ezone.iitp.kr/common/anno/view?PMS_TSK_PBNC_ID=PB-77&x=1");
    assert_eq!(out[0].title, "ICT 기술개발 공고");
    assert_eq!(out[0].date.as_deref(), Some("2025-03-01"));
    assert_eq!(out[0].deadline.as_deref(), Some("2025-03-31"));
    assert_eq!(out[1].id, format!("iitp_{}", std_hash_hex("https://ezone.iitp.kr/common/anno/other")));
    assert_eq!(out[1].date, None);
    assert_eq!(out[1].deadline, None);
}

#[test]
fn iris_listing_rows() {
    let html = page(
        r#"<table><tbody id="listView">
        <tr><td class="title"><a onclick="f_bsnsPrgGuid_view('B100','55')"> 2025 연구개발 사업 </a></td>
            <td data-title="전문기관"> 한국연구재단 </td><td data-title="등록일">2025-03-01</td><td data-title="수정일">2025-03-05</td></tr>
        <tr><td class="title"><a onclick="other()">무시</a></td></tr>
        </tbody></table>"#,
    );
    let out = IrisCrawler::new(5).parse_listing(&html).unwrap();
    assert_eq!(out.len(), 1);
    assert_eq!(out[0].id, "iris_B100_55");
    assert_eq!(
        out[0].url,
        "https://www.iris.go.kr/contents/retrieveBsnsPrgGuidView.do?bsnsCd=B100&pbancSn=55"
    );
    assert_eq!(out[0].title, "2025 연구개발 사업");
    assert_eq!(out[0].agency.as_deref(), Some("한국연구재단"));
    assert_eq!(out[0].date.as_deref(), Some("2025-03-01"));
    assert_eq!(out[0].deadline.as_deref(), Some("2025-03-05"));
}

#[test]
fn etri_listing_rows() {
    let html = page(
        r#"<table>
        <tr onmouseover="x"><td onclick="fnDetailCustView('2025-0042')">1</td><td> "클라우드 보안 장비 구매" </td><td>2025-03-01 10:00</td><td>2025-03-10 17:00</td></tr>
        <tr onmouseover="x"><td>1</td><td>셀이 모자람</td></tr>
        <tr onmouseover="x"><td>1</td><td>번호 없음</td><td>x</td></tr>
        </table>"#,
    );
    let out = EtriCrawler::new(5).parse_listing(&html).unwrap();
    assert_eq!(out.len(), 1);
    assert_eq!(out[0].id, "etri_2025-0042");
    assert_eq!(out[0].url, "https://ebid.etri.re.kr/ebid/ebidCustProgressView.do?biNo=2025-0042");
    assert_eq!(out[0].title, "클라우드 보안 장비 구매");
    assert_eq!(out[0].date.as_deref(), Some("2025-03-01"));
    assert_eq!(out[0].deadline.as_deref(), Some("2025-03-10"));
}

#[test]
fn etri_date_cut_inside_a_character_is_an_error() {
    let html = page(
        r#"<table>
        <tr onmouseover="x"><td onclick="fnDetailCustView('7')">1</td><td>장비 구매 공고</td><td>２０２５-０３-０１</td></tr>
        </table>"#,
    );
    let out = EtriCrawler::new(5).parse_listing(&html);
    assert!(matches!(out, Err(ScrapeError::Cut)));
}

#[test]
fn kisa_listing_rows() {
    let html = page(
        r#"<table class="tbl_board notice"><tbody>
        <tr><td class="sbj"><a href="/403?postSeq=321&amp;page=1"> 보안 기술 공모 </a></td><td class="date">2025-03-01</td></tr>
        <tr><td class="sbj"><a href="https://elsewhere.example/a">외부 공지</a></td></tr>
        <tr><td>제목 없음</td></tr>
        </tbody></table>"#,
    );
    let out = KisaCrawler::new(5).parse_listing(&html).unwrap();
    assert_eq!(out.len(), 2);
    assert_eq!(out[0].id, "kisa_321");
    assert_eq!(out[0].url, "https://www.kisa.or.kr/403?postSeq=321&page=1");
    assert_eq!(out[0].title, "보안 기술 공모");
    assert_eq!(out[0].date.as_deref(), Some("2025-03-01"));
    assert_eq!(out[0].deadline, None);
    assert_eq!(out[1].id, format!("kisa_{}", std_hash_hex("https://elsewhere.example/a")));
    assert_eq!(out[1].date, None);
}

#[test]
fn kisa_detail_page() {
    let html = page(
        r#"<table><tr><td>공고일</td><td>등록마감일시</td></tr><tr><td>2025-03-01</td><td> 2025-03-20 18:00 </td></tr></table>
        <div class="board_detail_contents"><p>사업 개요</p><p>소요예산 : 50,000,000 원 (부가세 포함)</p><p>수행기간 : 2025.04.01 ~ 2025.12.31</p></div>"#,
    );
    let d = KisaCrawler::new(5).parse_detail(&html).unwrap();
    assert_eq!(d.extra.get("마감일").as_deref(), Some("2025-03-20 18:00"));
    assert_eq!(d.extra.get("금액").as_deref(), Some("50,000,000 원 (부가세 포함)"));
    assert_eq!(d.extra.get("기간").as_deref(), Some("2025.04.01 ~ 2025.12.31"));
    let body = d.body.unwrap();
    assert!(body.starts_with("사업 개요\n"));
    let mut ann = rnd_alerts::models::Announcement::new(
        "kisa_1".to_string(),
        "t".to_string(),
        "u".to_string(),
        "KISA".to_string(),
    );
    KisaCrawler::attach_detail(&mut ann, d.extra, Some("요약문".to_string()));
    assert_eq!(ann.deadline.as_deref(), Some("2025-03-20 18:00"));
    assert_eq!(ann.extra.get("AI요약").as_deref(), Some("요약문"));
    assert_eq!(ann.extra.get("금액").as_deref(), Some("50,000,000 원 (부가세 포함)"));
}

#[test]
fn kisa_detail_without_content() {
    let d = KisaCrawler::new(5).parse_detail(&page("<p>없음</p>")).unwrap();
    assert!(d.body.is_none());
    assert!(d.extra.entries().is_empty());
}

#[test]
fn kisti_listing_items() {
    let html = page(
        r#"<ul class="basic_board">
        <li><p class="title"><a href="/notifications/post/research-task;jsessionid=ABC123?x=1/"> 연구과제 공모 </a></p><span class="date">등록일 2025. 03. 04</span></li>
        <li><p class="title"><a href="/notifications/post/research-task/98765/">위탁과제</a></p></li>
        <li><span>제목 없음</span></li>
        </ul>"#,
    );
    let out = KistiCrawler::new(5).parse_listing(&html).unwrap();
    assert_eq!(out.len(), 2);
    let url0 = "https://www.kisti.re.kr/notifications/post/research-task?x=1/";
    assert_eq!(out[0].url, url0);
    assert_eq!(out[0].id, format!("kisti_{}", std_hash_hex(url0)));
    assert_eq!(out[0].title, "연구과제 공모");
    assert_eq!(out[0].date.as_deref(), Some("2025. 03. 04"));
    assert_eq!(out[1].id, "kisti_98765");
    assert_eq!(out[1].url, "https://www.kisti.re.kr/notifications/post/research-task/98765/");
    assert_eq!(out[1].date, None);
}

#[test]
fn kisti_detail_and_preview() {
    let html = page(
        r#"<p>
접수기간 : 2025.03.01 ~ 2025.03.15  
</p>
        <div class="board_file">
        <span>참고자료 <a onclick="filePreview('ref.hwp')">바로보기</a></span>
        <span>제안요청서 <a onclick="filePreview('rfp_2025.hwp')">바로보기</a></span>
        </div>"#,
    );
    let d = KistiCrawler::new(5).parse_detail(&html).unwrap();
    assert_eq!(d.deadline.as_deref(), Some("2025.03.01 ~ 2025.03.15"));
    let raw = KistiCrawler::new(5).parse_detail("<p>접수기간 : 3월 말</p>").unwrap();
    assert_eq!(raw.deadline.as_deref(), Some("3월 말</p>"));
    assert_eq!(
        d.preview_url.as_deref(),
        Some("https://www.kisti.re.kr/resources/htmlconverter_skin/doc.jsp?fn=rfp_2025.hwp&rs=/fatt/htmlconverter_preview")
    );
    let preview = page("<p>연구기간 : 2025.04-2025.12</p><p>연구기간: 2025.04.01 ~ 2025.12.31</p><p>위탁연구비 : 총 120,000 천원</p>");
    let extra = KistiCrawler::new(5).parse_preview(&preview).unwrap();
    assert_eq!(extra.get("기간").as_deref(), Some("2025.04.01 ~ 2025.12.31"));
    assert_eq!(extra.get("금액").as_deref(), Some("120,000 천원"));
}

#[test]
fn kisti_detail_without_rfp() {
    let html = page(r#"<div class="board_file"><span>참고 <a onclick="filePreview('a.hwp')">보기</a></span></div>"#);
    let d = KistiCrawler::new(5).parse_detail(&html).unwrap();
    assert_eq!(d.deadline, None);
    assert_eq!(d.preview_url, None);
}

#[test]
fn refused_selector_is_a_selector_error() {
    assert!(matches!(selector("(("), Err(ScrapeError::Selector)));
    assert!(selector("td.sbj a").is_ok());
}

#[test]
fn refused_pattern_is_a_pattern_error() {
    assert!(matches!(pattern("(unclosed"), Err(ScrapeError::Pattern)));
    assert!(pattern(r"\d+").is_ok());
    assert!(matches!(patterns(&[r"\d", "[z-a]"]), Err(ScrapeError::Pattern)));
    assert_eq!(patterns(&[r"\d", "a+"]).map(|v| v.len()).ok(), Some(2));
}
