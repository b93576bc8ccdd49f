use yarse::crawler::{CrawlAction, Crawler, FinishReason, MAX_URLS, MIN_URLS};
use yarse::links::{extract_links, http_urls};
use yarse::page::{assemble_page, link_records, page_from_row, page_row, parse_page, try_parse_page, DbPage, PageRow};
use yarse::queue::{update_urls_queue, UrlQueue};
use yarse::text::{join_with, split_on};
use yarse::timestamp::Timestamp;

fn strings(v: &[&str]) -> Vec<String> {
    v.iter().map(|s| s.to_string()).collect()
}

const PAGE: &str = "<html><head><title>Rust Book</title>\
<meta name=\"description\" content=\"The book about Rust\"></head>\
<body><h1>Intro</h1><p>Hello</p><h2>More <b>bold</b></h2>\
<a href=\"/about\">about</a><a href=\"next.html\">next</a>\
<a href=\"mailto:me@example.com\">mail</a><a href=\"http://other.org\">other</a>\
<a name=\"anchor\">no link</a></body></html>";

#[test]
fn join_puts_separator_between_neighbours() {
    assert_eq!(join_with(&strings(&["a", "b", "c"]), ';'), "a;b;c");
    assert_eq!(join_with(&strings(&["only"]), ';'), "only");
    assert_eq!(join_with(&Vec::new(), ';'), "");
    assert_eq!(join_with(&strings(&["", ""]), ';'), ";");
}

#[test]
fn split_yields_pieces_like_str_split() {
    assert_eq!(split_on("a;b;c", ';'), strings(&["a", "b", "c"]));
    assert_eq!(split_on("", ';'), strings(&[""]));
    assert_eq!(split_on("a;", ';'), strings(&["a", ""]));
    assert_eq!(split_on(";;", ';'), strings(&["", "", ""]));
    assert_eq!(split_on("héllo;wörld", ';'), strings(&["héllo", "wörld"]));
    for s in ["", "x", "a;b", ";x;", "ü;;ß"] {
        let expected: Vec<String> = s.split(';').map(|p| p.to_string()).collect();
        assert_eq!(split_on(s, ';'), expected);
    }
}

#[test]
fn join_of_split_gives_the_string_back() {
    for s in ["", ";", "a;b", "x;;y;", "no separator"] {
        assert_eq!(join_with(&split_on(s, ';'), ';'), s);
    }
}

#[test]
fn split_of_join_gives_the_parts_back() {
    let parts = strings(&["https://a.org/", "", "https://b.org/x"]);
    assert_eq!(split_on(&join_with(&parts, ';'), ';'), parts);
    // An empty list is written as "", which reads back as one empty link.
    assert_eq!(split_on(&join_with(&Vec::new(), ';'), ';'), strings(&[""]));
}

#[test]
fn timestamp_text_is_chrono_naive_utc() {
    let t = Timestamp::from_unix(1431648000, 0).unwrap();
    assert_eq!(t.to_text(), "2015-05-15 00:00:00");
    assert_eq!(t.secs(), 1431648000);
    assert_eq!(t.nanos(), 0);
    let t = Timestamp::from_unix(0, 500_000_000).unwrap();
    assert_eq!(t.to_text(), "1970-01-01 00:00:00.500");
}

#[test]
fn timestamp_out_of_range_is_refused() {
    assert!(Timestamp::from_unix(i64::MAX, 0).is_none());
    assert!(Timestamp::from_unix(0, 2_000_000_000).is_none());
}

#[test]
fn extract_links_resolves_and_keeps_http() {
    let links = extract_links(PAGE, "https://example.com/docs/index.html");
    assert_eq!(
        links,
        strings(&["https://example.com/about", "https://example.com/docs/next.html", "http://other.org/"])
    );
}

#[test]
fn extract_links_of_page_without_anchors() {
    assert!(extract_links("<p>nothing</p>", "https://example.com").is_empty());
}

#[test]
fn parse_page_reads_every_field() {
    let date = Timestamp::from_unix(1431648000, 0).unwrap();
    let page = parse_page("https://example.com/docs/index.html", PAGE, &date);
    assert_eq!(page.url, "https://example.com/docs/index.html");
    assert_eq!(page.date, "2015-05-15 00:00:00");
    assert_eq!(page.title, "Rust Book");
    assert_eq!(page.meta, "The book about Rust");
    assert_eq!(page.content, "Intro;Hello;More ;bold;about;next;mail;other;no link");
    assert_eq!(page.subtitles, "Intro;More <b>bold</b>");
    assert_eq!(page.links.len(), 3);
}

#[test]
fn parse_page_of_bare_document() {
    let date = Timestamp::from_unix(0, 0).unwrap();
    let page = parse_page("https://example.com", "", &date);
    assert_eq!(page.title, "");
    assert_eq!(page.meta, "");
    assert_eq!(page.content, "");
    assert_eq!(page.subtitles, "");
    assert!(page.links.is_empty());
    assert_eq!(page.date, "1970-01-01 00:00:00");
}

#[test]
fn parse_page_reads_og_description() {
    let date = Timestamp::from_unix(0, 0).unwrap();
    let html = "<html><head><meta property=\"og:description\" content=\"OG\"></head><body></body></html>";
    assert_eq!(parse_page("https://example.com", html, &date).meta, "OG");
}

#[test]
fn try_parse_page_refuses_relative_url() {
    let date = Timestamp::from_unix(0, 0).unwrap();
    assert!(try_parse_page("not a url", PAGE, &date).is_none());
    let page = try_parse_page("https://example.com/docs/index.html", PAGE, &date).unwrap();
    assert_eq!(page.title, "Rust Book");
}

fn sample_page(links: &[&str]) -> DbPage {
    DbPage {
        url: "https://example.com".to_string(),
        date: "2015-05-15 00:00:00".to_string(),
        title: "T".to_string(),
        meta: "M".to_string(),
        content: "a;b".to_string(),
        subtitles: "S".to_string(),
        links: strings(links),
    }
}

#[test]
fn page_row_joins_links() {
    let row = page_row(&sample_page(&["https://a.org/", "https://b.org/"]));
    assert_eq!(row.links, "https://a.org/;https://b.org/");
    assert_eq!(row.content, "a;b");
    assert_eq!(row.url, "https://example.com");
}

#[test]
fn page_read_back_from_its_row() {
    let page = sample_page(&["https://a.org/", "https://b.org/"]);
    let back = page_from_row(page_row(&page));
    assert_eq!(back.links, page.links);
    assert_eq!(back.title, page.title);
    assert_eq!(back.content, page.content);
    // A page without links comes back with one empty link.
    let back = page_from_row(page_row(&sample_page(&[])));
    assert_eq!(back.links, strings(&[""]));
}

#[test]
fn row_written_back_from_its_page() {
    let row = PageRow {
        url: "u".to_string(),
        date: "d".to_string(),
        title: "t".to_string(),
        meta: "m".to_string(),
        content: "c".to_string(),
        subtitles: "s".to_string(),
        links: ";x;;".to_string(),
    };
    let again = page_row(&page_from_row(row.clone()));
    assert_eq!(again.links, row.links);
    assert_eq!(again.subtitles, row.subtitles);
}

#[test]
fn link_records_pair_each_link_with_the_date() {
    let records = link_records(&sample_page(&["https://a.org/", "https://b.org/"]));
    assert_eq!(
        records,
        vec![
            ("https://a.org/".to_string(), "2015-05-15 00:00:00".to_string()),
            ("https://b.org/".to_string(), "2015-05-15 00:00:00".to_string()),
        ]
    );
}

fn queued(q: &UrlQueue) -> usize {
    q.len()
}

#[test]
fn update_skips_queued_and_crawled_urls() {
    let mut q = UrlQueue::with_capacity(10);
    update_urls_queue(&mut q, &strings(&["a", "b"]), &vec![false, false]);
    assert_eq!(queued(&q), 2);
    update_urls_queue(&mut q, &strings(&["a", "c", "d", "c"]), &vec![false, true, false, false]);
    assert_eq!(q.len(), 4);
    assert!(q.contains(&"c".to_string()));
    assert!(q.contains(&"d".to_string()));
    let mut q2 = q;
    assert_eq!(q2.pop_front(), Some("a".to_string()));
    assert_eq!(q2.pop_front(), Some("b".to_string()));
    assert_eq!(q2.pop_front(), Some("d".to_string()));
    assert_eq!(q2.pop_front(), Some("c".to_string()));
    assert_eq!(q2.pop_front(), None);
    assert!(q2.is_empty());
}

#[test]
fn update_stops_at_capacity() {
    let mut q = UrlQueue::with_capacity(3);
    update_urls_queue(&mut q, &strings(&["a"]), &vec![false]);
    update_urls_queue(&mut q, &strings(&["b", "b", "c", "d", "e"]), &vec![false; 5]);
    assert_eq!(q.len(), 3);
    assert_eq!(q.capacity(), 3);
    assert!(!q.contains(&"d".to_string()));
    update_urls_queue(&mut q, &strings(&["f"]), &vec![false]);
    assert_eq!(q.len(), 3);
    assert!(!q.contains(&"f".to_string()));
}

#[test]
fn crawler_refills_then_crawls_in_order() {
    let mut c = Crawler::new(None);
    assert_eq!(c.queue().capacity(), MAX_URLS);
    assert!(matches!(c.next_action(), CrawlAction::Refill));
    let links = strings(&["https://a.org/", "https://b.org/", "https://c.org/"]);
    match c.refill(&links, &vec![false, true, false]) {
        CrawlAction::Crawl(u) => assert_eq!(u, "https://a.org/"),
        other => panic!("unexpected {:?}", other),
    }
    assert!(matches!(c.next_action(), CrawlAction::Refill));
    match c.refill(&Vec::new(), &Vec::new()) {
        CrawlAction::Crawl(u) => assert_eq!(u, "https://c.org/"),
        other => panic!("unexpected {:?}", other),
    }
    assert!(matches!(c.next_action(), CrawlAction::Refill));
    assert!(matches!(
        c.refill(&Vec::new(), &Vec::new()),
        CrawlAction::Finish(FinishReason::NoMoreUrls)
    ));
}

#[test]
fn crawler_stops_at_loop_limit() {
    let mut c = Crawler::new(Some(2));
    let links: Vec<String> = (0..40).map(|i| format!("https://site{}.org/", i)).collect();
    let crawled = vec![false; 40];
    assert!(matches!(c.next_action(), CrawlAction::Refill));
    assert!(matches!(c.refill(&links, &crawled), CrawlAction::Crawl(_)));
    assert_eq!(c.queue().len(), 39);
    assert!(MIN_URLS <= 39);
    match c.next_action() {
        CrawlAction::Crawl(u) => assert_eq!(u, "https://site1.org/"),
        other => panic!("unexpected {:?}", other),
    }
    assert!(matches!(c.next_action(), CrawlAction::Finish(FinishReason::LoopLimit)));
}

#[test]
fn crawler_with_zero_limit_crawls_nothing() {
    let mut c = Crawler::new(Some(0));
    assert!(matches!(c.next_action(), CrawlAction::Refill));
    assert!(matches!(
        c.refill(&strings(&["https://a.org/"]), &vec![false]),
        CrawlAction::Finish(FinishReason::LoopLimit)
    ));
}

#[test]
fn http_urls_keeps_http_and_https_only() {
    let resolved = vec![
        Some(("http".to_string(), "http://a.org/".to_string())),
        None,
        Some(("mailto".to_string(), "mailto:me@a.org".to_string())),
        Some(("https".to_string(), "https://b.org/x".to_string())),
        Some(("HTTP".to_string(), "HTTP://c.org/".to_string())),
    ];
    assert_eq!(http_urls(&resolved), strings(&["http://a.org/", "https://b.org/x"]));
    assert!(http_urls(&Vec::new()).is_empty());
}

#[test]
fn assemble_page_takes_first_title_description_and_body() {
    let date = Timestamp::from_unix(86_400, 0).unwrap();
    let page = assemble_page(
        "https://example.com",
        &date,
        &strings(&["First", "Second"]),
        &vec![None, Some("later".to_string())],
        &vec![strings(&["a", "b"]), strings(&["c"])],
        &strings(&["H1", "H2"]),
        strings(&["https://a.org/"]),
    );
    assert_eq!(page.url, "https://example.com");
    assert_eq!(page.date, "1970-01-02 00:00:00");
    assert_eq!(page.title, "First");
    assert_eq!(page.meta, "");
    assert_eq!(page.content, "a;b");
    assert_eq!(page.subtitles, "H1;H2");
    assert_eq!(page.links, strings(&["https://a.org/"]));
}

#[test]
fn assemble_page_of_nothing_found() {
    let date = Timestamp::from_unix(0, 0).unwrap();
    let page = assemble_page("u", &date, &Vec::new(), &Vec::new(), &Vec::new(), &Vec::new(), Vec::new());
    assert_eq!(page.title, "");
    assert_eq!(page.meta, "");
    assert_eq!(page.content, "");
    assert_eq!(page.subtitles, "");
    assert!(page.links.is_empty());
}

#[test]
fn second_refill_with_same_tables_adds_nothing() {
    let links = strings(&["a", "b", "c", "d"]);
    let crawled = vec![false, true, false, false];
    let mut q = UrlQueue::with_capacity(10);
    update_urls_queue(&mut q, &links, &crawled);
    assert_eq!(q.len(), 3);
    update_urls_queue(&mut q, &links, &crawled);
    assert_eq!(q.len(), 3);
    // With the room used up, a second refill adds nothing either.
    let mut full = UrlQueue::with_capacity(2);
    update_urls_queue(&mut full, &links, &crawled);
    update_urls_queue(&mut full, &links, &crawled);
    assert_eq!(full.len(), 2);
    assert_eq!(full.pop_front(), Some("a".to_string()));
    assert_eq!(full.pop_front(), Some("c".to_string()));
}

#[test]
fn crawl_run_hands_out_each_url_once_in_queue_order() {
    let links = strings(&["u1", "u2", "u3"]);
    let mut stored: Vec<String> = Vec::new();
    let mut handed: Vec<String> = Vec::new();
    let mut c = Crawler::new(None);
    let mut action = c.next_action();
    loop {
        action = match action {
            CrawlAction::Refill => {
                let crawled: Vec<bool> = links.iter().map(|l| stored.contains(l)).collect();
                c.refill(&links, &crawled)
            }
            CrawlAction::Crawl(u) => {
                stored.push(u.clone());
                handed.push(u);
                c.next_action()
            }
            CrawlAction::Finish(reason) => {
                assert_eq!(reason, FinishReason::NoMoreUrls);
                break;
            }
        };
    }
    assert_eq!(handed, links);
}

#[test]
fn headings_keep_attributes_in_source_order() {
    let date = Timestamp::from_unix(0, 0).unwrap();
    let html = "<html><body><h1><a href=\"x\" class=\"y\" id=\"w\">z</a></h1></body></html>";
    for _ in 0..20 {
        let page = parse_page("https://example.com", html, &date);
        assert_eq!(page.subtitles, "<a href=\"x\" class=\"y\" id=\"w\">z</a>");
    }
}
