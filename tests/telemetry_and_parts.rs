use std::cell::RefCell;

use rusty_spider::config::CrawlerConfig;
use rusty_spider::events::{deliver, CrawlerProcessEvent, CrawlerState, ProgressReport, ProgressReporter};
use rusty_spider::page::{classify_href, partition_links, resolve_links, CrawlError, HrefKind, PageCrawler, Severity};
use rusty_spider::robots::{RobotsError, RobotsTxtMatcher, RobotsTxtSource, RobotsTxtView};
use rusty_spider::summary::{CrawlSummary, PageSummary};
use rusty_spider::telemetry::ConsoleState;
use rusty_spider::web_url::WebUrl;

fn url(s: &str) -> WebUrl {
    WebUrl::parse(s).unwrap()
}

fn begin(i: usize, s: &str) -> CrawlerProcessEvent {
    CrawlerProcessEvent::Begin { crawler_index: i, url: url(s) }
}

#[test]
fn begin_then_end_leaves_no_row() {
    let mut state = ConsoleState::new();
    state.handle_event(begin(4, "http://example.test/"));
    assert_eq!(state.len(), 1);
    state.handle_event(CrawlerProcessEvent::End { crawler_index: 4 });
    assert_eq!(state.len(), 0);
}

#[test]
fn rows_are_ordered_by_crawler_index() {
    let mut state = ConsoleState::new();
    state.handle_event(begin(2, "http://c.test/"));
    state.handle_event(begin(0, "http://a.test/"));
    state.handle_event(begin(1, "http://b.test/"));
    let order: Vec<usize> = state.rows().iter().map(|r| r.index).collect();
    assert_eq!(order, vec![0, 1, 2]);
    state.handle_event(CrawlerProcessEvent::End { crawler_index: 1 });
    let order: Vec<usize> = state.rows().iter().map(|r| r.index).collect();
    assert_eq!(order, vec![0, 2]);
}

#[test]
fn events_update_the_row_of_their_crawler() {
    let mut state = ConsoleState::new();
    state.handle_event(begin(0, "http://a.test/"));
    state.handle_event(begin(1, "http://b.test/"));
    {
        let row = &state.rows()[1];
        assert_eq!(row.url.as_str(), "http://b.test/");
        assert_eq!(row.state, CrawlerState::Paused);
        assert_eq!((row.num_urls_to_crawl, row.num_urls_crawled), (0, 0));
        assert!(row.message.is_none());
    }
    state.handle_event(CrawlerProcessEvent::ProgressUpdate { crawler_index: 1, num_urls_to_crawl: 7, num_urls_crawled: 3 });
    state.handle_event(CrawlerProcessEvent::ProgressMessage { crawler_index: 1, message: "Crawling x".to_string() });
    state.handle_event(CrawlerProcessEvent::CrawlerStateChanged { crawler_index: 1, state: CrawlerState::Crawling });
    let row = &state.rows()[1];
    assert_eq!((row.num_urls_to_crawl, row.num_urls_crawled), (7, 3));
    assert_eq!(row.message.as_deref(), Some("Crawling x"));
    assert_eq!(row.state, CrawlerState::Crawling);
    let other = &state.rows()[0];
    assert_eq!((other.num_urls_to_crawl, other.state), (0, CrawlerState::Paused));
}

#[test]
fn events_for_an_unknown_crawler_change_nothing() {
    let mut state = ConsoleState::new();
    state.handle_event(begin(0, "http://a.test/"));
    state.handle_event(CrawlerProcessEvent::ProgressUpdate { crawler_index: 9, num_urls_to_crawl: 1, num_urls_crawled: 1 });
    state.handle_event(CrawlerProcessEvent::CrawlerStateChanged { crawler_index: 9, state: CrawlerState::Crawling });
    state.handle_event(CrawlerProcessEvent::End { crawler_index: 9 });
    assert_eq!(state.len(), 1);
    assert_eq!(state.rows()[0].num_urls_to_crawl, 0);
    assert_eq!(state.rows()[0].state, CrawlerState::Paused);
}

#[test]
fn a_second_begin_resets_the_row() {
    let mut state = ConsoleState::new();
    state.handle_event(begin(0, "http://a.test/"));
    state.handle_event(CrawlerProcessEvent::ProgressUpdate { crawler_index: 0, num_urls_to_crawl: 5, num_urls_crawled: 5 });
    state.handle_event(begin(0, "http://z.test/"));
    assert_eq!(state.len(), 1);
    assert_eq!(state.rows()[0].url.as_str(), "http://z.test/");
    assert_eq!(state.rows()[0].num_urls_to_crawl, 0);
}

#[test]
fn event_reports_its_crawler_index() {
    assert_eq!(CrawlerProcessEvent::End { crawler_index: 3 }.crawler_index(), 3);
    assert_eq!(begin(5, "http://a.test/").crawler_index(), 5);
}

#[test]
fn state_labels() {
    assert_eq!(CrawlerState::Crawling.label(), "Crawling");
    assert_eq!(CrawlerState::Paused.label(), "Paused");
}

struct Recorder {
    calls: RefCell<Vec<String>>,
}

impl ProgressReporter for Recorder {
    fn begin(&self) {
        self.calls.borrow_mut().push("begin".to_string());
    }
    fn progress_update(&self, a: usize, b: usize) {
        self.calls.borrow_mut().push(format!("update {} {}", a, b));
    }
    fn progress_message(&self, m: &str) {
        self.calls.borrow_mut().push(format!("message {}", m));
    }
    fn crawler_state_changed(&self, s: CrawlerState) {
        self.calls.borrow_mut().push(format!("state {}", s.label()));
    }
    fn end(&self) {
        self.calls.borrow_mut().push("end".to_string());
    }
}

#[test]
fn deliver_calls_the_matching_method() {
    let r = Recorder { calls: RefCell::new(Vec::new()) };
    deliver(&r, &ProgressReport::Begin);
    deliver(&r, &ProgressReport::ProgressUpdate { num_urls_to_crawl: 2, num_urls_crawled: 1 });
    deliver(&r, &ProgressReport::ProgressMessage { message: "hi".to_string() });
    deliver(&r, &ProgressReport::StateChanged { state: CrawlerState::Paused });
    deliver(&r, &ProgressReport::End);
    assert_eq!(*r.calls.borrow(), vec!["begin", "update 2 1", "message hi", "state Paused", "end"]);
}

#[test]
fn config_turns_a_rate_into_a_delay() {
    assert_eq!(CrawlerConfig::new(1, 2, Some(2)).crawl_delay_ms(), Some(500));
    assert_eq!(CrawlerConfig::new(1, 2, Some(3)).crawl_delay_ms(), Some(333));
    assert_eq!(CrawlerConfig::new(1, 2, Some(0)).crawl_delay_ms(), Some(u64::MAX));
    assert_eq!(CrawlerConfig::new(1, 2, None).crawl_delay_ms(), None);
    let c = CrawlerConfig::with_crawl_delay(1000, 4, Some(250));
    assert_eq!((c.max_pages(), c.max_depth(), c.crawl_delay_ms()), (1000, 4, Some(250)));
}

#[test]
fn robots_rules_decide_paths() {
    let src = RobotsTxtSource::from_response(200, "User-agent: *\nDisallow: /private\n".to_string(), "rusty-spider").unwrap();
    let m = src.view().matcher();
    assert!(!m.check_path("/private/x"));
    assert!(m.check_path("/public"));
    let own = RobotsTxtMatcher::new("User-agent: rusty-spider\nDisallow: /\n".to_string(), "rusty-spider".to_string());
    assert!(!own.check_path("/anything"));
    let other = RobotsTxtView::new("User-agent: otherbot\nDisallow: /\n".to_string(), "rusty-spider".to_string()).matcher();
    assert!(other.check_path("/anything"));
}

#[test]
fn missing_robots_file_allows_everything() {
    let src = RobotsTxtSource::from_response(404, "ignored".to_string(), "rusty-spider").unwrap();
    assert!(src.view().matcher().check_path("/any/path"));
}

#[test]
fn robots_fetch_error_status_is_an_error() {
    assert_eq!(RobotsTxtSource::from_response(503, String::new(), "a").err(), Some(RobotsError::Status(503)));
    assert_eq!(RobotsTxtSource::from_response(301, String::new(), "a").err(), Some(RobotsError::Status(301)));
}

#[test]
fn check_head_accepts_html_only() {
    let pc = PageCrawler::new();
    assert_eq!(pc.check_head(404, Some("text/html")), Err(CrawlError::HttpError(404)));
    assert_eq!(pc.check_head(500, None), Err(CrawlError::HttpError(500)));
    assert_eq!(pc.check_head(200, Some("text/html; charset=utf-8")), Ok("text/html; charset=utf-8".to_string()));
    assert_eq!(pc.check_head(204, Some("TEXT/HTML")), Ok("TEXT/HTML".to_string()));
    assert_eq!(pc.check_head(200, Some("application/json")), Err(CrawlError::NotHtml));
    assert_eq!(pc.check_head(200, None), Err(CrawlError::MimeParseError));
    assert_eq!(pc.check_head(200, Some("not a type")), Err(CrawlError::MimeParseError));
}

#[test]
fn only_http_status_failures_are_recoverable() {
    assert_eq!(CrawlError::HttpError(404).severity(), Severity::Recoverable);
    assert_eq!(CrawlError::MimeParseError.severity(), Severity::FatalToSeed);
    assert_eq!(CrawlError::NotHtml.severity(), Severity::FatalToSeed);
    assert_eq!(CrawlError::TransportError.severity(), Severity::FatalToSeed);
}

#[test]
fn href_kinds() {
    assert_eq!(classify_href("/a/b"), HrefKind::SameHostPath);
    assert_eq!(classify_href("#top"), HrefKind::Ignored);
    assert_eq!(classify_href("mailto:x@y.z"), HrefKind::Ignored);
    assert_eq!(classify_href("javascript:void(0)"), HrefKind::Ignored);
    assert_eq!(classify_href("tel:123"), HrefKind::Ignored);
    assert_eq!(classify_href("http://x.test/"), HrefKind::Absolute);
    assert_eq!(classify_href("relative.html"), HrefKind::Absolute);
}

#[test]
fn resolve_and_partition_links() {
    let page = url("http://example.test/dir/page?q=1");
    let hrefs: Vec<String> = vec!["/a", "#f", "mailto:m@x.test", "http://other.test/x", "relative.html", "/a", "http://example.test/b"]
        .into_iter()
        .map(|s| s.to_string())
        .collect();
    let links = resolve_links(&page, &hrefs);
    let texts: Vec<&str> = links.iter().map(|l| l.as_str()).collect();
    assert_eq!(texts, vec!["http://example.test/a?q=1", "http://other.test/x", "http://example.test/a?q=1", "http://example.test/b"]);
    let (internal, external) = partition_links(&page, &links);
    let it: Vec<&str> = internal.iter().map(|l| l.as_str()).collect();
    let et: Vec<&str> = external.iter().map(|l| l.as_str()).collect();
    assert_eq!(it, vec!["http://example.test/a?q=1", "http://example.test/b"]);
    assert_eq!(et, vec!["http://other.test/x"]);
}

#[test]
fn read_page_finds_title_and_links() {
    let pc = PageCrawler::new();
    let page = url("http://example.test/");
    let body = "<html><head><title>Hello</title></head><body><a href=\"/in\">i</a><a href=\"https://out.test/\">o</a><a name=\"x\">no href</a></body></html>";
    let r = pc.read_page(&page, 200, "text/html".to_string(), body);
    assert_eq!(r.title, "Hello");
    assert_eq!(r.status_code, 200);
    assert_eq!(r.url.as_str(), "http://example.test/");
    assert_eq!(r.internal_links.iter().map(|l| l.as_str()).collect::<Vec<_>>(), vec!["http://example.test/in"]);
    assert_eq!(r.outgoing_links.iter().map(|l| l.as_str()).collect::<Vec<_>>(), vec!["https://out.test/"]);
    let untitled = pc.read_page(&page, 200, "text/html".to_string(), "<p>x</p>");
    assert_eq!(untitled.title, "No title");
    assert!(untitled.internal_links.is_empty() && untitled.outgoing_links.is_empty());
}

#[test]
fn summaries_keep_their_order() {
    let mut s = CrawlSummary::default();
    assert!(s.page_summaries().is_empty());
    s.add_page_summary(PageSummary::from_status_code(url("http://a.test/"), 403));
    s.add_page_summary(PageSummary::new(url("http://b.test/"), 200, "text/html".to_string(), "B".to_string(), 3));
    let p = s.page_summaries();
    assert_eq!((p[0].status_code, p[0].title.as_str(), p[0].num_outgoing_links), (403, "", 0));
    assert_eq!((p[1].status_code, p[1].title.as_str(), p[1].num_outgoing_links), (200, "B", 3));
    let t = CrawlSummary::new(vec![PageSummary::from_status_code(url("http://c.test/"), 404)]);
    assert_eq!(t.page_summaries()[0].url.as_str(), "http://c.test/");
}
