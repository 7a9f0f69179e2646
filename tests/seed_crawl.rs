use rusty_spider::config::CrawlerConfig;
use rusty_spider::events::{CrawlerState, ProgressReport};
use rusty_spider::multi_crawler::MultiCrawler;
use rusty_spider::page::{CrawlError, CrawlResponse, PageCrawler};
use rusty_spider::seed_crawler::{CrawlCommand, CrawlPhase, RobotsFetch, SeedCrawler};
use rusty_spider::summary::CrawlSummary;
use rusty_spider::web_url::WebUrl;

fn url(s: &str) -> WebUrl {
    WebUrl::parse(s).unwrap()
}

fn html_page(u: &WebUrl, body: &str) -> Result<CrawlResponse, CrawlError> {
    let pc = PageCrawler::new();
    let ct = pc.check_head(200, Some("text/html"))?;
    Ok(pc.read_page(u, 200, ct, body))
}

/// Runs one seed's crawl to its end, with `fetch` standing for the network and
/// no pause actually waited. Returns the summary (None when the crawl failed),
/// every command, and every report.
fn drive(
    crawler: &mut SeedCrawler,
    robots: RobotsFetch,
    fetch: &dyn Fn(&WebUrl) -> Result<CrawlResponse, CrawlError>,
    cancel_after_fetches: Option<usize>,
) -> (Option<CrawlSummary>, Vec<CrawlCommand>, Vec<ProgressReport>) {
    let mut commands = Vec::new();
    let mut reports = Vec::new();
    let mut fetches = 0usize;
    let mut step = crawler.begin();
    loop {
        reports.extend(step.reports.iter().cloned());
        commands.push(step.command.clone());
        let cancelled = cancel_after_fetches.map_or(false, |n| fetches >= n);
        step = match step.command {
            CrawlCommand::LoadRobots(_) => crawler.robots_loaded(robots.clone(), cancelled),
            CrawlCommand::Fetch(u) => {
                fetches += 1;
                let cancelled = cancel_after_fetches.map_or(false, |n| fetches >= n);
                crawler.page_fetched(fetch(&u), cancelled)
            }
            CrawlCommand::Sleep(_) => crawler.slept(cancelled),
            CrawlCommand::Finish => return (Some(crawler.summary().clone()), commands, reports),
            CrawlCommand::Abort => return (None, commands, reports),
        };
    }
}

fn no_robots() -> RobotsFetch {
    RobotsFetch::Response { status: 404, body: String::new() }
}

fn rows(summary: &CrawlSummary) -> Vec<(String, u16, String, String, usize)> {
    summary
        .page_summaries()
        .iter()
        .map(|p| {
            (
                p.url.as_str().to_string(),
                p.status_code,
                p.content_type.clone(),
                p.title.clone(),
                p.num_outgoing_links,
            )
        })
        .collect()
}

#[test]
fn robots_forbidding_everything_gives_one_403_record() {
    let config = CrawlerConfig::new(1000, 4, None);
    let mut crawler = SeedCrawler::new(0, url("http://example.test/start?x=1"), &config);
    let robots = RobotsFetch::Response {
        status: 200,
        body: "User-agent: *\nDisallow: /\n".to_string(),
    };
    let fetch = |_: &WebUrl| -> Result<CrawlResponse, CrawlError> { panic!("no page may be fetched") };
    let (summary, commands, _) = drive(&mut crawler, robots, &fetch, None);
    let summary = summary.unwrap();
    assert_eq!(rows(&summary), vec![("http://example.test/start".to_string(), 403, String::new(), String::new(), 0)]);
    assert!(matches!(commands.last(), Some(CrawlCommand::Finish)));
    assert_eq!(crawler.phase(), CrawlPhase::Terminated);
}

#[test]
fn internal_link_and_404_scenario() {
    let config = CrawlerConfig::new(1000, 4, None);
    let mut crawler = SeedCrawler::new(0, url("http://example.test/"), &config);
    let fetch = |u: &WebUrl| -> Result<CrawlResponse, CrawlError> {
        if u.as_str() == "http://example.test/" {
            html_page(
                u,
                "<html><head><title>Root</title></head><body>\
                 <a href=\"http://example.test/a\">a</a>\
                 <a href=\"http://other.test/\">other</a></body></html>",
            )
        } else {
            Err(CrawlError::HttpError(404))
        }
    };
    let (summary, _, reports) = drive(&mut crawler, no_robots(), &fetch, None);
    let summary = summary.unwrap();
    assert_eq!(
        rows(&summary),
        vec![
            ("http://example.test/".to_string(), 200, "text/html".to_string(), "Root".to_string(), 1),
            ("http://example.test/a".to_string(), 404, String::new(), String::new(), 0),
        ]
    );
    assert!(matches!(reports.first(), Some(ProgressReport::Begin)));
    assert!(matches!(reports.last(), Some(ProgressReport::End)));
}

#[test]
fn two_requests_per_second_pause_500_ms_between_fetches() {
    let config = CrawlerConfig::new(1000, 4, Some(2));
    assert_eq!(config.crawl_delay_ms(), Some(500));
    let mut crawler = SeedCrawler::new(3, url("http://example.test/"), &config);
    let fetch = |u: &WebUrl| -> Result<CrawlResponse, CrawlError> {
        if u.as_str() == "http://example.test/" {
            html_page(u, "<a href=\"/next\">n</a>")
        } else {
            html_page(u, "<p>end</p>")
        }
    };
    let (summary, commands, reports) = drive(&mut crawler, no_robots(), &fetch, None);
    assert_eq!(summary.unwrap().page_summaries().len(), 2);
    let kinds: Vec<String> = commands
        .iter()
        .map(|c| match c {
            CrawlCommand::LoadRobots(_) => "robots".to_string(),
            CrawlCommand::Fetch(u) => format!("fetch {}", u.as_str()),
            CrawlCommand::Sleep(ms) => format!("sleep {}", ms),
            CrawlCommand::Finish => "finish".to_string(),
            CrawlCommand::Abort => "abort".to_string(),
        })
        .collect();
    assert_eq!(
        kinds,
        vec![
            "robots",
            "fetch http://example.test/",
            "sleep 500",
            "fetch http://example.test/next",
            "finish"
        ]
    );
    let states: Vec<CrawlerState> = reports
        .iter()
        .filter_map(|r| match r {
            ProgressReport::StateChanged { state } => Some(*state),
            _ => None,
        })
        .collect();
    assert_eq!(states, vec![CrawlerState::Crawling, CrawlerState::Paused, CrawlerState::Crawling]);
}

#[test]
fn a_failing_seed_leaves_the_others_unaffected() {
    let mut multi = MultiCrawler::new(CrawlerConfig::new(1000, 4, None));
    multi.add_seed(url("http://one.test/"));
    multi.add_seed(url("http://two.test/"));
    multi.add_seed(url("http://three.test/"));
    let mut crawlers = multi.crawlers();
    assert_eq!(crawlers.iter().map(|c| c.index()).collect::<Vec<_>>(), vec![0, 1, 2]);
    let fetch = |u: &WebUrl| -> Result<CrawlResponse, CrawlError> {
        if u.host() == Some("two.test") {
            Err(CrawlError::TransportError)
        } else {
            html_page(u, "<title>T</title>")
        }
    };
    let mut results = Vec::new();
    for c in crawlers.iter_mut() {
        let (summary, _, _) = drive(c, no_robots(), &fetch, None);
        results.push(summary);
    }
    assert!(results[1].is_none());
    let gathered = MultiCrawler::gather(results);
    assert_eq!(gathered.len(), 2);
    assert_eq!(rows(&gathered[0]), vec![("http://one.test/".to_string(), 200, "text/html".to_string(), "T".to_string(), 0)]);
    assert_eq!(rows(&gathered[1]), vec![("http://three.test/".to_string(), 200, "text/html".to_string(), "T".to_string(), 0)]);
}

#[test]
fn failed_robots_fetch_aborts_the_seed() {
    let config = CrawlerConfig::new(10, 2, None);
    let fetch = |_: &WebUrl| -> Result<CrawlResponse, CrawlError> { panic!("no page may be fetched") };
    let mut crawler = SeedCrawler::new(0, url("http://example.test/"), &config);
    let robots = RobotsFetch::Response { status: 500, body: String::new() };
    let (summary, _, reports) = drive(&mut crawler, robots, &fetch, None);
    assert!(summary.is_none());
    assert!(!reports.iter().any(|r| matches!(r, ProgressReport::End)));
    let mut crawler = SeedCrawler::new(0, url("http://example.test/"), &config);
    let (summary, _, _) = drive(&mut crawler, RobotsFetch::TransportError, &fetch, None);
    assert!(summary.is_none());
}

#[test]
fn cancellation_stops_before_the_next_fetch() {
    let config = CrawlerConfig::new(10, 2, None);
    let mut crawler = SeedCrawler::new(0, url("http://example.test/"), &config);
    let fetch = |u: &WebUrl| -> Result<CrawlResponse, CrawlError> {
        html_page(u, "<a href=\"/x\">x</a><a href=\"/y\">y</a>")
    };
    let (summary, commands, reports) = drive(&mut crawler, no_robots(), &fetch, Some(1));
    let summary = summary.unwrap();
    assert_eq!(summary.page_summaries().len(), 1);
    assert_eq!(commands.iter().filter(|c| matches!(c, CrawlCommand::Fetch(_))).count(), 1);
    assert!(matches!(reports.last(), Some(ProgressReport::End)));
}

#[test]
fn cancelled_while_paused_ends_without_sleeping() {
    let config = CrawlerConfig::new(10, 2, Some(1));
    let mut crawler = SeedCrawler::new(0, url("http://example.test/"), &config);
    let fetch = |u: &WebUrl| -> Result<CrawlResponse, CrawlError> { html_page(u, "<a href=\"/x\">x</a>") };
    let (_, commands, _) = drive(&mut crawler, no_robots(), &fetch, Some(1));
    assert!(!commands.iter().any(|c| matches!(c, CrawlCommand::Sleep(_))));
    assert!(matches!(commands.last(), Some(CrawlCommand::Finish)));
}

#[test]
fn progress_reports_count_pending_and_visited() {
    let config = CrawlerConfig::new(10, 2, None);
    let mut crawler = SeedCrawler::new(0, url("http://example.test/"), &config);
    let fetch = |u: &WebUrl| -> Result<CrawlResponse, CrawlError> {
        if u.path() == "/" {
            html_page(u, "<a href=\"/x\">x</a><a href=\"/y\">y</a>")
        } else {
            Err(CrawlError::HttpError(500))
        }
    };
    let (summary, _, reports) = drive(&mut crawler, no_robots(), &fetch, None);
    let updates: Vec<(usize, usize)> = reports
        .iter()
        .filter_map(|r| match r {
            ProgressReport::ProgressUpdate { num_urls_to_crawl, num_urls_crawled } => {
                Some((*num_urls_to_crawl, *num_urls_crawled))
            }
            _ => None,
        })
        .collect();
    assert_eq!(updates, vec![(1, 0), (2, 1), (1, 2)]);
    let messages: Vec<String> = reports
        .iter()
        .filter_map(|r| match r {
            ProgressReport::ProgressMessage { message } => Some(message.clone()),
            _ => None,
        })
        .collect();
    assert_eq!(messages[0], "Crawling http://example.test/");
    let statuses: Vec<u16> = summary.unwrap().page_summaries().iter().map(|p| p.status_code).collect();
    assert_eq!(statuses, vec![200, 500, 500]);
}

#[test]
fn a_page_is_recorded_under_the_url_that_was_fetched() {
    let config = CrawlerConfig::new(10, 2, None);
    let mut crawler = SeedCrawler::new(0, url("http://example.test/start#frag"), &config);
    let fetch = |_: &WebUrl| -> Result<CrawlResponse, CrawlError> {
        html_page(&url("http://elsewhere.test/moved"), "<title>Moved</title>")
    };
    let (summary, _, _) = drive(&mut crawler, no_robots(), &fetch, None);
    let summary = summary.unwrap();
    assert_eq!(
        rows(&summary),
        vec![("http://example.test/start".to_string(), 200, "text/html".to_string(), "Moved".to_string(), 0)]
    );
}
