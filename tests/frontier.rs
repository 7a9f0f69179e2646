use rusty_spider::frontier::CrawlContext;
use rusty_spider::web_url::WebUrl;

fn url(s: &str) -> WebUrl {
    WebUrl::parse(s).unwrap()
}

#[test]
fn parse_reads_the_parts_of_a_url() {
    let u = url("http://Example.test/a/b?x=1#top");
    assert_eq!(u.as_str(), "http://example.test/a/b?x=1#top");
    assert_eq!(u.key(), "http://example.test/a/b");
    assert_eq!(u.path(), "/a/b");
    assert_eq!(u.host(), Some("example.test"));
}

#[test]
fn parse_rejects_a_relative_url() {
    assert!(WebUrl::parse("/only/a/path").is_err());
    assert!(WebUrl::parse("not a url").is_err());
}

#[test]
fn normalize_ignores_query_and_fragment() {
    let a = url("http://example.test/page?x=1#top");
    let b = url("http://example.test/page#bottom");
    let c = url("http://example.test/page");
    let na = CrawlContext::normalize(&a);
    let nb = CrawlContext::normalize(&b);
    let nc = CrawlContext::normalize(&c);
    assert_eq!(na.as_str(), "http://example.test/page");
    assert_eq!(na.as_str(), nb.as_str());
    assert_eq!(nb.as_str(), nc.as_str());
    assert_ne!(a.as_str(), na.as_str());
}

#[test]
fn enqueue_keeps_one_entry_per_normalized_url() {
    let mut ctx = CrawlContext::new();
    ctx.add_url_to_crawl(&url("http://example.test/a?x=1"));
    ctx.add_url_to_crawl(&url("http://example.test/a#f"));
    ctx.add_url_to_crawl(&url("http://example.test/b"));
    assert_eq!(ctx.progress(), (2, 0));
}

#[test]
fn enqueue_does_not_readd_a_visited_url() {
    let mut ctx = CrawlContext::new();
    let a = url("http://example.test/a");
    ctx.add_url_to_crawl(&a);
    let popped = ctx.pop_url_to_crawl().unwrap();
    ctx.mark_url_as_crawled(&popped);
    assert_eq!(ctx.progress(), (0, 1));
    ctx.add_url_to_crawl(&url("http://example.test/a?again=1"));
    ctx.add_urls_to_crawl(&vec![url("http://example.test/a#x"), url("http://example.test/a")]);
    assert!(ctx.is_crawling_complete());
    assert_eq!(ctx.progress(), (0, 1));
}

#[test]
fn marked_url_is_never_dequeued() {
    let mut ctx = CrawlContext::new();
    ctx.add_urls_to_crawl(&vec![
        url("http://example.test/a"),
        url("http://example.test/b"),
        url("http://example.test/c"),
    ]);
    ctx.mark_url_as_crawled(&url("http://example.test/b?q=1"));
    assert_eq!(ctx.progress(), (2, 1));
    ctx.add_url_to_crawl(&url("http://example.test/b"));
    let mut seen = Vec::new();
    while let Some(u) = ctx.pop_url_to_crawl() {
        seen.push(u.as_str().to_string());
    }
    assert_eq!(seen.len(), 2);
    assert!(!seen.contains(&"http://example.test/b".to_string()));
}

#[test]
fn dequeue_gives_the_latest_pending_url_and_none_when_empty() {
    let mut ctx = CrawlContext::default();
    assert!(ctx.pop_url_to_crawl().is_none());
    ctx.add_url_to_crawl(&url("http://example.test/a"));
    ctx.add_url_to_crawl(&url("http://example.test/b"));
    assert_eq!(ctx.pop_url_to_crawl().unwrap().as_str(), "http://example.test/b");
    assert_eq!(ctx.pop_url_to_crawl().unwrap().as_str(), "http://example.test/a");
    assert!(ctx.pop_url_to_crawl().is_none());
    assert_eq!(ctx.progress(), (0, 0));
}

#[test]
fn pending_and_visited_stay_disjoint_under_random_operations() {
    let pool: Vec<WebUrl> = (0..6)
        .map(|i| url(&format!("http://example.test/p{}?v={}", i % 4, i)))
        .collect();
    let mut ctx = CrawlContext::new();
    let mut pending: Vec<String> = Vec::new();
    let mut visited: Vec<String> = Vec::new();
    let mut seed: u64 = 12345;
    for _ in 0..400 {
        seed = seed.wrapping_mul(6364136223846793005).wrapping_add(1442695040888963407);
        let pick = ((seed >> 33) % pool.len() as u64) as usize;
        let u = &pool[pick];
        let key = u.key().to_string();
        match (seed >> 20) % 3 {
            0 => {
                ctx.add_url_to_crawl(u);
                if !visited.contains(&key) && !pending.contains(&key) {
                    pending.push(key);
                }
            }
            1 => {
                if let Some(d) = ctx.pop_url_to_crawl() {
                    let k = d.key().to_string();
                    assert!(pending.contains(&k));
                    assert!(!visited.contains(&k));
                    pending.retain(|p| p != &k);
                } else {
                    assert!(pending.is_empty());
                }
            }
            _ => {
                ctx.mark_url_as_crawled(u);
                pending.retain(|p| p != &key);
                if !visited.contains(&key) {
                    visited.push(key);
                }
            }
        }
        assert!(pending.iter().all(|p| !visited.contains(p)));
        assert_eq!(ctx.progress(), (pending.len(), visited.len()));
    }
}

#[test]
fn with_path_replaces_only_the_path() {
    let u = url("http://example.test/dir/page?x=1");
    let r = u.with_path("/robots.txt").unwrap();
    assert_eq!(r.as_str(), "http://example.test/robots.txt?x=1");
    assert_eq!(r.path(), "/robots.txt");
    assert_eq!(r.key(), "http://example.test/robots.txt");
    assert_eq!(r.host(), Some("example.test"));
}
