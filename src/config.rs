use vstd::prelude::*;

verus! {

/// The pause between two fetches, in milliseconds, for a rate in requests per
/// second; a rate of zero never resumes.
pub open spec fn delay_for_rate(requests_per_second: u64) -> u64 {
    if requests_per_second == 0 {
        u64::MAX
    } else {
        (1000u64 / requests_per_second) as u64
    }
}

/// The settings shared by every seed's crawl.
#[derive(Clone, Copy, Debug, PartialEq, Eq, Structural)]
pub struct CrawlerConfig {
    pub max_pages: usize,
    pub max_depth: usize,
    pub crawl_delay_ms: Option<u64>,
}

impl CrawlerConfig {
    /// A configuration with a whole number of requests per second, or no limit.
    pub fn new(max_pages: usize, max_depth: usize, requests_per_second: Option<u64>) -> (r: CrawlerConfig)
        ensures
            r.max_pages == max_pages,
            r.max_depth == max_depth,
            r.crawl_delay_ms == (match requests_per_second {
                Some(n) => Some(delay_for_rate(n)),
                None => None,
            }),
    {
        let crawl_delay_ms = match requests_per_second {
            Some(n) => {
                if n == 0 {
                    Some(u64::MAX)
                } else {
                    Some(1000 / n)
                }
            },
            None => None,
        };
        CrawlerConfig { max_pages, max_depth, crawl_delay_ms }
    }

    /// A configuration with the pause between two fetches given directly.
    pub fn with_crawl_delay(max_pages: usize, max_depth: usize, crawl_delay_ms: Option<u64>) -> (r: CrawlerConfig)
        ensures
            r == (CrawlerConfig { max_pages, max_depth, crawl_delay_ms }),
    {
        CrawlerConfig { max_pages, max_depth, crawl_delay_ms }
    }

    pub fn max_pages(&self) -> (r: usize)
        ensures
            r == self.max_pages,
    {
        self.max_pages
    }

    pub fn max_depth(&self) -> (r: usize)
        ensures
            r == self.max_depth,
    {
        self.max_depth
    }

    pub fn crawl_delay_ms(&self) -> (r: Option<u64>)
        ensures
            r == self.crawl_delay_ms,
    {
        self.crawl_delay_ms
    }
}

} // verus!
