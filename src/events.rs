use vstd::prelude::*;
use crate::web_url::WebUrl;

verus! {

/// Whether a seed's crawl is fetching or waiting out its politeness delay.
#[derive(Clone, Copy, Debug, PartialEq, Eq, Structural)]
pub enum CrawlerState {
    Crawling,
    Paused,
}

pub open spec fn state_label(s: CrawlerState) -> Seq<char> {
    match s {
        CrawlerState::Crawling => "Crawling"@,
        CrawlerState::Paused => "Paused"@,
    }
}

impl CrawlerState {
    /// The word shown for this state.
    pub fn label(&self) -> (r: &'static str)
        ensures
            r@ == state_label(*self),
    {
        match self {
            CrawlerState::Crawling => "Crawling",
            CrawlerState::Paused => "Paused",
        }
    }
}

/// What one seed's crawl tells its reporter, in spec terms.
pub enum ReportView {
    Begin,
    ProgressUpdate { num_urls_to_crawl: usize, num_urls_crawled: usize },
    ProgressMessage { message: Seq<char> },
    StateChanged { state: CrawlerState },
    End,
}

/// What one seed's crawl tells its reporter.
#[derive(Clone, Debug)]
pub enum ProgressReport {
    Begin,
    ProgressUpdate { num_urls_to_crawl: usize, num_urls_crawled: usize },
    ProgressMessage { message: String },
    StateChanged { state: CrawlerState },
    End,
}

impl View for ProgressReport {
    type V = ReportView;

    open spec fn view(&self) -> ReportView {
        match self {
            ProgressReport::Begin => ReportView::Begin,
            ProgressReport::ProgressUpdate { num_urls_to_crawl, num_urls_crawled } => {
                ReportView::ProgressUpdate {
                    num_urls_to_crawl: *num_urls_to_crawl,
                    num_urls_crawled: *num_urls_crawled,
                }
            },
            ProgressReport::ProgressMessage { message } => ReportView::ProgressMessage {
                message: message@,
            },
            ProgressReport::StateChanged { state } => ReportView::StateChanged { state: *state },
            ProgressReport::End => ReportView::End,
        }
    }
}

pub open spec fn report_views(s: Seq<ProgressReport>) -> Seq<ReportView> {
    s.map_values(|r: ProgressReport| r@)
}

/// Anything that can receive the lifecycle and progress of one seed's crawl.
pub trait ProgressReporter {
    fn begin(&self);

    fn progress_update(&self, num_urls_to_crawl: usize, num_urls_crawled: usize);

    fn progress_message(&self, message: &str);

    fn crawler_state_changed(&self, state: CrawlerState);

    fn end(&self);
}

/// Hands one report to the reporter method of its kind.
pub fn deliver<R: ProgressReporter>(reporter: &R, report: &ProgressReport) {
    match report {
        ProgressReport::Begin => reporter.begin(),
        ProgressReport::ProgressUpdate { num_urls_to_crawl, num_urls_crawled } => {
            reporter.progress_update(*num_urls_to_crawl, *num_urls_crawled)
        },
        ProgressReport::ProgressMessage { message } => reporter.progress_message(message.as_str()),
        ProgressReport::StateChanged { state } => reporter.crawler_state_changed(*state),
        ProgressReport::End => reporter.end(),
    }
}

/// A report tagged with the position of the seed it comes from, as the
/// telemetry consumer receives it.
#[derive(Clone, Debug)]
pub enum CrawlerProcessEvent {
    Begin { crawler_index: usize, url: WebUrl },
    ProgressUpdate { crawler_index: usize, num_urls_to_crawl: usize, num_urls_crawled: usize },
    ProgressMessage { crawler_index: usize, message: String },
    CrawlerStateChanged { crawler_index: usize, state: CrawlerState },
    End { crawler_index: usize },
}

impl CrawlerProcessEvent {
    pub open spec fn index_of(&self) -> usize {
        match self {
            CrawlerProcessEvent::Begin { crawler_index, .. } => *crawler_index,
            CrawlerProcessEvent::ProgressUpdate { crawler_index, .. } => *crawler_index,
            CrawlerProcessEvent::ProgressMessage { crawler_index, .. } => *crawler_index,
            CrawlerProcessEvent::CrawlerStateChanged { crawler_index, .. } => *crawler_index,
            CrawlerProcessEvent::End { crawler_index } => *crawler_index,
        }
    }

    /// The position of the seed that the event comes from.
    pub fn crawler_index(&self) -> (r: usize)
        ensures
            r == self.index_of(),
    {
        match self {
            CrawlerProcessEvent::Begin { crawler_index, .. } => *crawler_index,
            CrawlerProcessEvent::ProgressUpdate { crawler_index, .. } => *crawler_index,
            CrawlerProcessEvent::ProgressMessage { crawler_index, .. } => *crawler_index,
            CrawlerProcessEvent::CrawlerStateChanged { crawler_index, .. } => *crawler_index,
            CrawlerProcessEvent::End { crawler_index } => *crawler_index,
        }
    }
}

} // verus!
