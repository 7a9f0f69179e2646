use vstd::prelude::*;
use crate::web_url::{WebUrl, WebUrlView};

verus! {

/// What is recorded of one page.
pub struct PageSummaryView {
    pub url: WebUrlView,
    pub status_code: u16,
    pub content_type: Seq<char>,
    pub title: Seq<char>,
    pub num_outgoing_links: usize,
}

/// The record of one visited page.
#[derive(Clone, Debug)]
pub struct PageSummary {
    pub url: WebUrl,
    pub status_code: u16,
    pub content_type: String,
    pub title: String,
    pub num_outgoing_links: usize,
}

impl View for PageSummary {
    type V = PageSummaryView;

    open spec fn view(&self) -> PageSummaryView {
        PageSummaryView {
            url: self.url@,
            status_code: self.status_code,
            content_type: self.content_type@,
            title: self.title@,
            num_outgoing_links: self.num_outgoing_links,
        }
    }
}

/// The record of a page that was not read: a status code alone.
pub open spec fn status_only(url: WebUrlView, status_code: u16) -> PageSummaryView {
    PageSummaryView {
        url,
        status_code,
        content_type: Seq::empty(),
        title: Seq::empty(),
        num_outgoing_links: 0,
    }
}

impl PageSummary {
    pub fn new(
        url: WebUrl,
        status_code: u16,
        content_type: String,
        title: String,
        num_outgoing_links: usize,
    ) -> (r: PageSummary)
        ensures
            r@ == (PageSummaryView {
                url: url@,
                status_code,
                content_type: content_type@,
                title: title@,
                num_outgoing_links,
            }),
    {
        PageSummary { url, status_code, content_type, title, num_outgoing_links }
    }

    pub fn from_status_code(url: WebUrl, status_code: u16) -> (r: PageSummary)
        ensures
            r@ == status_only(url@, status_code),
    {
        PageSummary {
            url,
            status_code,
            content_type: String::new(),
            title: String::new(),
            num_outgoing_links: 0,
        }
    }
}

pub open spec fn summary_views(s: Seq<PageSummary>) -> Seq<PageSummaryView> {
    s.map_values(|p: PageSummary| p@)
}

/// The pages of one seed's crawl, in the order they were recorded.
#[derive(Clone, Debug)]
pub struct CrawlSummary {
    crawl_summaries: Vec<PageSummary>,
}

impl View for CrawlSummary {
    type V = Seq<PageSummaryView>;

    closed spec fn view(&self) -> Seq<PageSummaryView> {
        summary_views(self.crawl_summaries@)
    }
}

impl CrawlSummary {
    pub fn new(crawl_summaries: Vec<PageSummary>) -> (r: CrawlSummary)
        ensures
            r@ == summary_views(crawl_summaries@),
    {
        CrawlSummary { crawl_summaries }
    }

    pub fn page_summaries(&self) -> (r: &Vec<PageSummary>)
        ensures
            summary_views(r@) == self@,
    {
        &self.crawl_summaries
    }

    pub fn add_page_summary(&mut self, page_summary: PageSummary)
        ensures
            final(self)@ == old(self)@.push(page_summary@),
    {
        let ghost before = self.crawl_summaries@;
        self.crawl_summaries.push(page_summary);
        assert(summary_views(self.crawl_summaries@) =~= summary_views(before).push(page_summary@));
    }
}

impl Default for CrawlSummary {
    fn default() -> (r: CrawlSummary)
        ensures
            r@ == Seq::<PageSummaryView>::empty(),
    {
        let r = CrawlSummary { crawl_summaries: Vec::new() };
        assert(summary_views(r.crawl_summaries@) =~= Seq::<PageSummaryView>::empty());
        r
    }
}

} // verus!
