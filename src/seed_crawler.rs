use vstd::prelude::*;
use vstd::utf8::is_ascii_chars;
use crate::config::{delay_for_rate, CrawlerConfig};
use crate::events::{report_views, CrawlerState, ProgressReport, ReportView};
use crate::frontier::{keys, lemma_without_key_len, CrawlContext, FrontierView};
use crate::page::{CrawlError, CrawlResponse};
use crate::robots::{is_success, policy_allows, RobotsTxtMatcher, RobotsTxtSource};
use crate::summary::{status_only, CrawlSummary, PageSummary, PageSummaryView};
use crate::web_url::{opt_url_view, WebUrl, WebUrlView};

verus! {

/// The name the crawler gives itself when it reads a robots file.
pub const CRAWLER_AGENT: &'static str = "rusty-spider";

/// Where one seed's crawl stands.
#[derive(Clone, Copy, Debug, PartialEq, Eq, Structural)]
pub enum CrawlPhase {
    Idle,
    Crawling,
    Paused,
    Terminated,
}

/// What the robots fetch for the seed's host gave.
#[derive(Clone, Debug)]
pub enum RobotsFetch {
    /// The server answered with `status`; `body` is what was read on success.
    Response { status: u16, body: String },
    /// No answer came.
    TransportError,
}

/// The outside work that the crawl asks for next.
#[derive(Clone, Debug)]
pub enum CrawlCommand {
    /// Fetch the robots file of this URL's host and hand it to `robots_loaded`.
    LoadRobots(WebUrl),
    /// Fetch this page and hand the outcome to `page_fetched`.
    Fetch(WebUrl),
    /// Wait this many milliseconds, then call `slept`.
    Sleep(u64),
    /// The crawl is over; its summary is complete.
    Finish,
    /// The crawl failed; its summary is dropped.
    Abort,
}

pub enum CommandView {
    LoadRobots(WebUrlView),
    Fetch(WebUrlView),
    Sleep(u64),
    Finish,
    Abort,
}

impl View for CrawlCommand {
    type V = CommandView;

    open spec fn view(&self) -> CommandView {
        match self {
            CrawlCommand::LoadRobots(u) => CommandView::LoadRobots(u@),
            CrawlCommand::Fetch(u) => CommandView::Fetch(u@),
            CrawlCommand::Sleep(d) => CommandView::Sleep(*d),
            CrawlCommand::Finish => CommandView::Finish,
            CrawlCommand::Abort => CommandView::Abort,
        }
    }
}

/// The reports to hand on, in order, and the command to carry out.
pub struct SeedStep {
    pub reports: Vec<ProgressReport>,
    pub command: CrawlCommand,
}

/// The state of one seed's crawl, in spec terms.
pub struct SeedView {
    pub index: usize,
    pub seed: WebUrlView,
    pub delay: Option<u64>,
    pub phase: CrawlPhase,
    /// The robots file and agent, once loaded.
    pub policy: Option<(Seq<char>, Seq<char>)>,
    pub frontier: FrontierView,
    pub summary: Seq<PageSummaryView>,
    /// The page whose fetch is awaited.
    pub current: Option<WebUrlView>,
}

/// What one step does: the state after it, its reports and its command.
pub struct StepView {
    pub state: SeedView,
    pub reports: Seq<ReportView>,
    pub command: CommandView,
}

pub open spec fn crawling_message(u: WebUrlView) -> Seq<char> {
    "Crawling "@ + u.text
}

/// The record of a fetched page, under the URL that was fetched.
pub open spec fn page_record(url: WebUrlView, r: CrawlResponse) -> PageSummaryView {
    PageSummaryView {
        url,
        status_code: r.status_code,
        content_type: r.content_type@,
        title: r.title@,
        num_outgoing_links: r.outgoing_links.len(),
    }
}

impl SeedView {
    pub open spec fn allows(self, path: Seq<char>) -> bool {
        match self.policy {
            Some((content, agent)) => policy_allows(content, agent, path),
            None => true,
        }
    }

    pub open spec fn wf(self) -> bool {
        &&& self.frontier.wf()
        &&& self.seed.wf()
        &&& (self.policy matches Some((c, a)) ==> is_ascii_chars(a))
        &&& (self.current matches Some(u) ==> u.wf() && u.is_normalized())
        &&& forall|k: int| 0 <= k < self.summary.len() ==> (#[trigger] self.summary[k]).url.is_normalized()
    }

    /// The crawl ends normally: `End` is reported.
    pub open spec fn finish(self) -> StepView {
        StepView {
            state: SeedView { phase: CrawlPhase::Terminated, current: None, ..self },
            reports: seq![ReportView::End],
            command: CommandView::Finish,
        }
    }

    /// The crawl fails: nothing more is reported.
    pub open spec fn abort(self) -> StepView {
        StepView {
            state: SeedView { phase: CrawlPhase::Terminated, current: None, ..self },
            reports: Seq::empty(),
            command: CommandView::Abort,
        }
    }

    /// The loop of the crawl, from its top: stop when cancelled or when no URL
    /// is pending; else report the counts, take a URL and mark it visited; a
    /// URL that robots forbids is recorded with status 403 and the loop goes
    /// on after the politeness pause; any other is fetched.
    pub open spec fn advance(self, cancelled: bool) -> StepView
        decreases self.frontier.pending.len(),
    {
        let f = self.frontier;
        if cancelled || f.pending.len() == 0 {
            self.finish()
        } else {
            let update = ReportView::ProgressUpdate {
                num_urls_to_crawl: f.pending.len() as usize,
                num_urls_crawled: f.visited.len() as usize,
            };
            let u = f.pending.last();
            let f2 = f.dequeue().0.mark_visited(u);
            if self.allows(u.path) {
                StepView {
                    state: SeedView { frontier: f2, current: Some(u), ..self },
                    reports: seq![
                        update,
                        ReportView::ProgressMessage { message: crawling_message(u) },
                    ],
                    command: CommandView::Fetch(u),
                }
            } else {
                let next = SeedView {
                    frontier: f2,
                    summary: self.summary.push(status_only(u, 403)),
                    ..self
                };
                if self.delay is Some && f2.pending.len() > 0 {
                    StepView {
                        state: SeedView { phase: CrawlPhase::Paused, ..next },
                        reports: seq![
                            update,
                            ReportView::StateChanged { state: CrawlerState::Paused },
                        ],
                        command: CommandView::Sleep(self.delay->Some_0),
                    }
                } else {
                    proof {
                        lemma_without_key_len(f.pending.drop_last(), u.normalized().key);
                    }
                    let rest = next.advance(cancelled);
                    StepView { reports: seq![update] + rest.reports, ..rest }
                }
            }
        }
    }

    /// After a page: pause when a delay is set and URLs are pending (unless
    /// cancelled, which ends the crawl), else go on at the top of the loop.
    pub open spec fn after_page(self, cancelled: bool) -> StepView {
        if self.delay is Some && self.frontier.pending.len() > 0 {
            if cancelled {
                self.finish()
            } else {
                StepView {
                    state: SeedView { phase: CrawlPhase::Paused, ..self },
                    reports: seq![ReportView::StateChanged { state: CrawlerState::Paused }],
                    command: CommandView::Sleep(self.delay->Some_0),
                }
            }
        } else {
            self.advance(cancelled)
        }
    }

    /// The start: report `Begin` and ask for the robots file.
    pub open spec fn begin(self) -> StepView {
        StepView {
            state: self,
            reports: seq![ReportView::Begin],
            command: CommandView::LoadRobots(self.seed),
        }
    }

    /// The policy that a robots fetch gives: the file on success, an empty
    /// file on 404, none on any other outcome.
    pub open spec fn policy_of(fetch: RobotsFetch) -> Option<Seq<char>> {
        match fetch {
            RobotsFetch::Response { status, body } => if is_success(status) {
                Some(body@)
            } else if status == 404 {
                Some(Seq::empty())
            } else {
                None
            },
            RobotsFetch::TransportError => None,
        }
    }

    /// With the robots file: seed the frontier, report `Crawling` and enter the
    /// loop; without it the crawl fails.
    pub open spec fn robots_loaded(self, fetch: RobotsFetch, cancelled: bool) -> StepView {
        match Self::policy_of(fetch) {
            None => self.abort(),
            Some(content) => {
                let start = SeedView {
                    phase: CrawlPhase::Crawling,
                    policy: Some((content, CRAWLER_AGENT@)),
                    frontier: self.frontier.enqueue(self.seed),
                    ..self
                };
                let rest = start.advance(cancelled);
                StepView {
                    reports: seq![ReportView::StateChanged { state: CrawlerState::Crawling }]
                        + rest.reports,
                    ..rest
                }
            },
        }
    }

    /// The state once the outcome of a fetch is recorded: a page adds its
    /// internal links and its record, an HTTP status failure is recorded with
    /// that status.
    pub open spec fn recorded(self, outcome: Result<CrawlResponse, CrawlError>) -> SeedView {
        match outcome {
            Ok(r) => SeedView {
                frontier: self.frontier.enqueue_all(r.internal_links@.map_values(|w: WebUrl| w@)),
                summary: self.summary.push(page_record(self.current->Some_0, r)),
                current: None,
                ..self
            },
            Err(CrawlError::HttpError(status)) => SeedView {
                summary: self.summary.push(status_only(self.current->Some_0, status)),
                current: None,
                ..self
            },
            Err(_) => self,
        }
    }

    /// After the fetch of the current page: the outcome is recorded and the
    /// loop goes on, but for a failure other than an HTTP status, which ends
    /// the crawl.
    pub open spec fn page_done(self, outcome: Result<CrawlResponse, CrawlError>, cancelled: bool) -> StepView {
        match outcome {
            Ok(_) => self.recorded(outcome).after_page(cancelled),
            Err(CrawlError::HttpError(_)) => self.recorded(outcome).after_page(cancelled),
            Err(_) => self.abort(),
        }
    }

    /// After the pause: report `Crawling` and go on at the top of the loop.
    pub open spec fn slept(self, cancelled: bool) -> StepView {
        let rest = SeedView { phase: CrawlPhase::Crawling, ..self }.advance(cancelled);
        StepView {
            reports: seq![ReportView::StateChanged { state: CrawlerState::Crawling }]
                + rest.reports,
            ..rest
        }
    }
}


pub open spec fn step_view(s: SeedStep) -> (Seq<ReportView>, CommandView) {
    (report_views(s.reports@), s.command@)
}

/// The crawl of one seed, as a machine that decides; the outside work it asks
/// for (robots fetch, page fetch, pause) is done by its driver.
pub struct SeedCrawler {
    index: usize,
    seed: WebUrl,
    crawl_delay_ms: Option<u64>,
    phase: CrawlPhase,
    matcher: Option<RobotsTxtMatcher>,
    context: CrawlContext,
    summary: CrawlSummary,
    current: Option<WebUrl>,
}

impl View for SeedCrawler {
    type V = SeedView;

    closed spec fn view(&self) -> SeedView {
        SeedView {
            index: self.index,
            seed: self.seed@,
            delay: self.crawl_delay_ms,
            phase: self.phase,
            policy: match self.matcher {
                Some(m) => Some((m.content_view(), m.agent_view())),
                None => None,
            },
            frontier: self.context@,
            summary: self.summary@,
            current: opt_url_view(self.current),
        }
    }
}

proof fn lemma_agent_is_ascii()
    ensures
        is_ascii_chars(CRAWLER_AGENT@),
{
    reveal_strlit("rusty-spider");
}

impl SeedCrawler {
    /// A crawl of `seed`, the seed at position `index` among all seeds.
    pub fn new(index: usize, seed: WebUrl, config: &CrawlerConfig) -> (r: SeedCrawler)
        ensures
            r@ == (SeedView {
                index,
                seed: seed@,
                delay: config.crawl_delay_ms,
                phase: CrawlPhase::Idle,
                policy: None,
                frontier: FrontierView { pending: Seq::empty(), visited: Seq::empty() },
                summary: Seq::empty(),
                current: None,
            }),
            r@.wf(),
    {
        proof {
            use_type_invariant(&seed);
        }
        SeedCrawler {
            index,
            seed,
            crawl_delay_ms: config.crawl_delay_ms,
            phase: CrawlPhase::Idle,
            matcher: None,
            context: CrawlContext::new(),
            summary: CrawlSummary::default(),
            current: None,
        }
    }

    pub fn index(&self) -> (r: usize)
        ensures
            r == self@.index,
    {
        self.index
    }

    pub fn seed(&self) -> (r: &WebUrl)
        ensures
            r@ == self@.seed,
    {
        &self.seed
    }

    pub fn phase(&self) -> (r: CrawlPhase)
        ensures
            r == self@.phase,
    {
        self.phase
    }

    /// The pages recorded so far.
    pub fn summary(&self) -> (r: &CrawlSummary)
        ensures
            r@ == self@.summary,
    {
        &self.summary
    }

    pub fn into_summary(self) -> (r: CrawlSummary)
        ensures
            r@ == self@.summary,
    {
        self.summary
    }

    /// The first step: report `Begin` and ask for the robots file of the
    /// seed's host.
    pub fn begin(&mut self) -> (r: SeedStep)
        requires
            old(self)@.phase == CrawlPhase::Idle,
        ensures
            final(self)@ == old(self)@.begin().state,
            step_view(r) == (old(self)@.begin().reports, old(self)@.begin().command),
    {
        let mut reports: Vec<ProgressReport> = Vec::new();
        reports.push(ProgressReport::Begin);
        assert(report_views(reports@) =~= seq![ReportView::Begin]);
        SeedStep { reports, command: CrawlCommand::LoadRobots(self.seed.duplicate()) }
    }

    /// With the outcome of the robots fetch: enter the loop, or fail.
    pub fn robots_loaded(&mut self, fetch: RobotsFetch, cancelled: bool) -> (r: SeedStep)
        requires
            old(self)@.wf(),
            old(self)@.phase == CrawlPhase::Idle,
            old(self)@.current is None,
        ensures
            final(self)@ == old(self)@.robots_loaded(fetch, cancelled).state,
            step_view(r) == (
                old(self)@.robots_loaded(fetch, cancelled).reports,
                old(self)@.robots_loaded(fetch, cancelled).command,
            ),
            final(self)@.wf(),
    {
        proof {
            lemma_agent_is_ascii();
        }
        let ghost spec_policy = SeedView::policy_of(fetch);
        let source = match fetch {
            RobotsFetch::Response { status, body } => RobotsTxtSource::from_response(
                status,
                body,
                CRAWLER_AGENT,
            ),
            RobotsFetch::TransportError => {
                self.phase = CrawlPhase::Terminated;
                let reports: Vec<ProgressReport> = Vec::new();
                assert(report_views(reports@) =~= Seq::<ReportView>::empty());
                return SeedStep { reports, command: CrawlCommand::Abort };
            },
        };
        let source = match source {
            Ok(s) => s,
            Err(_) => {
                self.phase = CrawlPhase::Terminated;
                let reports: Vec<ProgressReport> = Vec::new();
                assert(report_views(reports@) =~= Seq::<ReportView>::empty());
                return SeedStep { reports, command: CrawlCommand::Abort };
            },
        };
        assert(spec_policy == Some(source.content_view()));
        self.matcher = Some(source.view().matcher());
        self.context.add_url_to_crawl(&self.seed);
        self.phase = CrawlPhase::Crawling;
        let mut reports: Vec<ProgressReport> = Vec::new();
        reports.push(ProgressReport::StateChanged { state: CrawlerState::Crawling });
        assert(report_views(reports@) =~= seq![
            ReportView::StateChanged { state: CrawlerState::Crawling },
        ]);
        self.advance(reports, cancelled)
    }

    /// After a page: the politeness pause, or the next turn of the loop.
    fn after_page(&mut self, cancelled: bool) -> (r: SeedStep)
        requires
            old(self)@.wf(),
            old(self)@.policy is Some,
            old(self)@.phase == CrawlPhase::Crawling,
            old(self)@.current is None,
        ensures
            final(self)@ == old(self)@.after_page(cancelled).state,
            step_view(r) == (
                old(self)@.after_page(cancelled).reports,
                old(self)@.after_page(cancelled).command,
            ),
            final(self)@.wf(),
    {
        if let Some(delay) = self.crawl_delay_ms {
            if !self.context.is_crawling_complete() {
                let mut reports: Vec<ProgressReport> = Vec::new();
                if cancelled {
                    reports.push(ProgressReport::End);
                    assert(report_views(reports@) =~= seq![ReportView::End]);
                    self.phase = CrawlPhase::Terminated;
                    return SeedStep { reports, command: CrawlCommand::Finish };
                }
                reports.push(ProgressReport::StateChanged { state: CrawlerState::Paused });
                assert(report_views(reports@) =~= seq![
                    ReportView::StateChanged { state: CrawlerState::Paused },
                ]);
                self.phase = CrawlPhase::Paused;
                return SeedStep { reports, command: CrawlCommand::Sleep(delay) };
            }
        }
        let reports: Vec<ProgressReport> = Vec::new();
        assert(report_views(reports@) =~= Seq::<ReportView>::empty());
        let r = self.advance(reports, cancelled);
        assert(Seq::<ReportView>::empty() + old(self)@.advance(cancelled).reports =~= old(
            self,
        )@.advance(cancelled).reports);
        r
    }

    /// With the outcome of the fetch of the current page.
    pub fn page_fetched(&mut self, outcome: Result<CrawlResponse, CrawlError>, cancelled: bool) -> (r:
        SeedStep)
        requires
            old(self)@.wf(),
            old(self)@.policy is Some,
            old(self)@.phase == CrawlPhase::Crawling,
            old(self)@.current is Some,
        ensures
            final(self)@ == old(self)@.page_done(outcome, cancelled).state,
            step_view(r) == (
                old(self)@.page_done(outcome, cancelled).reports,
                old(self)@.page_done(outcome, cancelled).command,
            ),
            final(self)@.wf(),
    {
        let url = match self.current.take() {
            Some(u) => u,
            None => {
                return SeedStep { reports: Vec::new(), command: CrawlCommand::Abort };
            },
        };
        match outcome {
            Ok(response) => {
                self.context.add_urls_to_crawl(&response.internal_links);
                let n = response.outgoing_links.len();
                let record = PageSummary::new(
                    url,
                    response.status_code,
                    response.content_type,
                    response.title,
                    n,
                );
                self.summary.add_page_summary(record);
                self.after_page(cancelled)
            },
            Err(e) => {
                match e {
                    CrawlError::HttpError(status) => {
                        self.summary.add_page_summary(PageSummary::from_status_code(url, status));
                        self.after_page(cancelled)
                    },
                    _ => {
                        self.phase = CrawlPhase::Terminated;
                        let reports: Vec<ProgressReport> = Vec::new();
                        assert(report_views(reports@) =~= Seq::<ReportView>::empty());
                        SeedStep { reports, command: CrawlCommand::Abort }
                    },
                }
            },
        }
    }

    /// After the pause: report `Crawling` and go on with the loop.
    pub fn slept(&mut self, cancelled: bool) -> (r: SeedStep)
        requires
            old(self)@.wf(),
            old(self)@.policy is Some,
            old(self)@.phase == CrawlPhase::Paused,
            old(self)@.current is None,
        ensures
            final(self)@ == old(self)@.slept(cancelled).state,
            step_view(r) == (old(self)@.slept(cancelled).reports, old(self)@.slept(cancelled).command),
            final(self)@.wf(),
    {
        self.phase = CrawlPhase::Crawling;
        let mut reports: Vec<ProgressReport> = Vec::new();
        reports.push(ProgressReport::StateChanged { state: CrawlerState::Crawling });
        assert(report_views(reports@) =~= seq![
            ReportView::StateChanged { state: CrawlerState::Crawling },
        ]);
        self.advance(reports, cancelled)
    }

    /// The loop of the crawl from its top, after the reports in `prefix`.
    fn advance(&mut self, prefix: Vec<ProgressReport>, cancelled: bool) -> (r: SeedStep)
        requires
            old(self)@.wf(),
            old(self)@.policy is Some,
            old(self)@.phase == CrawlPhase::Crawling,
            old(self)@.current is None,
        ensures
            final(self)@ == old(self)@.advance(cancelled).state,
            report_views(r.reports@) == report_views(prefix@) + old(self)@.advance(
                cancelled,
            ).reports,
            r.command@ == old(self)@.advance(cancelled).command,
            final(self)@.wf(),
    {
        let ghost goal = self@.advance(cancelled);
        let ghost before = report_views(prefix@);
        let mut reports = prefix;
        loop
            invariant
                goal == old(self)@.advance(cancelled),
                before == report_views(prefix@),
                self@.wf(),
                self@.policy is Some,
                self@.phase == CrawlPhase::Crawling,
                self@.current is None,
                self@.advance(cancelled).state == goal.state,
                self@.advance(cancelled).command == goal.command,
                report_views(reports@) + self@.advance(cancelled).reports == before + goal.reports,
            decreases self@.frontier.pending.len(),
        {
            let ghost here = self@;
            if cancelled || self.context.is_crawling_complete() {
                let ghost r0 = reports@;
                reports.push(ProgressReport::End);
                assert(report_views(reports@) =~= report_views(r0).push(ReportView::End));
                assert(report_views(r0) + seq![ReportView::End] =~= report_views(r0).push(ReportView::End));
                self.phase = CrawlPhase::Terminated;
                self.current = None;
                assert(here.advance(cancelled) == here.finish());
                assert(self@ == here.finish().state);
                return SeedStep { reports, command: CrawlCommand::Finish };
            }
            let (num_urls_to_crawl, num_urls_crawled) = self.context.progress();
            let ghost r0 = reports@;
            reports.push(ProgressReport::ProgressUpdate { num_urls_to_crawl, num_urls_crawled });
            let ghost update = ReportView::ProgressUpdate { num_urls_to_crawl, num_urls_crawled };
            assert(report_views(reports@) =~= report_views(r0).push(update));
            let popped = self.context.pop_url_to_crawl();
            let url = match popped {
                Some(u) => u,
                None => {
                    return SeedStep { reports, command: CrawlCommand::Finish };
                },
            };
            self.context.mark_url_as_crawled(&url);
            proof {
                use_type_invariant(&url);
                lemma_without_key_len(here.frontier.pending.drop_last(), url@.normalized().key);
            }
            let allowed = match &self.matcher {
                Some(m) => m.check_path(url.path()),
                None => true,
            };
            assert(url@ == here.frontier.pending.last());
            assert(allowed == here.allows(url@.path));
            if allowed {
                let mut message = String::from_str("Crawling ");
                message.append(url.as_str());
                let ghost r1 = reports@;
                reports.push(ProgressReport::ProgressMessage { message });
                assert(report_views(reports@) =~= report_views(r1).push(
                    ReportView::ProgressMessage { message: crawling_message(url@) },
                ));
                assert(report_views(r0) + seq![
                    update,
                    ReportView::ProgressMessage { message: crawling_message(url@) },
                ] =~= report_views(reports@));
                self.current = Some(url.duplicate());
                assert(self@ == here.advance(cancelled).state);
                return SeedStep { reports, command: CrawlCommand::Fetch(url) };
            }
            self.summary.add_page_summary(PageSummary::from_status_code(url, 403));
            if let Some(delay) = self.crawl_delay_ms {
                if !self.context.is_crawling_complete() {
                    let ghost r1 = reports@;
                    reports.push(ProgressReport::StateChanged { state: CrawlerState::Paused });
                    assert(report_views(reports@) =~= report_views(r1).push(
                        ReportView::StateChanged { state: CrawlerState::Paused },
                    ));
                    assert(report_views(r0) + seq![
                        update,
                        ReportView::StateChanged { state: CrawlerState::Paused },
                    ] =~= report_views(reports@));
                    self.phase = CrawlPhase::Paused;
                    return SeedStep { reports, command: CrawlCommand::Sleep(delay) };
                }
            }
            assert(report_views(r0) + (seq![update] + self@.advance(cancelled).reports)
                =~= report_views(reports@) + self@.advance(cancelled).reports);
        }
    }
}


/// A seed whose robots file forbids every path gives one record, with status
/// 403 for the seed, and the crawl ends.
pub proof fn lemma_robots_forbidding_all(v: SeedView, fetch: RobotsFetch)
    requires
        v.wf(),
        v.phase == CrawlPhase::Idle,
        v.frontier == (FrontierView { pending: Seq::empty(), visited: Seq::empty() }),
        v.summary == Seq::<PageSummaryView>::empty(),
        SeedView::policy_of(fetch) is Some,
        forall|p: Seq<char>| !policy_allows(SeedView::policy_of(fetch)->Some_0, CRAWLER_AGENT@, p),
    ensures
        v.robots_loaded(fetch, false).command == CommandView::Finish,
        v.robots_loaded(fetch, false).state.phase == CrawlPhase::Terminated,
        v.robots_loaded(fetch, false).state.summary == seq![status_only(v.seed.normalized(), 403)],
{
    let content = SeedView::policy_of(fetch)->Some_0;
    let n = v.seed.normalized();
    let start = SeedView {
        phase: CrawlPhase::Crawling,
        policy: Some((content, CRAWLER_AGENT@)),
        frontier: v.frontier.enqueue(v.seed),
        ..v
    };
    assert(keys(v.frontier.visited) =~= Seq::<Seq<char>>::empty());
    assert(keys(v.frontier.pending) =~= Seq::<Seq<char>>::empty());
    assert(start.frontier.pending == seq![n]);
    let f2 = start.frontier.dequeue().0.mark_visited(n);
    assert(start.frontier.dequeue().0.pending =~= Seq::<WebUrlView>::empty());
    assert(f2.pending =~= Seq::<WebUrlView>::empty());
    assert(!start.allows(n.path));
    let next = SeedView {
        frontier: f2,
        summary: start.summary.push(status_only(n, 403)),
        ..start
    };
    assert(next.advance(false) == next.finish());
    assert(start.summary.push(status_only(n, 403)) =~= seq![status_only(n, 403)]);
}

/// Without a robots file (404), nothing is forbidden: the seed, normalized,
/// is the first page fetched.
pub proof fn lemma_missing_robots_fetches_seed(v: SeedView, fetch: RobotsFetch)
    requires
        v.wf(),
        v.phase == CrawlPhase::Idle,
        v.frontier == (FrontierView { pending: Seq::empty(), visited: Seq::empty() }),
        fetch matches RobotsFetch::Response { status, .. } && status == 404,
    ensures
        v.robots_loaded(fetch, false).command == CommandView::Fetch(v.seed.normalized()),
{
    assert(SeedView::policy_of(fetch) == Some(Seq::<char>::empty()));
    let start = SeedView {
        phase: CrawlPhase::Crawling,
        policy: Some((Seq::<char>::empty(), CRAWLER_AGENT@)),
        frontier: v.frontier.enqueue(v.seed),
        ..v
    };
    assert(keys(v.frontier.visited) =~= Seq::<Seq<char>>::empty());
    assert(keys(v.frontier.pending) =~= Seq::<Seq<char>>::empty());
    assert(start.frontier.pending == seq![v.seed.normalized()]);
    assert(start.allows(v.seed.normalized().path));
}

/// A rate of two requests per second pauses 500 ms between fetches.
pub proof fn lemma_two_per_second()
    ensures
        delay_for_rate(2) == 500,
{
}

/// When a delay is set, after each page that leaves URLs pending the crawl
/// pauses for that delay before the next fetch, and reports the pause.
pub proof fn lemma_pause_between_fetches(
    v: SeedView,
    outcome: Result<CrawlResponse, CrawlError>,
)
    requires
        v.phase == CrawlPhase::Crawling,
        v.delay is Some,
        outcome is Ok || outcome matches Err(CrawlError::HttpError(_)),
        v.recorded(outcome).frontier.pending.len() > 0,
    ensures
        v.page_done(outcome, false).command == CommandView::Sleep(v.delay->Some_0),
        v.page_done(outcome, false).state.phase == CrawlPhase::Paused,
        v.page_done(outcome, false).reports == seq![
            ReportView::StateChanged { state: CrawlerState::Paused },
        ],
        v.page_done(outcome, false).state.slept(false).reports[0] == (ReportView::StateChanged {
            state: CrawlerState::Crawling,
        }),
{
}

} // verus!
