use vstd::prelude::*;
use crate::config::CrawlerConfig;
use crate::seed_crawler::{CrawlPhase, SeedCrawler};
use crate::summary::{CrawlSummary, PageSummaryView};
use crate::web_url::{WebUrl, WebUrlView};

verus! {

pub open spec fn outcome_views(s: Seq<Option<CrawlSummary>>) -> Seq<Option<Seq<PageSummaryView>>> {
    s.map_values(
        |o: Option<CrawlSummary>|
            match o {
                Some(c) => Some(c@),
                None => None,
            },
    )
}

/// The summaries of the seeds whose crawl finished, in seed order.
pub open spec fn succeeded(s: Seq<Option<Seq<PageSummaryView>>>) -> Seq<Seq<PageSummaryView>>
    decreases s.len(),
{
    if s.len() == 0 {
        Seq::empty()
    } else {
        let rest = succeeded(s.drop_last());
        match s.last() {
            Some(c) => rest.push(c),
            None => rest,
        }
    }
}

/// The summaries of the finished seeds of two runs are those of the first,
/// then those of the second.
pub proof fn lemma_succeeded_concat(a: Seq<Option<Seq<PageSummaryView>>>, b: Seq<Option<Seq<PageSummaryView>>>)
    ensures
        succeeded(a + b) == succeeded(a) + succeeded(b),
    decreases b.len(),
{
    if b.len() == 0 {
        assert(a + b =~= a);
        assert(succeeded(a) + Seq::<Seq<PageSummaryView>>::empty() =~= succeeded(a));
    } else {
        lemma_succeeded_concat(a, b.drop_last());
        assert((a + b).drop_last() =~= a + b.drop_last());
        match b.last() {
            Some(c) => {
                assert(succeeded(a) + succeeded(b.drop_last()).push(c) =~= (succeeded(a)
                    + succeeded(b.drop_last())).push(c));
            },
            None => {},
        }
    }
}

/// A seed whose crawl fails contributes nothing, and changes nothing of what
/// the other seeds contribute: the result is the summaries of the seeds before
/// it, then those of the seeds after it.
pub proof fn lemma_failed_seed_is_dropped(s: Seq<Option<Seq<PageSummaryView>>>, i: int)
    requires
        0 <= i < s.len(),
        s[i] is None,
    ensures
        succeeded(s) == succeeded(s.take(i)) + succeeded(s.skip(i + 1)),
{
    assert(s =~= s.take(i) + (seq![s[i]] + s.skip(i + 1)));
    lemma_succeeded_concat(s.take(i), seq![s[i]] + s.skip(i + 1));
    lemma_succeeded_concat(seq![s[i]], s.skip(i + 1));
    assert(seq![s[i]].drop_last() =~= Seq::<Option<Seq<PageSummaryView>>>::empty());
    assert(succeeded(Seq::<Option<Seq<PageSummaryView>>>::empty()) == Seq::<Seq<PageSummaryView>>::empty());
    assert(seq![s[i]].last() == s[i]);
    assert(succeeded(seq![s[i]]) =~= Seq::<Seq<PageSummaryView>>::empty());
    assert(Seq::<Seq<PageSummaryView>>::empty() + succeeded(s.skip(i + 1)) =~= succeeded(s.skip(i + 1)));
}

/// The seeds of a run, and the settings that each seed's crawl gets a copy of.
pub struct MultiCrawler {
    crawler_config: CrawlerConfig,
    seeds: Vec<WebUrl>,
}

impl MultiCrawler {
    pub closed spec fn config_view(&self) -> CrawlerConfig {
        self.crawler_config
    }

    pub closed spec fn seeds_view(&self) -> Seq<WebUrlView> {
        self.seeds@.map_values(|u: WebUrl| u@)
    }

    pub fn new(crawler_config: CrawlerConfig) -> (r: MultiCrawler)
        ensures
            r.config_view() == crawler_config,
            r.seeds_view() == Seq::<WebUrlView>::empty(),
    {
        let r = MultiCrawler { crawler_config, seeds: Vec::new() };
        assert(r.seeds_view() =~= Seq::<WebUrlView>::empty());
        r
    }

    pub fn add_seed(&mut self, seed: WebUrl)
        ensures
            final(self).seeds_view() == old(self).seeds_view().push(seed@),
            final(self).config_view() == old(self).config_view(),
    {
        let ghost before = self.seeds@;
        self.seeds.push(seed);
        assert(self.seeds@.map_values(|u: WebUrl| u@) =~= before.map_values(|u: WebUrl| u@).push(
            seed@,
        ));
    }

    pub fn seeds(&self) -> (r: &Vec<WebUrl>)
        ensures
            r@.map_values(|u: WebUrl| u@) == self.seeds_view(),
    {
        &self.seeds
    }

    /// One crawl per seed, each tagged with the seed's position, each with its
    /// own copy of the settings and its own frontier.
    pub fn crawlers(&self) -> (r: Vec<SeedCrawler>)
        ensures
            r.len() == self.seeds_view().len(),
            forall|i: int|
                0 <= i < r.len() ==> {
                    let v = (#[trigger] r@[i])@;
                    &&& v.index == i
                    &&& v.seed == self.seeds_view()[i]
                    &&& v.delay == self.config_view().crawl_delay_ms
                    &&& v.phase == CrawlPhase::Idle
                    &&& v.policy is None
                    &&& v.frontier.pending.len() == 0
                    &&& v.frontier.visited.len() == 0
                    &&& v.summary.len() == 0
                    &&& v.current is None
                    &&& v.wf()
                },
    {
        let mut r: Vec<SeedCrawler> = Vec::new();
        let mut i: usize = 0;
        while i < self.seeds.len()
            invariant
                i <= self.seeds.len(),
                r.len() == i,
                forall|j: int|
                    0 <= j < i ==> {
                        let v = (#[trigger] r@[j])@;
                        &&& v.index == j
                        &&& v.seed == self.seeds_view()[j]
                        &&& v.delay == self.config_view().crawl_delay_ms
                        &&& v.phase == CrawlPhase::Idle
                        &&& v.policy is None
                        &&& v.frontier.pending.len() == 0
                        &&& v.frontier.visited.len() == 0
                        &&& v.summary.len() == 0
                        &&& v.current is None
                        &&& v.wf()
                    },
            decreases self.seeds.len() - i,
        {
            let c = SeedCrawler::new(i, self.seeds[i].duplicate(), &self.crawler_config);
            r.push(c);
            i = i + 1;
        }
        r
    }

    /// The summaries of the seeds whose crawl finished, in seed order; a seed
    /// whose crawl failed (`None`) is left out.
    pub fn gather(results: Vec<Option<CrawlSummary>>) -> (r: Vec<CrawlSummary>)
        ensures
            r@.map_values(|c: CrawlSummary| c@) == succeeded(outcome_views(results@)),
    {
        let ghost all = outcome_views(results@);
        let mut rest = results;
        let mut r: Vec<CrawlSummary> = Vec::new();
        let mut k: usize = 0;
        while rest.len() > 0
            invariant
                k <= all.len(),
                k + rest.len() == all.len(),
                all.len() <= usize::MAX,
                outcome_views(rest@) == all.skip(k as int),
                r@.map_values(|c: CrawlSummary| c@) == succeeded(all.take(k as int)),
            decreases rest.len(),
        {
            let ghost before = rest@;
            let ghost r0 = r@;
            let o = rest.remove(0);
            assert(outcome_views(rest@) =~= outcome_views(before).skip(1));
            assert(all.skip(k as int).skip(1) =~= all.skip(k + 1));
            assert(all.take(k + 1).drop_last() =~= all.take(k as int));
            assert(all.take(k + 1).last() == outcome_views(before)[0]);
            match o {
                Some(c) => {
                    r.push(c);
                    assert(r@.map_values(|c: CrawlSummary| c@) =~= r0.map_values(
                        |c: CrawlSummary| c@,
                    ).push(c@));
                },
                None => {},
            }
            k = k + 1;
        }
        assert(all.take(k as int) =~= all);
        r
    }
}

} // verus!
