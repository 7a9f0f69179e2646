use vstd::prelude::*;
use crate::events::{CrawlerProcessEvent, CrawlerState};
use crate::web_url::{WebUrl, WebUrlView};

verus! {

/// One row of the progress display, in spec terms.
pub struct DisplayRowView {
    pub index: usize,
    pub url: WebUrlView,
    pub num_urls_to_crawl: usize,
    pub num_urls_crawled: usize,
    pub state: CrawlerState,
    pub message: Option<Seq<char>>,
}

/// What the display shows of one running crawl.
#[derive(Debug)]
pub struct CrawlerDisplayInfo {
    pub index: usize,
    pub url: WebUrl,
    pub num_urls_to_crawl: usize,
    pub num_urls_crawled: usize,
    pub state: CrawlerState,
    pub message: Option<String>,
}

impl View for CrawlerDisplayInfo {
    type V = DisplayRowView;

    open spec fn view(&self) -> DisplayRowView {
        DisplayRowView {
            index: self.index,
            url: self.url@,
            num_urls_to_crawl: self.num_urls_to_crawl,
            num_urls_crawled: self.num_urls_crawled,
            state: self.state,
            message: match self.message {
                Some(m) => Some(m@),
                None => None,
            },
        }
    }
}

impl CrawlerDisplayInfo {
    pub fn duplicate(&self) -> (r: CrawlerDisplayInfo)
        ensures
            r@ == self@,
    {
        CrawlerDisplayInfo {
            index: self.index,
            url: self.url.duplicate(),
            num_urls_to_crawl: self.num_urls_to_crawl,
            num_urls_crawled: self.num_urls_crawled,
            state: self.state,
            message: match &self.message {
                Some(m) => Some(m.clone()),
                None => None,
            },
        }
    }
}

pub open spec fn row_views(s: Seq<CrawlerDisplayInfo>) -> Seq<DisplayRowView> {
    s.map_values(|c: CrawlerDisplayInfo| c@)
}

/// Rows in strictly ascending order of crawler index.
pub open spec fn sorted(s: Seq<DisplayRowView>) -> bool {
    forall|i: int, j: int| 0 <= i < j < s.len() ==> (#[trigger] s[i]).index < (#[trigger] s[j]).index
}

pub open spec fn below(i: usize) -> spec_fn(DisplayRowView) -> bool {
    |r: DisplayRowView| r.index < i
}

pub open spec fn above(i: usize) -> spec_fn(DisplayRowView) -> bool {
    |r: DisplayRowView| r.index > i
}

pub open spec fn other_than(i: usize) -> spec_fn(DisplayRowView) -> bool {
    |r: DisplayRowView| r.index != i
}

/// The rows with `row` in the place of its index, replacing the row there.
pub open spec fn upsert(s: Seq<DisplayRowView>, row: DisplayRowView) -> Seq<DisplayRowView> {
    s.filter(below(row.index)) + seq![row] + s.filter(above(row.index))
}

/// The rows with the one of index `i`, if any, changed by `f`.
pub open spec fn updated(
    s: Seq<DisplayRowView>,
    i: usize,
    f: spec_fn(DisplayRowView) -> DisplayRowView,
) -> Seq<DisplayRowView> {
    s.map_values(|r: DisplayRowView| if r.index == i { f(r) } else { r })
}

/// The rows without the one of index `i`.
pub open spec fn removed(s: Seq<DisplayRowView>, i: usize) -> Seq<DisplayRowView> {
    s.filter(other_than(i))
}

/// The row that `Begin` creates.
pub open spec fn fresh_row(i: usize, url: WebUrlView) -> DisplayRowView {
    DisplayRowView {
        index: i,
        url,
        num_urls_to_crawl: 0,
        num_urls_crawled: 0,
        state: CrawlerState::Paused,
        message: None,
    }
}

/// The display after one event: `Begin` creates the crawler's row, `End`
/// removes it, the others change the row of their crawler if it is there.
pub open spec fn apply_event(s: Seq<DisplayRowView>, e: CrawlerProcessEvent) -> Seq<DisplayRowView> {
    match e {
        CrawlerProcessEvent::Begin { crawler_index, url } => upsert(s, fresh_row(crawler_index, url@)),
        CrawlerProcessEvent::ProgressUpdate { crawler_index, num_urls_to_crawl, num_urls_crawled } => {
            updated(
                s,
                crawler_index,
                |r: DisplayRowView| DisplayRowView { num_urls_to_crawl, num_urls_crawled, ..r },
            )
        },
        CrawlerProcessEvent::ProgressMessage { crawler_index, message } => updated(
            s,
            crawler_index,
            |r: DisplayRowView| DisplayRowView { message: Some(message@), ..r },
        ),
        CrawlerProcessEvent::CrawlerStateChanged { crawler_index, state } => updated(
            s,
            crawler_index,
            |r: DisplayRowView| DisplayRowView { state, ..r },
        ),
        CrawlerProcessEvent::End { crawler_index } => removed(s, crawler_index),
    }
}

proof fn lemma_filter_sorted(s: Seq<DisplayRowView>, p: spec_fn(DisplayRowView) -> bool)
    requires
        sorted(s),
    ensures
        sorted(s.filter(p)),
        forall|k: int|
            0 <= k < s.filter(p).len() ==> exists|j: int| 0 <= j < s.len() && #[trigger] s.filter(p)[k] == s[j],
    decreases s.len(),
{
    reveal(Seq::filter);
    if s.len() > 0 {
        let d = s.drop_last();
        lemma_filter_sorted(d, p);
        let fd = d.filter(p);
        assert forall|k: int| 0 <= k < fd.len() implies exists|j: int|
            0 <= j < s.len() && #[trigger] fd[k] == s[j] by {
            let j = choose|j: int| 0 <= j < d.len() && fd[k] == d[j];
            assert(s[j] == d[j]);
        }
        if p(s.last()) {
            let f = fd.push(s.last());
            assert forall|k: int| 0 <= k < f.len() implies exists|j: int|
                0 <= j < s.len() && #[trigger] f[k] == s[j] by {
                if k < fd.len() {
                    assert(f[k] == fd[k]);
                } else {
                    assert(f[k] == s[s.len() - 1]);
                }
            }
            assert forall|a: int, b: int| 0 <= a < b < f.len() implies (#[trigger] f[a]).index < (
            #[trigger] f[b]).index by {
                if b == fd.len() {
                    let j = choose|j: int| 0 <= j < s.len() && fd[a] == s[j];
                    assert(f[a] == fd[a]);
                    let j2 = choose|j2: int| 0 <= j2 < d.len() && fd[a] == d[j2];
                    assert(d[j2] == s[j2]);
                } else {
                    assert(f[a] == fd[a] && f[b] == fd[b]);
                }
            }
        }
    }
}

proof fn lemma_upsert_sorted(s: Seq<DisplayRowView>, row: DisplayRowView)
    requires
        sorted(s),
    ensures
        sorted(upsert(s, row)),
{
    let l = s.filter(below(row.index));
    let h = s.filter(above(row.index));
    lemma_filter_sorted(s, below(row.index));
    lemma_filter_sorted(s, above(row.index));
    #[allow(deprecated)]
    {
        s.filter_lemma(below(row.index));
        s.filter_lemma(above(row.index));
    }
    let u = upsert(s, row);
    assert forall|a: int, b: int| 0 <= a < b < u.len() implies (#[trigger] u[a]).index < (
    #[trigger] u[b]).index by {
        if b < l.len() {
            assert(u[a] == l[a] && u[b] == l[b]);
        } else if b == l.len() {
            assert(u[a] == l[a]);
            assert(below(row.index)(l[a]));
        } else if a < l.len() {
            assert(u[a] == l[a] && u[b] == h[b - l.len() - 1]);
            assert(below(row.index)(l[a]));
            assert(above(row.index)(h[b - l.len() - 1]));
        } else if a == l.len() {
            assert(u[b] == h[b - l.len() - 1]);
            assert(above(row.index)(h[b - l.len() - 1]));
        } else {
            assert(u[a] == h[a - l.len() - 1] && u[b] == h[b - l.len() - 1]);
        }
    }
}

proof fn lemma_filter_all(x: Seq<DisplayRowView>, p: spec_fn(DisplayRowView) -> bool)
    requires
        forall|k: int| 0 <= k < x.len() ==> p(#[trigger] x[k]),
    ensures
        x.filter(p) == x,
    decreases x.len(),
{
    reveal(Seq::filter);
    if x.len() > 0 {
        lemma_filter_all(x.drop_last(), p);
        assert(x.drop_last().push(x.last()) =~= x);
    }
}

proof fn lemma_filter_none(x: Seq<DisplayRowView>, p: spec_fn(DisplayRowView) -> bool)
    requires
        forall|k: int| 0 <= k < x.len() ==> !p(#[trigger] x[k]),
    ensures
        x.filter(p) == Seq::<DisplayRowView>::empty(),
    decreases x.len(),
{
    reveal(Seq::filter);
    if x.len() > 0 {
        lemma_filter_none(x.drop_last(), p);
        assert(!p(x[x.len() - 1]));
    } else {
        assert(x.filter(p) =~= Seq::<DisplayRowView>::empty());
    }
}

/// Sorted rows that all lie below `i` are kept whole by the split around `i`.
proof fn lemma_split_all_below(s: Seq<DisplayRowView>, i: usize)
    requires
        sorted(s),
        s.len() > 0,
        s.last().index < i,
    ensures
        s.filter(below(i)) + s.filter(above(i)) == s,
{
    assert forall|k: int| 0 <= k < s.len() implies below(i)(#[trigger] s[k]) by {
        if k < s.len() - 1 {
            assert(s[k].index < s[s.len() - 1].index);
        }
    }
    assert forall|k: int| 0 <= k < s.len() implies !above(i)(#[trigger] s[k]) by {
        assert(below(i)(s[k]));
    }
    lemma_filter_all(s, below(i));
    lemma_filter_none(s, above(i));
    assert(s + Seq::<DisplayRowView>::empty() =~= s);
}

proof fn lemma_sorted_drop_last(s: Seq<DisplayRowView>)
    requires
        sorted(s),
        s.len() > 0,
    ensures
        sorted(s.drop_last()),
{
    let d = s.drop_last();
    assert forall|a: int, b: int| 0 <= a < b < d.len() implies (#[trigger] d[a]).index < (
    #[trigger] d[b]).index by {
        assert(d[a] == s[a] && d[b] == s[b]);
    }
}

/// Sorted rows without a row of index `i` are those below `i`, then those above.
proof fn lemma_split_without_row(s: Seq<DisplayRowView>, i: usize)
    requires
        sorted(s),
        forall|k: int| 0 <= k < s.len() ==> (#[trigger] s[k]).index != i,
    ensures
        s.filter(below(i)) + s.filter(above(i)) == s,
    decreases s.len(),
{
    if s.len() == 0 {
        lemma_filter_all(s, below(i));
        lemma_filter_none(s, above(i));
        assert(s + Seq::<DisplayRowView>::empty() =~= s);
    } else if s.last().index < i {
        lemma_split_all_below(s, i);
    } else {
        let d = s.drop_last();
        let x = s.last();
        assert(s[s.len() - 1] == x);
        assert(d.push(x) =~= s);
        lemma_sorted_drop_last(s);
        assert forall|k: int| 0 <= k < d.len() implies (#[trigger] d[k]).index != i by {
            assert(d[k] == s[k]);
        }
        lemma_split_without_row(d, i);
        d.lemma_filter_push(x, below(i));
        d.lemma_filter_push(x, above(i));
        assert(d.filter(below(i)) + d.filter(above(i)).push(x) =~= (d.filter(below(i))
            + d.filter(above(i))).push(x));
    }
}

/// `Begin` then `End` for one crawler, with nothing in between, leaves the
/// display with no row for that crawler and the other rows as they were; when
/// it had no row before, exactly the rows there were before; from an empty
/// display, no row at all.
pub proof fn lemma_begin_then_end(s: Seq<DisplayRowView>, i: usize, url: WebUrl)
    requires
        sorted(s),
    ensures
        apply_event(
            apply_event(s, CrawlerProcessEvent::Begin { crawler_index: i, url }),
            CrawlerProcessEvent::End { crawler_index: i },
        ) == s.filter(below(i)) + s.filter(above(i)),
        forall|k: int|
            0 <= k < apply_event(
                apply_event(s, CrawlerProcessEvent::Begin { crawler_index: i, url }),
                CrawlerProcessEvent::End { crawler_index: i },
            ).len() ==> (#[trigger] apply_event(
                apply_event(s, CrawlerProcessEvent::Begin { crawler_index: i, url }),
                CrawlerProcessEvent::End { crawler_index: i },
            )[k]).index != i,
        s.len() == 0 ==> apply_event(
            apply_event(s, CrawlerProcessEvent::Begin { crawler_index: i, url }),
            CrawlerProcessEvent::End { crawler_index: i },
        ).len() == 0,
        (forall|k: int| 0 <= k < s.len() ==> (#[trigger] s[k]).index != i) ==> apply_event(
            apply_event(s, CrawlerProcessEvent::Begin { crawler_index: i, url }),
            CrawlerProcessEvent::End { crawler_index: i },
        ) == s,
{
    if forall|k: int| 0 <= k < s.len() ==> (#[trigger] s[k]).index != i {
        lemma_split_without_row(s, i);
    }
    let l = s.filter(below(i));
    let h = s.filter(above(i));
    let row = fresh_row(i, url@);
    #[allow(deprecated)]
    {
        s.filter_lemma(below(i));
        s.filter_lemma(above(i));
    }
    assert(upsert(s, row) == (l + seq![row]) + h);
    Seq::filter_distributes_over_add(l + seq![row], h, other_than(i));
    Seq::filter_distributes_over_add(l, seq![row], other_than(i));
    assert forall|k: int| 0 <= k < l.len() implies other_than(i)(#[trigger] l[k]) by {
        assert(below(i)(l[k]));
    }
    assert forall|k: int| 0 <= k < h.len() implies other_than(i)(#[trigger] h[k]) by {
        assert(above(i)(h[k]));
    }
    lemma_filter_all(l, other_than(i));
    lemma_filter_all(h, other_than(i));
    reveal(Seq::filter);
    assert(seq![row].drop_last() =~= Seq::<DisplayRowView>::empty());
    assert(Seq::<DisplayRowView>::empty().filter(other_than(i)) =~= Seq::<DisplayRowView>::empty());
    assert(seq![row].last() == row);
    assert(!other_than(i)(row));
    assert(seq![row].filter(other_than(i)) =~= Seq::<DisplayRowView>::empty());
    assert(l + Seq::<DisplayRowView>::empty() =~= l);
    let after = l + h;
    assert forall|k: int| 0 <= k < after.len() implies (#[trigger] after[k]).index != i by {
        if k < l.len() {
            assert(after[k] == l[k]);
            assert(below(i)(l[k]));
        } else {
            assert(after[k] == h[k - l.len()]);
            assert(above(i)(h[k - l.len()]));
        }
    }
    if s.len() == 0 {
        assert(l =~= Seq::<DisplayRowView>::empty());
        assert(h =~= Seq::<DisplayRowView>::empty());
    }
}

/// The state of the progress display: one row per running crawl, in order of
/// crawler index.
pub struct ConsoleState {
    crawlers: Vec<CrawlerDisplayInfo>,
}

impl View for ConsoleState {
    type V = Seq<DisplayRowView>;

    closed spec fn view(&self) -> Seq<DisplayRowView> {
        row_views(self.crawlers@)
    }
}

impl ConsoleState {
    /// The rows are in strictly ascending order of crawler index.
    #[verifier::type_invariant]
    pub open spec fn inv(&self) -> bool {
        sorted(self@)
    }

    pub fn new() -> (r: ConsoleState)
        ensures
            r@ == Seq::<DisplayRowView>::empty(),
    {
        let r = ConsoleState { crawlers: Vec::new() };
        assert(row_views(r.crawlers@) =~= Seq::<DisplayRowView>::empty());
        r
    }

    /// The rows to draw, in ascending order of crawler index.
    pub fn rows(&self) -> (r: &Vec<CrawlerDisplayInfo>)
        ensures
            row_views(r@) == self@,
    {
        &self.crawlers
    }

    /// The position of the row of crawler `i`, if it has one.
    fn find(&self, i: usize) -> (r: Option<usize>)
        ensures
            r matches Some(j) ==> j < self@.len() && self@[j as int].index == i,
            r is None ==> forall|k: int| 0 <= k < self@.len() ==> (#[trigger] self@[k]).index != i,
    {
        let mut k: usize = 0;
        while k < self.crawlers.len()
            invariant
                k <= self.crawlers.len(),
                self@ == row_views(self.crawlers@),
                forall|m: int| 0 <= m < k ==> (#[trigger] self@[m]).index != i,
            decreases self.crawlers.len() - k,
        {
            if self.crawlers[k].index == i {
                return Some(k);
            }
            k = k + 1;
        }
        None
    }

    /// The rows of lower and of higher crawler index than `i`, in order.
    fn split_around(&self, i: usize) -> (r: (Vec<CrawlerDisplayInfo>, Vec<CrawlerDisplayInfo>))
        ensures
            row_views(r.0@) == self@.filter(below(i)),
            row_views(r.1@) == self@.filter(above(i)),
    {
        let ghost s = self@;
        let mut low: Vec<CrawlerDisplayInfo> = Vec::new();
        let mut high: Vec<CrawlerDisplayInfo> = Vec::new();
        let mut k: usize = 0;
        while k < self.crawlers.len()
            invariant
                k <= self.crawlers.len(),
                s == row_views(self.crawlers@),
                row_views(low@) == s.take(k as int).filter(below(i)),
                row_views(high@) == s.take(k as int).filter(above(i)),
            decreases self.crawlers.len() - k,
        {
            let ghost t = s.take(k as int);
            assert(s.take(k + 1) =~= t.push(s[k as int]));
            proof {
                t.lemma_filter_push(s[k as int], below(i));
                t.lemma_filter_push(s[k as int], above(i));
            }
            let c = &self.crawlers[k];
            if c.index < i {
                let ghost l0 = low@;
                low.push(c.duplicate());
                assert(row_views(low@) =~= row_views(l0).push(c@));
            } else if c.index > i {
                let ghost h0 = high@;
                high.push(c.duplicate());
                assert(row_views(high@) =~= row_views(h0).push(c@));
            }
            k = k + 1;
        }
        assert(s.take(k as int) =~= s);
        (low, high)
    }

    /// The rows other than that of crawler `i`, in order.
    fn without_row(&self, i: usize) -> (r: Vec<CrawlerDisplayInfo>)
        ensures
            row_views(r@) == self@.filter(other_than(i)),
    {
        let ghost s = self@;
        let mut kept: Vec<CrawlerDisplayInfo> = Vec::new();
        let mut k: usize = 0;
        while k < self.crawlers.len()
            invariant
                k <= self.crawlers.len(),
                s == row_views(self.crawlers@),
                row_views(kept@) == s.take(k as int).filter(other_than(i)),
            decreases self.crawlers.len() - k,
        {
            let ghost t = s.take(k as int);
            assert(s.take(k + 1) =~= t.push(s[k as int]));
            proof {
                t.lemma_filter_push(s[k as int], other_than(i));
            }
            let c = &self.crawlers[k];
            if c.index != i {
                let ghost k0 = kept@;
                kept.push(c.duplicate());
                assert(row_views(kept@) =~= row_views(k0).push(c@));
            }
            k = k + 1;
        }
        assert(s.take(k as int) =~= s);
        kept
    }

    /// Replaces row `j` by `row`, which keeps its crawler index.
    fn replace_row(&mut self, j: usize, row: CrawlerDisplayInfo)
        requires
            j < old(self)@.len(),
            row.index == old(self)@[j as int].index,
        ensures
            final(self)@ == old(self)@.update(j as int, row@),
    {
        proof {
            use_type_invariant(&*self);
            let g = self@.update(j as int, row@);
            assert forall|a: int, b: int| 0 <= a < b < g.len() implies (#[trigger] g[a]).index < (
            #[trigger] g[b]).index by {
                assert(self@[a].index < self@[b].index);
            }
        }
        let ghost goal = self@.update(j as int, row@);
        let mut out: Vec<CrawlerDisplayInfo> = Vec::new();
        let mut row = Some(row);
        let mut k: usize = 0;
        while k < self.crawlers.len()
            invariant
                k <= self.crawlers.len(),
                j < self.crawlers.len(),
                goal == row_views(self.crawlers@).update(j as int, goal[j as int]),
                k <= j ==> (row matches Some(r) && r@ == goal[j as int]),
                row_views(out@) == goal.take(k as int),
                sorted(goal),
            decreases self.crawlers.len() - k,
        {
            let ghost o0 = out@;
            if k == j {
                match row.take() {
                    Some(r) => out.push(r),
                    None => {},
                }
            } else {
                out.push(self.crawlers[k].duplicate());
            }
            assert(row_views(out@) =~= row_views(o0).push(goal[k as int]));
            assert(goal.take(k + 1) =~= goal.take(k as int).push(goal[k as int]));
            k = k + 1;
        }
        assert(goal.take(k as int) =~= goal);
        self.crawlers = out;
    }

    /// Changes the display as the event says; see `apply_event`.
    pub fn handle_event(&mut self, event: CrawlerProcessEvent)
        ensures
            final(self)@ == apply_event(old(self)@, event),
    {
        proof {
            use_type_invariant(&*self);
        }
        let ghost s = self@;
        match event {
            CrawlerProcessEvent::Begin { crawler_index, url } => {
                let (mut low, mut high) = self.split_around(crawler_index);
                let row = CrawlerDisplayInfo {
                    index: crawler_index,
                    url,
                    num_urls_to_crawl: 0,
                    num_urls_crawled: 0,
                    state: CrawlerState::Paused,
                    message: None,
                };
                let ghost l0 = low@;
                let ghost h0 = high@;
                low.push(row);
                low.append(&mut high);
                assert(row_views(low@) =~= upsert(s, fresh_row(crawler_index, url@)));
                proof {
                    lemma_upsert_sorted(s, fresh_row(crawler_index, url@));
                }
                self.crawlers = low;
            },
            CrawlerProcessEvent::End { crawler_index } => {
                let kept = self.without_row(crawler_index);
                proof {
                    lemma_filter_sorted(s, other_than(crawler_index));
                }
                self.crawlers = kept;
            },
            CrawlerProcessEvent::ProgressUpdate { crawler_index, num_urls_to_crawl, num_urls_crawled } => {
                let ghost f = |r: DisplayRowView| DisplayRowView { num_urls_to_crawl, num_urls_crawled, ..r };
                match self.find(crawler_index) {
                    Some(j) => {
                        let mut row = self.crawlers[j].duplicate();
                        row.num_urls_to_crawl = num_urls_to_crawl;
                        row.num_urls_crawled = num_urls_crawled;
                        self.replace_row(j, row);
                        assert(self@ =~= updated(s, crawler_index, f));
                    },
                    None => {
                        assert(s =~= updated(s, crawler_index, f));
                    },
                }
            },
            CrawlerProcessEvent::ProgressMessage { crawler_index, message } => {
                let ghost f = |r: DisplayRowView| DisplayRowView { message: Some(message@), ..r };
                match self.find(crawler_index) {
                    Some(j) => {
                        let mut row = self.crawlers[j].duplicate();
                        row.message = Some(message);
                        self.replace_row(j, row);
                        assert(self@ =~= updated(s, crawler_index, f));
                    },
                    None => {
                        assert(s =~= updated(s, crawler_index, f));
                    },
                }
            },
            CrawlerProcessEvent::CrawlerStateChanged { crawler_index, state } => {
                let ghost f = |r: DisplayRowView| DisplayRowView { state, ..r };
                match self.find(crawler_index) {
                    Some(j) => {
                        let mut row = self.crawlers[j].duplicate();
                        row.state = state;
                        self.replace_row(j, row);
                        assert(self@ =~= updated(s, crawler_index, f));
                    },
                    None => {
                        assert(s =~= updated(s, crawler_index, f));
                    },
                }
            },
        }
    }

    pub fn len(&self) -> (r: usize)
        ensures
            r == self@.len(),
    {
        self.crawlers.len()
    }
}

} // verus!
