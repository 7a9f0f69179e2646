use vstd::prelude::*;
use crate::web_url::{cut_at, lemma_cut_unique, lemma_normalized_wf, WebUrl, WebUrlView};

verus! {

/// The dedup keys of a sequence of URLs, in order.
pub open spec fn keys(s: Seq<WebUrlView>) -> Seq<Seq<char>> {
    s.map_values(|v: WebUrlView| v.key)
}

pub open spec fn views(s: Seq<WebUrl>) -> Seq<WebUrlView> {
    s.map_values(|u: WebUrl| u@)
}

/// The entries of `s` whose key is not `k`, in order.
pub open spec fn without_key(s: Seq<WebUrlView>, k: Seq<char>) -> Seq<WebUrlView>
    decreases s.len(),
{
    if s.len() == 0 {
        s
    } else if s.last().key == k {
        without_key(s.drop_last(), k)
    } else {
        without_key(s.drop_last(), k).push(s.last())
    }
}

/// Two URL texts that differ at most in their query and fragment: they agree
/// up to the place where their query or fragment starts.
pub open spec fn differ_only_in_query_or_fragment(a: WebUrlView, b: WebUrlView) -> bool {
    exists|n: int| cut_at(a.text, n) && cut_at(b.text, n) && a.text.take(n) == b.text.take(n)
}

/// URLs with hierarchical paths that differ only in query or fragment
/// normalize to the same text and the same dedup key.
pub proof fn lemma_normalize_ignores_query_and_fragment(a: WebUrlView, b: WebUrlView)
    requires
        a.wf(),
        b.wf(),
        a.has_slash_path(),
        b.has_slash_path(),
        differ_only_in_query_or_fragment(a, b),
    ensures
        a.normalized().text == b.normalized().text,
        a.normalized().key == b.normalized().key,
{
    let n = choose|n: int| cut_at(a.text, n) && cut_at(b.text, n) && a.text.take(n) == b.text.take(n);
    lemma_cut_unique(a.text, n, a.key.len() as int);
    lemma_cut_unique(b.text, n, b.key.len() as int);
}

/// One operation on a frontier.
pub enum FrontierOp {
    Enqueue(WebUrlView),
    Dequeue,
    MarkVisited(WebUrlView),
}

impl FrontierOp {
    pub open spec fn wf(self) -> bool {
        match self {
            FrontierOp::Enqueue(u) => u.wf(),
            FrontierOp::Dequeue => true,
            FrontierOp::MarkVisited(u) => u.wf(),
        }
    }
}

/// A frontier: the URLs still to fetch, and those already fetched.
pub struct FrontierView {
    pub pending: Seq<WebUrlView>,
    pub visited: Seq<WebUrlView>,
}

impl FrontierView {
    pub open spec fn pending_keys(self) -> Set<Seq<char>> {
        keys(self.pending).to_set()
    }

    pub open spec fn visited_keys(self) -> Set<Seq<char>> {
        keys(self.visited).to_set()
    }

    /// Each entry is a normalized URL, no key stands twice in a set, and no
    /// key is both pending and visited.
    pub open spec fn wf(self) -> bool {
        &&& keys(self.pending).no_duplicates()
        &&& keys(self.visited).no_duplicates()
        &&& forall|i: int|
            0 <= i < self.pending.len() ==> (#[trigger] self.pending[i]).is_normalized()
                && self.pending[i].wf()
        &&& forall|i: int|
            0 <= i < self.visited.len() ==> (#[trigger] self.visited[i]).is_normalized()
                && self.visited[i].wf()
        &&& self.pending_keys().disjoint(self.visited_keys())
    }

    /// Adds the normalized URL to the pending ones, unless its key is already
    /// pending or visited.
    pub open spec fn enqueue(self, u: WebUrlView) -> FrontierView {
        let n = u.normalized();
        if keys(self.visited).contains(n.key) || keys(self.pending).contains(n.key) {
            self
        } else {
            FrontierView { pending: self.pending.push(n), visited: self.visited }
        }
    }

    pub open spec fn enqueue_all(self, us: Seq<WebUrlView>) -> FrontierView
        decreases us.len(),
    {
        if us.len() == 0 {
            self
        } else {
            self.enqueue_all(us.drop_last()).enqueue(us.last())
        }
    }

    /// Takes out the most recently added pending URL, if there is one.
    pub open spec fn dequeue(self) -> (FrontierView, Option<WebUrlView>) {
        if self.pending.len() == 0 {
            (self, None)
        } else {
            (
                FrontierView { pending: self.pending.drop_last(), visited: self.visited },
                Some(self.pending.last()),
            )
        }
    }

    /// Removes the URL's key from the pending ones and records it as visited.
    pub open spec fn mark_visited(self, u: WebUrlView) -> FrontierView {
        let n = u.normalized();
        FrontierView {
            pending: without_key(self.pending, n.key),
            visited: if keys(self.visited).contains(n.key) {
                self.visited
            } else {
                self.visited.push(n)
            },
        }
    }

    pub open spec fn apply(self, op: FrontierOp) -> FrontierView {
        match op {
            FrontierOp::Enqueue(u) => self.enqueue(u),
            FrontierOp::Dequeue => self.dequeue().0,
            FrontierOp::MarkVisited(u) => self.mark_visited(u),
        }
    }

    pub open spec fn apply_all(self, ops: Seq<FrontierOp>) -> FrontierView
        decreases ops.len(),
    {
        if ops.len() == 0 {
            self
        } else {
            self.apply_all(ops.drop_last()).apply(ops.last())
        }
    }
}


pub proof fn lemma_without_key_len(s: Seq<WebUrlView>, k: Seq<char>)
    ensures
        without_key(s, k).len() <= s.len(),
    decreases s.len(),
{
    if s.len() > 0 {
        lemma_without_key_len(s.drop_last(), k);
    }
}

proof fn lemma_keys_push(s: Seq<WebUrlView>, v: WebUrlView)
    ensures
        keys(s.push(v)) == keys(s).push(v.key),
{
    assert(keys(s.push(v)) =~= keys(s).push(v.key));
}

proof fn lemma_keys_push_contains(s: Seq<WebUrlView>, v: WebUrlView, x: Seq<char>)
    ensures
        keys(s.push(v)).contains(x) <==> (keys(s).contains(x) || v.key == x),
{
    lemma_keys_push(s, v);
    let ks = keys(s);
    if keys(s.push(v)).contains(x) {
        let i = choose|i: int| 0 <= i < ks.push(v.key).len() && ks.push(v.key)[i] == x;
        if i < ks.len() {
            assert(ks[i] == x);
        }
    }
    if ks.contains(x) {
        let i = choose|i: int| 0 <= i < ks.len() && ks[i] == x;
        assert(ks.push(v.key)[i] == x);
    }
    if v.key == x {
        assert(ks.push(v.key)[ks.len() as int] == x);
    }
}

proof fn lemma_keys_push_no_duplicates(s: Seq<WebUrlView>, v: WebUrlView)
    requires
        keys(s).no_duplicates(),
        !keys(s).contains(v.key),
    ensures
        keys(s.push(v)).no_duplicates(),
{
    lemma_keys_push(s, v);
    let ks = keys(s);
    let kp = ks.push(v.key);
    assert forall|i: int, j: int| 0 <= i < kp.len() && 0 <= j < kp.len() && i != j implies kp[i]
        != kp[j] by {
        if i == ks.len() {
            assert(ks[j] == kp[j]);
        } else if j == ks.len() {
            assert(ks[i] == kp[i]);
        }
    }
}

proof fn lemma_without_key(s: Seq<WebUrlView>, k: Seq<char>)
    ensures
        forall|x: Seq<char>|
            #[trigger] keys(without_key(s, k)).contains(x) <==> (keys(s).contains(x) && x != k),
        keys(s).no_duplicates() ==> keys(without_key(s, k)).no_duplicates(),
        (forall|i: int| 0 <= i < s.len() ==> (#[trigger] s[i]).is_normalized() && s[i].wf())
            ==> (forall|i: int|
            0 <= i < without_key(s, k).len() ==> (#[trigger] without_key(s, k)[i]).is_normalized()
                && without_key(s, k)[i].wf()),
        !keys(s).contains(k) ==> without_key(s, k) == s,
    decreases s.len(),
{
    if s.len() > 0 {
        let p = s.drop_last();
        let v = s.last();
        let w = without_key(p, k);
        lemma_without_key(p, k);
        assert(s =~= p.push(v));
        lemma_keys_push(p, v);
        assert forall|x: Seq<char>| keys(s).contains(x) <==> (keys(p).contains(x) || v.key == x) by {
            lemma_keys_push_contains(p, v, x);
        }
        if keys(s).no_duplicates() {
            assert(keys(p) =~= keys(s).drop_last());
            assert(keys(p).no_duplicates());
            if !(v.key == k) {
                if keys(p).contains(v.key) {
                    let i = choose|i: int| 0 <= i < keys(p).len() && keys(p)[i] == v.key;
                    assert(keys(s)[i] == keys(s)[p.len() as int]);
                }
                lemma_keys_push_no_duplicates(w, v);
            }
        }
        if !(v.key == k) {
            assert forall|x: Seq<char>| #[trigger]
                keys(w.push(v)).contains(x) <==> (keys(w).contains(x) || v.key == x) by {
                lemma_keys_push_contains(w, v, x);
            }
            if forall|i: int| 0 <= i < s.len() ==> (#[trigger] s[i]).is_normalized() && s[i].wf() {
                assert forall|i: int| 0 <= i < p.len() implies (#[trigger] p[i]).is_normalized()
                    && p[i].wf() by {
                    assert(p[i] == s[i]);
                }
                assert(s[s.len() - 1] == v);
            }
        } else {
            if forall|i: int| 0 <= i < s.len() ==> (#[trigger] s[i]).is_normalized() && s[i].wf() {
                assert forall|i: int| 0 <= i < p.len() implies (#[trigger] p[i]).is_normalized()
                    && p[i].wf() by {
                    assert(p[i] == s[i]);
                }
            }
        }
        if !keys(s).contains(k) {
            assert(keys(s)[p.len() as int] == v.key);
        }
    }
}


proof fn lemma_keys_drop_last(s: Seq<WebUrlView>)
    requires
        s.len() > 0,
    ensures
        keys(s.drop_last()) == keys(s).drop_last(),
        keys(s).no_duplicates() ==> keys(s.drop_last()).no_duplicates(),
        forall|x: Seq<char>| #[trigger] keys(s.drop_last()).contains(x) ==> keys(s).contains(x),
{
    assert(keys(s.drop_last()) =~= keys(s).drop_last());
    assert forall|x: Seq<char>| #[trigger] keys(s.drop_last()).contains(x) implies keys(
        s,
    ).contains(x) by {
        let i = choose|i: int| 0 <= i < keys(s.drop_last()).len() && keys(s.drop_last())[i] == x;
        assert(keys(s)[i] == x);
    }
}

/// One operation keeps the frontier well formed, and forgets no visited key.
pub proof fn lemma_apply_preserves_wf(m: FrontierView, op: FrontierOp)
    requires
        m.wf(),
        op.wf(),
    ensures
        m.apply(op).wf(),
        m.visited_keys().subset_of(m.apply(op).visited_keys()),
{
    match op {
        FrontierOp::Enqueue(u) => {
            let n = u.normalized();
            lemma_normalized_wf(u);
            assert(m.apply(op) == m.enqueue(u));
            if keys(m.visited).contains(n.key) || keys(m.pending).contains(n.key) {
                assert(m.enqueue(u) == m);
            } else {
                lemma_keys_push_no_duplicates(m.pending, n);
                assert forall|x: Seq<char>| #[trigger]
                    keys(m.pending.push(n)).contains(x) <==> (keys(m.pending).contains(x) || n.key
                        == x) by {
                    lemma_keys_push_contains(m.pending, n, x);
                }
                let r = m.enqueue(u);
                assert forall|i: int| 0 <= i < r.pending.len() implies (#[trigger] r.pending[i]).is_normalized()
                    && r.pending[i].wf() by {
                    if i < m.pending.len() {
                        assert(r.pending[i] == m.pending[i]);
                    }
                }
                assert(r.pending_keys().disjoint(r.visited_keys())) by {
                    assert forall|x: Seq<char>| r.pending_keys().contains(x) implies !r.visited_keys().contains(x) by {
                        assert(keys(r.pending).contains(x));
                    }
                }
                assert(keys(r.pending).no_duplicates());
                assert(keys(r.visited).no_duplicates());
                assert(r.wf());
            }
        },
        FrontierOp::Dequeue => {
            if m.pending.len() > 0 {
                lemma_keys_drop_last(m.pending);
                let r = m.dequeue().0;
                assert forall|i: int| 0 <= i < r.pending.len() implies (#[trigger] r.pending[i]).is_normalized()
                    && r.pending[i].wf() by {
                    assert(r.pending[i] == m.pending[i]);
                }
                assert(r.pending_keys().disjoint(r.visited_keys())) by {
                    assert forall|x: Seq<char>| r.pending_keys().contains(x) implies !r.visited_keys().contains(x) by {
                        assert(keys(m.pending).contains(x));
                    }
                }
            }
        },
        FrontierOp::MarkVisited(u) => {
            let n = u.normalized();
            lemma_normalized_wf(u);
            lemma_without_key(m.pending, n.key);
            let r = m.mark_visited(u);
            assert(r.pending_keys().disjoint(r.visited_keys())) by {
                assert forall|x: Seq<char>| r.pending_keys().contains(x) implies !r.visited_keys().contains(x) by {
                    assert(keys(r.pending).contains(x));
                    assert(keys(m.pending).contains(x) && x != n.key);
                    assert(m.pending_keys().contains(x));
                    assert(!m.visited_keys().contains(x));
                    if !keys(m.visited).contains(n.key) {
                        assert(r.visited == m.visited.push(n));
                        lemma_keys_push_contains(m.visited, n, x);
                    } else {
                        assert(r.visited == m.visited);
                    }
                }
            }
            if !keys(m.visited).contains(n.key) {
                lemma_keys_push_no_duplicates(m.visited, n);
                assert forall|x: Seq<char>| #[trigger]
                    keys(m.visited.push(n)).contains(x) <==> (keys(m.visited).contains(x) || n.key
                        == x) by {
                    lemma_keys_push_contains(m.visited, n, x);
                }
                assert forall|i: int| 0 <= i < r.visited.len() implies (#[trigger] r.visited[i]).is_normalized()
                    && r.visited[i].wf() by {
                    if i < m.visited.len() {
                        assert(r.visited[i] == m.visited[i]);
                    }
                }
            }
        },
    }
}

/// Any run of operations keeps the frontier well formed after every step (in
/// particular no key is ever both pending and visited), and a visited key stays
/// visited.
pub proof fn lemma_run_preserves_wf(m: FrontierView, ops: Seq<FrontierOp>)
    requires
        m.wf(),
        forall|i: int| 0 <= i < ops.len() ==> (#[trigger] ops[i]).wf(),
    ensures
        forall|i: int|
            0 <= i <= ops.len() ==> (#[trigger] m.apply_all(ops.take(i))).wf()
                && m.visited_keys().subset_of(m.apply_all(ops.take(i)).visited_keys()),
    decreases ops.len(),
{
    if ops.len() > 0 {
        let p = ops.drop_last();
        lemma_run_preserves_wf(m, p);
        assert forall|i: int| 0 <= i <= ops.len() implies (#[trigger] m.apply_all(
            ops.take(i),
        )).wf() && m.visited_keys().subset_of(m.apply_all(ops.take(i)).visited_keys()) by {
            if i < ops.len() {
                assert(ops.take(i) =~= p.take(i));
            } else {
                assert(ops.take(i) =~= ops);
                assert(p.take(p.len() as int) =~= p);
                let before = m.apply_all(p);
                assert(ops[ops.len() - 1].wf());
                lemma_apply_preserves_wf(before, ops.last());
            }
        }
    }
}

/// Once a key is visited, no later enqueue puts it back among the pending
/// ones: whatever operations follow, it stays visited and never pending.
pub proof fn lemma_visited_stays_out_of_pending(m: FrontierView, k: Seq<char>, ops: Seq<FrontierOp>)
    requires
        m.wf(),
        m.visited_keys().contains(k),
        forall|i: int| 0 <= i < ops.len() ==> (#[trigger] ops[i]).wf(),
    ensures
        forall|i: int|
            0 <= i <= ops.len() ==> (#[trigger] m.apply_all(ops.take(i))).visited_keys().contains(k)
                && !m.apply_all(ops.take(i)).pending_keys().contains(k),
{
    lemma_run_preserves_wf(m, ops);
    assert forall|i: int| 0 <= i <= ops.len() implies (#[trigger] m.apply_all(
        ops.take(i),
    )).visited_keys().contains(k) && !m.apply_all(ops.take(i)).pending_keys().contains(k) by {
        let r = m.apply_all(ops.take(i));
        assert(r.wf());
        assert(m.visited_keys().subset_of(r.visited_keys()));
    }
}

/// Enqueueing a URL whose key is already visited leaves the frontier as it was.
pub proof fn lemma_enqueue_skips_visited(m: FrontierView, u: WebUrlView)
    requires
        m.visited_keys().contains(u.normalized().key),
    ensures
        m.enqueue(u) == m,
{
}

/// After `mark_visited(u)`, `u` is not pending, and no later dequeue returns it,
/// whatever operations follow.
pub proof fn lemma_marked_never_dequeued(m: FrontierView, u: WebUrlView, ops: Seq<FrontierOp>)
    requires
        m.wf(),
        u.wf(),
        forall|i: int| 0 <= i < ops.len() ==> (#[trigger] ops[i]).wf(),
    ensures
        !m.mark_visited(u).pending_keys().contains(u.normalized().key),
        forall|i: int|
            0 <= i <= ops.len() ==> !(#[trigger] m.mark_visited(u).apply_all(
                ops.take(i),
            )).pending_keys().contains(u.normalized().key),
        forall|i: int|
            0 <= i <= ops.len() ==> ((#[trigger] m.mark_visited(u).apply_all(ops.take(i))).dequeue().1
                matches Some(v) ==> v.key != u.normalized().key),
{
    let k = u.normalized().key;
    let m1 = m.mark_visited(u);
    lemma_apply_preserves_wf(m, FrontierOp::MarkVisited(u));
    assert(m1 == m.apply(FrontierOp::MarkVisited(u)));
    if !keys(m.visited).contains(k) {
        lemma_keys_push_contains(m.visited, u.normalized(), k);
    }
    assert(m1.visited_keys().contains(k));
    lemma_visited_stays_out_of_pending(m1, k, ops);
    assert forall|i: int| 0 <= i <= ops.len() implies ((#[trigger] m1.apply_all(ops.take(i))).dequeue().1
        matches Some(v) ==> v.key != k) by {
        let r = m1.apply_all(ops.take(i));
        if r.pending.len() > 0 {
            assert(keys(r.pending)[r.pending.len() - 1] == r.pending.last().key);
        }
    }
}


/// The frontier of one seed's crawl: the URLs still to fetch and those already
/// fetched, each kept once, by its normalized form.
pub struct CrawlContext {
    urls_to_crawl: Vec<WebUrl>,
    urls_already_crawled: Vec<WebUrl>,
}

impl View for CrawlContext {
    type V = FrontierView;

    closed spec fn view(&self) -> FrontierView {
        FrontierView {
            pending: views(self.urls_to_crawl@),
            visited: views(self.urls_already_crawled@),
        }
    }
}

fn contains_key(v: &Vec<WebUrl>, u: &WebUrl) -> (r: bool)
    ensures
        r == keys(views(v@)).contains(u@.key),
{
    let mut i: usize = 0;
    while i < v.len()
        invariant
            i <= v.len(),
            forall|j: int| 0 <= j < i ==> v@[j]@.key != u@.key,
        decreases v.len() - i,
    {
        if v[i].same_key(u) {
            assert(keys(views(v@))[i as int] == u@.key);
            return true;
        }
        i = i + 1;
    }
    assert forall|j: int| 0 <= j < keys(views(v@)).len() implies keys(views(v@))[j] != u@.key by {
        assert(keys(views(v@))[j] == v@[j]@.key);
    }
    false
}

impl CrawlContext {
    pub fn new() -> (r: CrawlContext)
        ensures
            r@.pending == Seq::<WebUrlView>::empty(),
            r@.visited == Seq::<WebUrlView>::empty(),
            r@.wf(),
    {
        let r = CrawlContext { urls_to_crawl: Vec::new(), urls_already_crawled: Vec::new() };
        assert(views(r.urls_to_crawl@) =~= Seq::<WebUrlView>::empty());
        assert(views(r.urls_already_crawled@) =~= Seq::<WebUrlView>::empty());
        assert(keys(Seq::<WebUrlView>::empty()) =~= Seq::<Seq<char>>::empty());
        r
    }

    /// The dedup form of a URL: the same URL without query and fragment.
    pub fn normalize(url: &WebUrl) -> (r: WebUrl)
        ensures
            r@ == url@.normalized(),
    {
        url.normalized()
    }

    /// Adds the normalized URL to the pending ones, unless it is pending or
    /// visited already.
    pub fn add_url_to_crawl(&mut self, url: &WebUrl)
        requires
            old(self)@.wf(),
        ensures
            final(self)@ == old(self)@.enqueue(url@),
            final(self)@.wf(),
    {
        proof {
            use_type_invariant(url);
            lemma_apply_preserves_wf(self@, FrontierOp::Enqueue(url@));
        }
        let stripped = CrawlContext::normalize(url);
        if !contains_key(&self.urls_already_crawled, &stripped) && !contains_key(
            &self.urls_to_crawl,
            &stripped,
        ) {
            let ghost before = self.urls_to_crawl@;
            self.urls_to_crawl.push(stripped);
            assert(views(self.urls_to_crawl@) =~= views(before).push(url@.normalized()));
        }
    }

    /// Adds each of the URLs in turn.
    pub fn add_urls_to_crawl(&mut self, urls: &Vec<WebUrl>)
        requires
            old(self)@.wf(),
        ensures
            final(self)@ == old(self)@.enqueue_all(views(urls@)),
            final(self)@.wf(),
    {
        let mut i: usize = 0;
        while i < urls.len()
            invariant
                i <= urls.len(),
                self@ == old(self)@.enqueue_all(views(urls@).take(i as int)),
                self@.wf(),
            decreases urls.len() - i,
        {
            assert(views(urls@).take(i + 1).drop_last() =~= views(urls@).take(i as int));
            self.add_url_to_crawl(&urls[i]);
            i = i + 1;
        }
        assert(views(urls@).take(i as int) =~= views(urls@));
    }

    /// Takes out a pending URL: the most recently added one.
    pub fn pop_url_to_crawl(&mut self) -> (r: Option<WebUrl>)
        requires
            old(self)@.wf(),
        ensures
            (final(self)@, match r {
                Some(u) => Some(u@),
                None => None,
            }) == old(self)@.dequeue(),
            final(self)@.wf(),
    {
        proof {
            lemma_apply_preserves_wf(self@, FrontierOp::Dequeue);
        }
        let ghost before = self.urls_to_crawl@;
        let r = self.urls_to_crawl.pop();
        proof {
            if before.len() > 0 {
                assert(views(self.urls_to_crawl@) =~= views(before).drop_last());
            }
        }
        r
    }

    /// Removes the normalized URL from the pending ones and records it as visited.
    pub fn mark_url_as_crawled(&mut self, url: &WebUrl)
        requires
            old(self)@.wf(),
        ensures
            final(self)@ == old(self)@.mark_visited(url@),
            final(self)@.wf(),
    {
        proof {
            use_type_invariant(url);
            lemma_apply_preserves_wf(self@, FrontierOp::MarkVisited(url@));
        }
        let stripped = CrawlContext::normalize(url);
        let ghost k = stripped@.key;
        let ghost old_pending = views(self.urls_to_crawl@);
        let mut kept: Vec<WebUrl> = Vec::new();
        let mut i: usize = 0;
        while i < self.urls_to_crawl.len()
            invariant
                i <= self.urls_to_crawl.len(),
                views(self.urls_to_crawl@) == old_pending,
                k == stripped@.key,
                views(kept@) == without_key(old_pending.take(i as int), k),
            decreases self.urls_to_crawl.len() - i,
        {
            assert(old_pending.take(i + 1).drop_last() =~= old_pending.take(i as int));
            assert(old_pending.take(i + 1).last() == self.urls_to_crawl@[i as int]@);
            let ghost s = old_pending.take(i + 1);
            assert(s.len() == i + 1);
            assert(s.last() == self.urls_to_crawl@[i as int]@);
            let same = self.urls_to_crawl[i].same_key(&stripped);
            if !same {
                let ghost kb = kept@;
                kept.push(self.urls_to_crawl[i].duplicate());
                assert(views(kept@) =~= views(kb).push(self.urls_to_crawl@[i as int]@));
                assert(s.last().key != k);
                assert(without_key(s, k) == without_key(s.drop_last(), k).push(s.last()));
            } else {
                assert(s.last().key == k);
                assert(without_key(s, k) == without_key(s.drop_last(), k));
            }
            i = i + 1;
        }
        assert(old_pending.take(i as int) =~= old_pending);
        self.urls_to_crawl = kept;
        if !contains_key(&self.urls_already_crawled, &stripped) {
            let ghost before = self.urls_already_crawled@;
            self.urls_already_crawled.push(stripped);
            assert(views(self.urls_already_crawled@) =~= views(before).push(url@.normalized()));
        }
    }

    /// Whether no URL is pending.
    pub fn is_crawling_complete(&self) -> (r: bool)
        ensures
            r == (self@.pending.len() == 0),
    {
        self.urls_to_crawl.len() == 0
    }

    /// The number of pending URLs and the number of visited ones.
    pub fn progress(&self) -> (r: (usize, usize))
        requires
            self@.wf(),
        ensures
            r.0 == self@.pending.len(),
            r.1 == self@.visited.len(),
            r.0 == self@.pending_keys().len(),
            r.1 == self@.visited_keys().len(),
    {
        proof {
            keys(self@.pending).unique_seq_to_set();
            keys(self@.visited).unique_seq_to_set();
        }
        (self.urls_to_crawl.len(), self.urls_already_crawled.len())
    }
}

impl Default for CrawlContext {
    fn default() -> (r: CrawlContext)
        ensures
            r@.pending == Seq::<WebUrlView>::empty(),
            r@.visited == Seq::<WebUrlView>::empty(),
            r@.wf(),
    {
        CrawlContext::new()
    }
}

} // verus!
