use vstd::prelude::*;
use crate::robots::is_success;
use crate::web_url::{opt_url_view, opt_view, parsed_url, url_with_path, WebUrl, WebUrlView};

verus! {

/// The type and subtype of a media type, as the `mime` crate reads it.
pub uninterp spec fn mime_parts(s: Seq<char>) -> Option<(Seq<char>, Seq<char>)>;

/// The inner HTML of the first `title` element of a document.
pub uninterp spec fn html_title(body: Seq<char>) -> Option<Seq<char>>;

/// The `href` values of the document's `a` elements, in document order.
pub uninterp spec fn html_hrefs(body: Seq<char>) -> Seq<Seq<char>>;

/// Relies on `str::parse::<mime::Mime>` and on `Mime::type_` and
/// `Mime::subtype`, which give the two names as parsed.
#[verifier::external_body]
fn mime_parts_outside(s: &str) -> (r: Option<(String, String)>)
    ensures
        match r {
            Some((t, st)) => mime_parts(s@) == Some((t@, st@)),
            None => mime_parts(s@) is None,
        },
{
    match s.parse::<mime::Mime>() {
        Ok(m) => Some((m.type_().as_str().to_string(), m.subtype().as_str().to_string())),
        Err(_) => None,
    }
}

/// Relies on scraper: `Html::parse_document`, then the first match of the
/// selector `title` and its `inner_html`.
#[verifier::external_body]
fn title_outside(body: &str) -> (r: Option<String>)
    ensures
        opt_view(r) == html_title(body@),
{
    let document = scraper::Html::parse_document(body);
    let selector = scraper::Selector::parse("title").unwrap();
    document.select(&selector).next().map(|e| e.inner_html())
}

/// Relies on scraper: `Html::parse_document`, then the matches of the
/// selector `a[href]` in document order and their `href` attribute.
#[verifier::external_body]
fn hrefs_outside(body: &str) -> (r: Vec<String>)
    ensures
        r@.map_values(|h: String| h@) == html_hrefs(body@),
{
    let document = scraper::Html::parse_document(body);
    let selector = scraper::Selector::parse("a[href]").unwrap();
    document.select(&selector).filter_map(|e| e.value().attr("href")).map(|h| h.to_string()).collect()
}

pub open spec fn has_prefix(s: Seq<char>, p: Seq<char>) -> bool {
    p.len() <= s.len() && s.subrange(0, p.len() as int) == p
}

/// Relies on `str::starts_with`, which tells whether `p` is a prefix of `s`.
#[verifier::external_body]
fn starts_with_outside(s: &str, p: &str) -> (r: bool)
    ensures
        r == has_prefix(s@, p@),
{
    s.starts_with(p)
}

/// Why fetching a page failed.
#[derive(Clone, Copy, Debug, PartialEq, Eq, Structural)]
pub enum CrawlError {
    /// The server answered with this status, not a success.
    HttpError(u16),
    /// The content type could not be read.
    MimeParseError,
    /// The content is not HTML.
    NotHtml,
    /// The request or the body transfer failed.
    TransportError,
}

/// What a failure means for the crawl.
#[derive(Clone, Copy, Debug, PartialEq, Eq, Structural)]
pub enum Severity {
    /// Recorded for the page; the crawl goes on.
    Recoverable,
    /// Ends the crawl of the seed.
    FatalToSeed,
}

pub open spec fn severity_of(e: CrawlError) -> Severity {
    match e {
        CrawlError::HttpError(_) => Severity::Recoverable,
        _ => Severity::FatalToSeed,
    }
}

impl CrawlError {
    pub fn severity(&self) -> (r: Severity)
        ensures
            r == severity_of(*self),
    {
        match self {
            CrawlError::HttpError(_) => Severity::Recoverable,
            _ => Severity::FatalToSeed,
        }
    }
}

/// What a successful fetch found on a page.
#[derive(Clone, Debug)]
pub struct CrawlResponse {
    pub url: WebUrl,
    pub status_code: u16,
    pub content_type: String,
    pub title: String,
    pub outgoing_links: Vec<WebUrl>,
    pub internal_links: Vec<WebUrl>,
}

/// How a link target is treated.
#[derive(Clone, Copy, Debug, PartialEq, Eq, Structural)]
pub enum HrefKind {
    /// A path on the page's own host.
    SameHostPath,
    /// A fragment, mail, script or phone link: not followed.
    Ignored,
    /// Anything else, read as an absolute URL.
    Absolute,
}

pub open spec fn href_kind(h: Seq<char>) -> HrefKind {
    if has_prefix(h, "/"@) {
        HrefKind::SameHostPath
    } else if has_prefix(h, "#"@) || has_prefix(h, "mailto:"@) || has_prefix(h, "javascript:"@)
        || has_prefix(h, "tel:"@) {
        HrefKind::Ignored
    } else {
        HrefKind::Absolute
    }
}

pub fn classify_href(h: &str) -> (r: HrefKind)
    ensures
        r == href_kind(h@),
{
    if starts_with_outside(h, "/") {
        HrefKind::SameHostPath
    } else if starts_with_outside(h, "#") || starts_with_outside(h, "mailto:")
        || starts_with_outside(h, "javascript:") || starts_with_outside(h, "tel:") {
        HrefKind::Ignored
    } else {
        HrefKind::Absolute
    }
}

/// The URL that one link target of `page` gives: a path is set on the page's
/// URL, an ignored link gives none, anything else is read as an absolute URL.
pub open spec fn resolved_one(page: WebUrlView, h: Seq<char>) -> Option<WebUrlView> {
    match href_kind(h) {
        HrefKind::SameHostPath => url_with_path(page.text, h),
        HrefKind::Ignored => None,
        HrefKind::Absolute => parsed_url(h),
    }
}

/// The URLs that the link targets of `page` give, in order.
pub open spec fn resolved(page: WebUrlView, hs: Seq<Seq<char>>) -> Seq<WebUrlView>
    decreases hs.len(),
{
    if hs.len() == 0 {
        Seq::empty()
    } else {
        let prev = resolved(page, hs.drop_last());
        match resolved_one(page, hs.last()) {
            Some(v) => prev.push(v),
            None => prev,
        }
    }
}

/// Turns the link targets of a page into URLs, in order: a path is set on the
/// page's URL, an ignored link is dropped, anything else is parsed; a target
/// that the `url` crate rejects is dropped.
pub fn resolve_links(page: &WebUrl, hrefs: &Vec<String>) -> (r: Vec<WebUrl>)
    ensures
        r@.map_values(|w: WebUrl| w@) == resolved(page@, hrefs@.map_values(|h: String| h@)),
{
    let ghost hs = hrefs@.map_values(|h: String| h@);
    let mut links: Vec<WebUrl> = Vec::new();
    let mut i: usize = 0;
    while i < hrefs.len()
        invariant
            i <= hrefs.len(),
            hs == hrefs@.map_values(|h: String| h@),
            links@.map_values(|w: WebUrl| w@) == resolved(page@, hs.take(i as int)),
        decreases hrefs.len() - i,
    {
        assert(hs.take(i + 1).drop_last() =~= hs.take(i as int));
        assert(hs.take(i + 1).last() == hrefs@[i as int]@);
        let h = hrefs[i].as_str();
        let next: Option<WebUrl> = match classify_href(h) {
            HrefKind::SameHostPath => page.with_path(h),
            HrefKind::Ignored => None,
            HrefKind::Absolute => match WebUrl::parse(h) {
                Ok(u) => Some(u),
                Err(_) => None,
            },
        };
        assert(opt_url_view(next) == resolved_one(page@, h@));
        if let Some(u) = next {
            let ghost l0 = links@;
            links.push(u);
            assert(links@.map_values(|w: WebUrl| w@) =~= l0.map_values(|w: WebUrl| w@).push(u@));
        }
        i = i + 1;
    }
    assert(hs.take(i as int) =~= hs);
    links
}

pub open spec fn texts(s: Seq<WebUrlView>) -> Seq<Seq<char>> {
    s.map_values(|v: WebUrlView| v.text)
}

/// The URLs in order, each serialization kept at its first occurrence.
pub open spec fn distinct_urls(s: Seq<WebUrlView>) -> Seq<WebUrlView>
    decreases s.len(),
{
    if s.len() == 0 {
        s
    } else {
        let d = distinct_urls(s.drop_last());
        if texts(d).contains(s.last().text) {
            d
        } else {
            d.push(s.last())
        }
    }
}

/// A link is internal when it has a host and that host is the page's.
pub open spec fn is_internal(page: WebUrlView, link: WebUrlView) -> bool {
    link.host is Some && link.host == page.host
}

pub open spec fn on_host(page: WebUrlView) -> spec_fn(WebUrlView) -> bool {
    |v: WebUrlView| is_internal(page, v)
}

pub open spec fn off_host(page: WebUrlView) -> spec_fn(WebUrlView) -> bool {
    |v: WebUrlView| !is_internal(page, v)
}

pub open spec fn internal_links(page: WebUrlView, s: Seq<WebUrlView>) -> Seq<WebUrlView> {
    distinct_urls(s).filter(on_host(page))
}

pub open spec fn external_links(page: WebUrlView, s: Seq<WebUrlView>) -> Seq<WebUrlView> {
    distinct_urls(s).filter(off_host(page))
}

fn contains_text(v: &Vec<WebUrl>, u: &WebUrl) -> (r: bool)
    ensures
        r == texts(v@.map_values(|w: WebUrl| w@)).contains(u@.text),
{
    let ghost vs = v@.map_values(|w: WebUrl| w@);
    let mut i: usize = 0;
    while i < v.len()
        invariant
            i <= v.len(),
            vs == v@.map_values(|w: WebUrl| w@),
            forall|j: int| 0 <= j < i ==> v@[j]@.text != u@.text,
        decreases v.len() - i,
    {
        if v[i].same_text(u) {
            assert(texts(vs)[i as int] == u@.text);
            return true;
        }
        i = i + 1;
    }
    assert forall|j: int| 0 <= j < texts(vs).len() implies texts(vs)[j] != u@.text by {
        assert(texts(vs)[j] == v@[j]@.text);
    }
    false
}

/// Splits the links of a page, each URL once, into those on the page's host
/// and the others, keeping their order.
pub fn partition_links(page: &WebUrl, links: &Vec<WebUrl>) -> (r: (Vec<WebUrl>, Vec<WebUrl>))
    ensures
        r.0@.map_values(|w: WebUrl| w@) == internal_links(page@, links@.map_values(|w: WebUrl| w@)),
        r.1@.map_values(|w: WebUrl| w@) == external_links(page@, links@.map_values(|w: WebUrl| w@)),
{
    let ghost ls = links@.map_values(|w: WebUrl| w@);
    let ghost p = page@;
    let mut seen: Vec<WebUrl> = Vec::new();
    let mut internal: Vec<WebUrl> = Vec::new();
    let mut external: Vec<WebUrl> = Vec::new();
    let mut i: usize = 0;
    while i < links.len()
        invariant
            i <= links.len(),
            ls == links@.map_values(|w: WebUrl| w@),
            p == page@,
            seen@.map_values(|w: WebUrl| w@) == distinct_urls(ls.take(i as int)),
            internal@.map_values(|w: WebUrl| w@) == distinct_urls(ls.take(i as int)).filter(
                on_host(p),
            ),
            external@.map_values(|w: WebUrl| w@) == distinct_urls(ls.take(i as int)).filter(
                off_host(p),
            ),
        decreases links.len() - i,
    {
        let ghost t = ls.take(i + 1);
        assert(t.drop_last() =~= ls.take(i as int));
        assert(t.last() == links@[i as int]@);
        let ghost d = distinct_urls(ls.take(i as int));
        let link = &links[i];
        if !contains_text(&seen, link) {
            let ghost s0 = seen@;
            let ghost n0 = internal@;
            let ghost e0 = external@;
            seen.push(link.duplicate());
            assert(seen@.map_values(|w: WebUrl| w@) =~= d.push(link@));
            assert(d.push(link@).drop_last() =~= d);
            proof {
                d.lemma_filter_push(link@, on_host(p));
                d.lemma_filter_push(link@, off_host(p));
            }
            if link.same_host(page) {
                internal.push(link.duplicate());
                assert(internal@.map_values(|w: WebUrl| w@) =~= n0.map_values(|w: WebUrl| w@).push(
                    link@,
                ));
            } else {
                external.push(link.duplicate());
                assert(external@.map_values(|w: WebUrl| w@) =~= e0.map_values(|w: WebUrl| w@).push(
                    link@,
                ));
            }
        }
        i = i + 1;
    }
    assert(ls.take(i as int) =~= ls);
    (internal, external)
}

/// The title shown for a page: its own, or "No title".
pub open spec fn title_or_default(t: Option<Seq<char>>) -> Seq<char> {
    match t {
        Some(s) => s,
        None => "No title"@,
    }
}

/// Reads a fetched page in two steps: the status and the content type
/// first, then the body.
pub struct PageCrawler {}

impl PageCrawler {
    pub fn new() -> (r: PageCrawler) {
        PageCrawler {  }
    }

    /// Decides from the status and the `Content-Type` header whether the body
    /// is worth reading; on success gives the content type to record.
    pub fn check_head(&self, status_code: u16, content_type: Option<&str>) -> (r: Result<
        String,
        CrawlError,
    >)
        ensures
            !is_success(status_code) ==> r == Err::<String, CrawlError>(
                CrawlError::HttpError(status_code),
            ),
            is_success(status_code) ==> {
                let ct = match content_type {
                    Some(c) => c@,
                    None => "unknown"@,
                };
                match mime_parts(ct) {
                    None => r == Err::<String, CrawlError>(CrawlError::MimeParseError),
                    Some((t, st)) => if t == "text"@ && st == "html"@ {
                        r matches Ok(s) && s@ == ct
                    } else {
                        r == Err::<String, CrawlError>(CrawlError::NotHtml)
                    },
                }
            },
    {
        if status_code < 200 || status_code > 299 {
            return Err(CrawlError::HttpError(status_code));
        }
        let ct: &str = match content_type {
            Some(c) => c,
            None => "unknown",
        };
        match mime_parts_outside(ct) {
            None => Err(CrawlError::MimeParseError),
            Some((t, st)) => {
                let text = String::from_str("text");
                let html = String::from_str("html");
                if t == text && st == html {
                    Ok(String::from_str(ct))
                } else {
                    Err(CrawlError::NotHtml)
                }
            },
        }
    }

    /// The record of a page whose head passed `check_head`: its title, and its
    /// links split into those on its own host and the others.
    pub fn read_page(&self, url: &WebUrl, status_code: u16, content_type: String, body: &str) -> (r:
        CrawlResponse)
        ensures
            r.url@ == url@,
            r.status_code == status_code,
            r.content_type@ == content_type@,
            r.title@ == title_or_default(html_title(body@)),
            r.internal_links@.map_values(|w: WebUrl| w@) == internal_links(
                url@,
                resolved(url@, html_hrefs(body@)),
            ),
            r.outgoing_links@.map_values(|w: WebUrl| w@) == external_links(
                url@,
                resolved(url@, html_hrefs(body@)),
            ),
    {
        let title = match title_outside(body) {
            Some(t) => t,
            None => String::from_str("No title"),
        };
        let hrefs = hrefs_outside(body);
        let links = resolve_links(url, &hrefs);
        let (internal, external) = partition_links(url, &links);
        CrawlResponse {
            url: url.duplicate(),
            status_code,
            content_type,
            title,
            outgoing_links: external,
            internal_links: internal,
        }
    }
}

} // verus!
