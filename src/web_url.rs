use vstd::prelude::*;
use vstd::utf8::is_ascii_chars;

verus! {

/// What the library knows of an absolute URL, as plain text.
pub struct WebUrlView {
    /// The full serialization.
    pub text: Seq<char>,
    /// The serialization with query and fragment removed: the dedup key.
    pub key: Seq<char>,
    /// The percent-encoded path.
    pub path: Seq<char>,
    /// The host, where the URL has one.
    pub host: Option<Seq<char>>,
}

/// An absolute URL, held as the text that the `url` crate reports for it.
#[derive(Debug)]
pub struct WebUrl {
    text: String,
    key: String,
    path: String,
    host: Option<String>,
}

pub open spec fn opt_view(o: Option<String>) -> Option<Seq<char>> {
    match o {
        Some(s) => Some(s@),
        None => None,
    }
}

impl View for WebUrl {
    type V = WebUrlView;

    closed spec fn view(&self) -> WebUrlView {
        WebUrlView { text: self.text@, key: self.key@, path: self.path@, host: opt_view(self.host) }
    }
}

/// Whether `c` opens a query or a fragment.
pub open spec fn opens_query_or_fragment(c: char) -> bool {
    c == '?' || c == '#'
}

/// `n` is where the query or the fragment of `t` starts, or the length of
/// `t` when it has neither.
pub open spec fn cut_at(t: Seq<char>, n: int) -> bool {
    &&& 0 <= n <= t.len()
    &&& forall|j: int| 0 <= j < n ==> !opens_query_or_fragment(#[trigger] t[j])
    &&& (n == t.len() || opens_query_or_fragment(t[n]))
}

/// Where a text's query or fragment starts is one place.
pub proof fn lemma_cut_unique(t: Seq<char>, n1: int, n2: int)
    requires
        cut_at(t, n1),
        cut_at(t, n2),
    ensures
        n1 == n2,
{
    if n1 < n2 {
        assert(!opens_query_or_fragment(t[n1]));
    } else if n2 < n1 {
        assert(!opens_query_or_fragment(t[n2]));
    }
}

/// Normalizing keeps a URL well formed.
pub proof fn lemma_normalized_wf(v: WebUrlView)
    requires
        v.wf(),
    ensures
        v.normalized().wf(),
{
    if v.has_slash_path() {
        assert(v.key.take(v.key.len() as int) =~= v.key);
        assert forall|j: int| 0 <= j < v.key.len() implies !opens_query_or_fragment(
            #[trigger] v.key[j],
        ) by {
            assert(v.key[j] == v.text[j]);
        }
    }
}

impl WebUrlView {
    /// Whether the path is hierarchical, as in every URL with a host.
    pub open spec fn has_slash_path(self) -> bool {
        self.path.len() > 0 && self.path[0] == '/'
    }

    /// The URL with its query and fragment stripped.
    pub open spec fn normalized(self) -> WebUrlView {
        WebUrlView { text: self.key, key: self.key, path: self.path, host: self.host }
    }

    pub open spec fn is_normalized(self) -> bool {
        self.text == self.key
    }

    /// The path is ASCII; for a hierarchical path, the stripped form is the
    /// text up to where its query or fragment starts.
    pub open spec fn wf(self) -> bool {
        &&& is_ascii_chars(self.path)
        &&& self.has_slash_path() ==> cut_at(self.text, self.key.len() as int) && self.key
            == self.text.take(self.key.len() as int)
    }
}


/// The text was not an absolute URL.
#[derive(Clone, Copy, Debug, PartialEq, Eq, Structural)]
pub struct InvalidUrl;

pub open spec fn opt_url_view(o: Option<WebUrl>) -> Option<WebUrlView> {
    match o {
        Some(u) => Some(u@),
        None => None,
    }
}

/// The URL that the `url` crate reads from a text, if the text is an absolute URL.
pub uninterp spec fn parsed_url(s: Seq<char>) -> Option<WebUrlView>;

/// The URL that the `url` crate gives when it reads `text` and sets `path` on it.
pub uninterp spec fn url_with_path(text: Seq<char>, path: Seq<char>) -> Option<WebUrlView>;

/// Relies on `url::Url::parse`, then on the accessors: `as_str` gives the
/// serialization, `path` the path as a percent-encoded ASCII string,
/// `host_str` the host, and `set_fragment(None)` with `set_query(None)` on a
/// copy cut the serialization where the query or fragment starts. For a path
/// that starts with '/' nothing else changes (only an opaque path loses
/// trailing spaces), and the serialization before that place holds no '?' and
/// no '#': they are percent-encoded in userinfo and path, and forbidden in hosts.
#[verifier::external_body]
fn parse_outside(s: &str) -> (r: Option<WebUrl>)
    ensures
        opt_url_view(r) == parsed_url(s@),
        r matches Some(u) ==> u@.wf(),
{
    let u = url::Url::parse(s).ok()?;
    let mut stripped = u.clone();
    stripped.set_fragment(None);
    stripped.set_query(None);
    let host = u.host_str().map(|h| h.to_string());
    Some(WebUrl { text: u.as_str().into(), key: stripped.as_str().into(), path: u.path().into(), host })
}

/// Relies on `url::Url::parse` and `url::Url::set_path`, which replaces the
/// path; the result is read as in `parse_outside`.
#[verifier::external_body]
fn with_path_outside(text: &str, path: &str) -> (r: Option<WebUrl>)
    ensures
        opt_url_view(r) == url_with_path(text@, path@),
        r matches Some(u) ==> u@.wf(),
{
    let mut u = url::Url::parse(text).ok()?;
    u.set_path(path);
    let mut stripped = u.clone();
    stripped.set_fragment(None);
    stripped.set_query(None);
    let host = u.host_str().map(|h| h.to_string());
    Some(WebUrl { text: u.as_str().into(), key: stripped.as_str().into(), path: u.path().into(), host })
}

fn copy_host(h: &Option<String>) -> (r: Option<String>)
    ensures
        opt_view(r) == opt_view(*h),
{
    match h {
        Some(s) => Some(s.clone()),
        None => None,
    }
}

impl WebUrl {
    /// The path of every URL is ASCII: the `url` crate percent-encodes it.
    #[verifier::type_invariant]
    pub open spec fn inv(&self) -> bool {
        self@.wf()
    }

    /// Reads an absolute URL; the `url` crate decides which texts are valid.
    pub fn parse(s: &str) -> (r: Result<WebUrl, InvalidUrl>)
        ensures
            r is Ok <==> parsed_url(s@) is Some,
            r matches Ok(u) ==> parsed_url(s@) == Some(u@),
            r matches Ok(u) ==> u@.wf(),
    {
        match parse_outside(s) {
            Some(u) => Ok(u),
            None => Err(InvalidUrl),
        }
    }

    /// The same URL with its path replaced by `path`, as the `url` crate sets it.
    pub fn with_path(&self, path: &str) -> (r: Option<WebUrl>)
        ensures
            opt_url_view(r) == url_with_path(self@.text, path@),
            r matches Some(u) ==> u@.wf(),
    {
        with_path_outside(self.text.as_str(), path)
    }

    /// A copy of this URL, with the same text.
    pub fn duplicate(&self) -> (r: WebUrl)
        ensures
            r@ == self@,
    {
        proof {
            use_type_invariant(self);
        }
        WebUrl {
            text: self.text.clone(),
            key: self.key.clone(),
            path: self.path.clone(),
            host: copy_host(&self.host),
        }
    }

    /// This URL with its query and fragment removed.
    pub fn normalized(&self) -> (r: WebUrl)
        ensures
            r@ == self@.normalized(),
    {
        proof {
            use_type_invariant(self);
            lemma_normalized_wf(self@);
        }
        WebUrl {
            text: self.key.clone(),
            key: self.key.clone(),
            path: self.path.clone(),
            host: copy_host(&self.host),
        }
    }

    pub fn as_str(&self) -> (r: &str)
        ensures
            r@ == self@.text,
    {
        self.text.as_str()
    }

    /// The serialization with query and fragment removed.
    pub fn key(&self) -> (r: &str)
        ensures
            r@ == self@.key,
    {
        self.key.as_str()
    }

    pub fn path(&self) -> (r: &str)
        ensures
            r@ == self@.path,
    {
        self.path.as_str()
    }

    pub fn host(&self) -> (r: Option<&str>)
        ensures
            r matches Some(h) ==> self@.host == Some(h@),
            r is None ==> self@.host is None,
    {
        match &self.host {
            Some(h) => Some(h.as_str()),
            None => None,
        }
    }

    /// Whether the two URLs have the same dedup key.
    pub fn same_key(&self, other: &WebUrl) -> (r: bool)
        ensures
            r == (self@.key == other@.key),
    {
        self.key == other.key
    }

    /// Whether the two URLs have the same serialization.
    pub fn same_text(&self, other: &WebUrl) -> (r: bool)
        ensures
            r == (self@.text == other@.text),
    {
        self.text == other.text
    }

    /// Whether the two URLs have the same host; a URL without one shares it with none.
    pub fn same_host(&self, other: &WebUrl) -> (r: bool)
        ensures
            r == (self@.host is Some && self@.host == other@.host),
    {
        match (&self.host, &other.host) {
            (Some(a), Some(b)) => *a == *b,
            _ => false,
        }
    }
}

impl Clone for WebUrl {
    fn clone(&self) -> (r: WebUrl)
        ensures
            r@ == self@,
    {
        self.duplicate()
    }
}

} // verus!
