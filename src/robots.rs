use vstd::prelude::*;
use vstd::utf8::is_ascii_chars;

verus! {

/// Whether the robots file `content` lets the crawler `agent` fetch `path`,
/// as the `robots_txt` crate decides it.
pub uninterp spec fn robots_verdict(content: Seq<char>, agent: Seq<char>, path: Seq<char>) -> bool;

/// Relies on robots_txt: `Robots::from_str_lossy` reads the file,
/// `choose_section` picks the agent's section, and `SimpleMatcher::new` with
/// `check_path` decides the path. Both slice the agent and the path at the
/// byte lengths of the file's entries, which stay on character boundaries in
/// ASCII text. An empty file has no rules, and then every path is allowed.
#[verifier::external_body]
fn robots_check_outside(content: &str, agent: &str, path: &str) -> (r: bool)
    requires
        is_ascii_chars(agent@),
        is_ascii_chars(path@),
    ensures
        r == robots_verdict(content@, agent@, path@),
        content@.len() == 0 ==> r,
{
    let robots = robots_txt::Robots::from_str_lossy(content);
    let section = robots.choose_section(agent);
    robots_txt::matcher::SimpleMatcher::new(&section.rules).check_path(path)
}

/// Whether the robots file lets the agent fetch the path: an empty file
/// allows everything, any other is read by the `robots_txt` crate.
pub open spec fn policy_allows(content: Seq<char>, agent: Seq<char>, path: Seq<char>) -> bool {
    content.len() == 0 || robots_verdict(content, agent, path)
}

/// Why a host's robots file could not be had.
#[derive(Clone, Copy, Debug, PartialEq, Eq, Structural)]
pub enum RobotsError {
    /// The server answered with this status, neither a success nor 404.
    Status(u16),
}

/// A host's robots file, with the agent that the crawler calls itself.
#[derive(Clone, Debug)]
pub struct RobotsTxtSource {
    content: String,
    agent: String,
}

/// Whether an HTTP status is a success (2xx).
pub open spec fn is_success(status: u16) -> bool {
    200 <= status <= 299
}

impl RobotsTxtSource {
    pub closed spec fn content_view(&self) -> Seq<char> {
        self.content@
    }

    pub closed spec fn agent_view(&self) -> Seq<char> {
        self.agent@
    }

    /// The robots file after a fetch that answered `status`, with `body` read
    /// on success: a missing file (404) allows everything, any other failure is
    /// an error.
    pub fn from_response(status: u16, body: String, agent: &str) -> (r: Result<
        RobotsTxtSource,
        RobotsError,
    >)
        ensures
            r is Ok <==> is_success(status) || status == 404,
            is_success(status) ==> (r matches Ok(s) && s.content_view() == body@),
            status == 404 ==> (r matches Ok(s) && s.content_view().len() == 0),
            r is Err ==> r == Err::<RobotsTxtSource, RobotsError>(RobotsError::Status(status)),
            r matches Ok(s) ==> s.agent_view() == agent@,
    {
        if 200 <= status && status <= 299 {
            Ok(RobotsTxtSource { content: body, agent: agent.to_owned() })
        } else if status == 404 {
            Ok(RobotsTxtSource { content: String::new(), agent: agent.to_owned() })
        } else {
            Err(RobotsError::Status(status))
        }
    }

    /// A view of the file for matching.
    pub fn view(&self) -> (r: RobotsTxtView)
        ensures
            r.content_view() == self.content_view(),
            r.agent_view() == self.agent_view(),
    {
        RobotsTxtView::new(self.content.clone(), self.agent.clone())
    }
}

/// The robots file read for one agent.
#[derive(Clone, Debug)]
pub struct RobotsTxtView {
    content: String,
    agent: String,
}

impl RobotsTxtView {
    pub closed spec fn content_view(&self) -> Seq<char> {
        self.content@
    }

    pub closed spec fn agent_view(&self) -> Seq<char> {
        self.agent@
    }

    pub fn new(content: String, agent: String) -> (r: RobotsTxtView)
        ensures
            r.content_view() == content@,
            r.agent_view() == agent@,
    {
        RobotsTxtView { content, agent }
    }

    /// The path test of the agent's section.
    pub fn matcher(&self) -> (r: RobotsTxtMatcher)
        ensures
            r.content_view() == self.content_view(),
            r.agent_view() == self.agent_view(),
    {
        RobotsTxtMatcher::new(self.content.clone(), self.agent.clone())
    }
}

/// Decides which paths the agent may fetch.
#[derive(Clone, Debug)]
pub struct RobotsTxtMatcher {
    content: String,
    agent: String,
}

impl RobotsTxtMatcher {
    pub closed spec fn content_view(&self) -> Seq<char> {
        self.content@
    }

    pub closed spec fn agent_view(&self) -> Seq<char> {
        self.agent@
    }

    pub open spec fn allows(&self, path: Seq<char>) -> bool {
        policy_allows(self.content_view(), self.agent_view(), path)
    }

    pub fn new(content: String, agent: String) -> (r: RobotsTxtMatcher)
        ensures
            r.content_view() == content@,
            r.agent_view() == agent@,
    {
        RobotsTxtMatcher { content, agent }
    }

    /// Whether the agent may fetch `path`.
    pub fn check_path(&self, path: &str) -> (r: bool)
        requires
            is_ascii_chars(self.agent_view()),
            is_ascii_chars(path@),
        ensures
            r == self.allows(path@),
    {
        robots_check_outside(self.content.as_str(), self.agent.as_str(), path)
    }
}

} // verus!
