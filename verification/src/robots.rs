//! robots.txt rules, read and applied by the `texting_robots` crate.
use vstd::prelude::*;
use crate::error::TidyError;
use crate::text::{chars_of, concat_vec, string_of};

verus! {

#[verifier::external_type_specification]
#[verifier::external_body]
pub struct ExRobot(texting_robots::Robot);

/// The agent name the rules are read for: the user agent up to its first `/`.
pub open spec fn robots_agent() -> Seq<char> {
    "Tidy"@
}

/// What `texting_robots` makes of a robots.txt for an agent: the `Sitemap:`
/// entries, or the error's message.
pub uninterp spec fn robots_reading(agent: Seq<char>, txt: Seq<u8>) -> Result<Seq<Seq<char>>, Seq<char>>;

/// Whether `texting_robots` allows the agent the URL under the rules of a
/// robots.txt.
pub uninterp spec fn robots_allow(agent: Seq<char>, txt: Seq<u8>, url: Seq<char>) -> bool;

pub open spec fn strings_view(v: Seq<String>) -> Seq<Seq<char>> {
    v.map_values(|s: String| s@)
}

/// `texting_robots::Robot::new(agent, txt)`, with its `sitemaps` field read.
/// Claimed: the outcome is a function of the agent and the text.
#[verifier::external_body]
fn read_robots(agent: &str, txt: &[u8]) -> (r: Result<(texting_robots::Robot, Vec<String>), String>)
    ensures
        match r {
            Ok((_, sitemaps)) => robots_reading(agent@, txt@) == Ok::<Seq<Seq<char>>, Seq<char>>(
                strings_view(sitemaps@),
            ),
            Err(e) => robots_reading(agent@, txt@) == Err::<Seq<Seq<char>>, Seq<char>>(e@),
        },
{
    match texting_robots::Robot::new(agent, txt) {
        Ok(robot) => {
            let sitemaps = robot.sitemaps.clone();
            Ok((robot, sitemaps))
        },
        Err(error) => Err(error.to_string()),
    }
}

/// The rules of one robots.txt, read for this crawler's agent.
pub struct RobotsRules {
    robot: texting_robots::Robot,
    txt: Vec<u8>,
    sitemaps: Vec<String>,
}

impl RobotsRules {
    /// The robots.txt these rules were read from.
    pub closed spec fn text(&self) -> Seq<u8> {
        self.txt@
    }

    pub closed spec fn spec_sitemaps(&self) -> Seq<Seq<char>> {
        strings_view(self.sitemaps@)
    }

    /// The `Sitemap:` entries.
    pub fn sitemaps(&self) -> (r: &[String])
        ensures
            strings_view(r@) == self.spec_sitemaps(),
    {
        self.sitemaps.as_slice()
    }

    /// `texting_robots::Robot::allowed` on the URL's serialization, for the
    /// robot read from `self.text()`. Claimed: the answer is a function of
    /// the text, the agent and the URL.
    #[verifier::external_body]
    pub fn allowed(&self, url: &str) -> (r: bool)
        ensures
            r == robots_allow(robots_agent(), self.text(), url@),
    {
        self.robot.allowed(url)
    }
}

/// Read robots.txt for this crawler; a parse failure is an error with the
/// crate's message.
pub fn parse_robots(bytes: &[u8]) -> (r: Result<RobotsRules, TidyError>)
    ensures
        match robots_reading(robots_agent(), bytes@) {
            Ok(sitemaps) => r matches Ok(rules) && rules.text() == bytes@ && rules.spec_sitemaps()
                == sitemaps,
            Err(m) => r matches Err(TidyError::Message(msg)) && msg@ == "robots.txt parse error: "@
                + m,
        },
{
    proof {
        reveal_strlit("Tidy");
        reveal_strlit("robots.txt parse error: ");
    }
    match read_robots("Tidy", bytes) {
        Ok((robot, sitemaps)) => {
            let txt = crate::text::slice_vec(bytes, 0, bytes.len());
            assert(txt@ =~= bytes@);
            Ok(RobotsRules { robot, txt, sitemaps })
        },
        Err(m) => {
            let msg = concat_vec(chars_of("robots.txt parse error: ").as_slice(), chars_of(m.as_str()).as_slice());
            Err(TidyError::Message(string_of(msg.as_slice())))
        },
    }
}


/// Where `texting_robots` places robots.txt for a URL, or the error's message.
pub uninterp spec fn robots_location(url: Seq<char>) -> Result<Seq<char>, Seq<char>>;

/// `texting_robots::get_robots_url`. Claimed: the outcome is a function of
/// the URL text.
#[verifier::external_body]
fn locate_robots(url: &str) -> (r: Result<String, String>)
    ensures
        match r {
            Ok(u) => robots_location(url@) == Ok::<Seq<char>, Seq<char>>(u@),
            Err(e) => robots_location(url@) == Err::<Seq<char>, Seq<char>>(e@),
        },
{
    texting_robots::get_robots_url(url).map_err(|error| error.to_string())
}

/// The robots.txt URL for a page; an invalid one is an error naming the page.
pub fn robots_url(url: &str) -> (r: Result<String, TidyError>)
    ensures
        match robots_location(url@) {
            Ok(u) => r matches Ok(s) && s@ == u,
            Err(e) => r matches Err(TidyError::Message(m)) && m@ == "invalid robots URL for "@ + url@
                + ": "@ + e,
        },
{
    match locate_robots(url) {
        Ok(u) => Ok(u),
        Err(e) => {
            let a = concat_vec(chars_of("invalid robots URL for ").as_slice(), chars_of(url).as_slice());
            let b = concat_vec(a.as_slice(), chars_of(": ").as_slice());
            let c = concat_vec(b.as_slice(), chars_of(e.as_str()).as_slice());
            Err(TidyError::Message(string_of(c.as_slice())))
        },
    }
}
} // verus!
