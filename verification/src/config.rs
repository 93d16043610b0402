//! The settings the tool runs with, and how they follow from the
//! environment it is started in.
use vstd::prelude::*;

use crate::text::{chars_of, extend_str, ostr, owned, parse_int_spec, parse_u64, string_of};

verus! {

/// The settings of a run.
#[derive(Debug, Clone)]
pub struct Config {
    /// Where downloaded PDFs are stored.
    pub download_dir: String,
    pub crossref_email: Option<String>,
    pub semantic_scholar_api_key: Option<String>,
    pub unpaywall_email: String,
    pub core_api_key: Option<String>,
    pub pubmed_api_key: Option<String>,
    pub google_books_api_key: Option<String>,
    pub base_api_key: Option<String>,
    /// How long one source may take to answer, in milliseconds.
    pub provider_timeout_ms: u64,
    /// How many sources are asked at once.
    pub max_parallel_providers: usize,
}

/// The environment variables the settings are read from, each as it was
/// found (`None` when unset). The provider timeout is given in seconds in
/// the environment; here it is already converted to milliseconds.
#[derive(Debug, Clone)]
pub struct Environment {
    /// `HOME`.
    pub home: Option<String>,
    /// `USERPROFILE`.
    pub user_profile: Option<String>,
    /// `RESEARCH_MCP_DOWNLOAD_DIR`.
    pub download_dir: Option<String>,
    /// `RESEARCH_MCP_PROVIDER_TIMEOUT`, when it holds a number of seconds.
    pub provider_timeout_ms: Option<u64>,
    /// `RESEARCH_MCP_MAX_PARALLEL_PROVIDERS`.
    pub max_parallel_providers: Option<String>,
    /// `RESEARCH_MCP_CROSSREF_EMAIL`.
    pub crossref_email: Option<String>,
    /// `RESEARCH_MCP_SEMANTIC_SCHOLAR_API_KEY`.
    pub semantic_scholar_api_key: Option<String>,
    /// `RESEARCH_MCP_UNPAYWALL_EMAIL`.
    pub unpaywall_email: Option<String>,
    /// `RESEARCH_MCP_CORE_API_KEY`.
    pub core_api_key: Option<String>,
    /// `RESEARCH_MCP_PUBMED_API_KEY`.
    pub pubmed_api_key: Option<String>,
    /// `RESEARCH_MCP_GOOGLE_BOOKS_API_KEY`.
    pub google_books_api_key: Option<String>,
    /// `RESEARCH_MCP_BASE_API_KEY`.
    pub base_api_key: Option<String>,
}

/// A path with a relative one appended: `/` between them unless the first
/// is empty or already ends in `/`.
pub open spec fn path_join(a: Seq<char>, b: Seq<char>) -> Seq<char> {
    if a.len() == 0 || a.last() == '/' {
        a + b
    } else {
        a + "/"@ + b
    }
}

/// The home directory: `HOME`, else `USERPROFILE`, else `.`.
pub open spec fn home_dir(home: Option<Seq<char>>, profile: Option<Seq<char>>) -> Seq<char> {
    match home {
        Some(h) => h,
        None => match profile {
            Some(p) => p,
            None => "."@,
        },
    }
}

/// The download directory: the one configured when it is not empty, else
/// `Downloads/papers` in the home directory.
pub open spec fn download_dir_of(env_dir: Option<Seq<char>>, home: Seq<char>) -> Seq<char> {
    match env_dir {
        Some(d) => if d.len() > 0 {
            d
        } else {
            path_join(path_join(home, "Downloads"@), "papers"@)
        },
        None => path_join(path_join(home, "Downloads"@), "papers"@),
    }
}

/// The address sent to Unpaywall: the one configured when it is not empty,
/// else `user@example.com`.
pub open spec fn unpaywall_email_of(v: Option<Seq<char>>) -> Seq<char> {
    match v {
        Some(e) => if e.len() > 0 {
            e
        } else {
            "user@example.com"@
        },
        None => "user@example.com"@,
    }
}

/// How long one source may take, in milliseconds: the configured time when
/// it is at least one whole second, else 30 s.
pub open spec fn timeout_of(v: Option<u64>) -> u64 {
    match v {
        Some(t) => if t >= 1000 {
            t
        } else {
            30000
        },
        None => 30000,
    }
}

/// How many sources are asked at once: the configured number when it is
/// positive and fits a `usize`, else 5.
pub open spec fn parallel_of(v: Option<Seq<char>>) -> usize {
    match v {
        Some(s) => match parse_int_spec(s, false) {
            Some(n) => if 0 < n <= usize::MAX {
                n as usize
            } else {
                5
            },
            None => 5,
        },
        None => 5,
    }
}

fn join_path(a: &Vec<char>, b: &str) -> (r: Vec<char>)
    ensures
        r@ == path_join(a@, b@),
{
    let mut r = a.clone();
    assert(r@ == a@);
    if a.len() > 0 && a[a.len() - 1] != '/' {
        extend_str(&mut r, "/");
    }
    extend_str(&mut r, b);
    r
}

fn parallel_from(v: &Option<String>) -> (r: usize)
    ensures
        r == parallel_of(ostr(*v)),
{
    match v {
        Some(s) => match parse_u64(&chars_of(s.as_str())) {
            Some(n) => if n > 0 && n as u128 <= usize::MAX as u128 {
                n as usize
            } else {
                5
            },
            None => 5,
        },
        None => 5,
    }
}

fn copy(o: &Option<String>) -> (r: Option<String>)
    ensures
        ostr(r) == ostr(*o),
{
    match o {
        Some(s) => Some(owned(s.as_str())),
        None => None,
    }
}

impl Config {
    /// The settings an environment gives: each optional key as found, and
    /// for the others the configured value unless it is unset, empty, zero
    /// or under a second, in which case the default. Whatever the
    /// environment, at least one source is asked at once, the timeout is at
    /// least a second, and the download directory and the Unpaywall address
    /// are not empty.
    pub fn from_values(env: &Environment) -> (c: Config)
        ensures
            c.download_dir@ == download_dir_of(
                ostr(env.download_dir),
                home_dir(ostr(env.home), ostr(env.user_profile)),
            ),
            ostr(c.crossref_email) == ostr(env.crossref_email),
            ostr(c.semantic_scholar_api_key) == ostr(env.semantic_scholar_api_key),
            c.unpaywall_email@ == unpaywall_email_of(ostr(env.unpaywall_email)),
            ostr(c.core_api_key) == ostr(env.core_api_key),
            ostr(c.pubmed_api_key) == ostr(env.pubmed_api_key),
            ostr(c.google_books_api_key) == ostr(env.google_books_api_key),
            ostr(c.base_api_key) == ostr(env.base_api_key),
            c.provider_timeout_ms == timeout_of(env.provider_timeout_ms),
            c.max_parallel_providers == parallel_of(ostr(env.max_parallel_providers)),
            c.max_parallel_providers > 0,
            c.provider_timeout_ms >= 1000,
            c.unpaywall_email@.len() > 0,
            c.download_dir@.len() > 0,
    {
        let configured_dir = match &env.download_dir {
            Some(d) => chars_of(d.as_str()).len() > 0,
            None => false,
        };
        proof {
            reveal_strlit("user@example.com");
            reveal_strlit("papers");
        }
        let download_dir = match &env.download_dir {
            Some(d) if configured_dir => owned(d.as_str()),
            _ => {
                let home = match &env.home {
                    Some(h) => chars_of(h.as_str()),
                    None => match &env.user_profile {
                        Some(p) => chars_of(p.as_str()),
                        None => chars_of("."),
                    },
                };
                string_of(&join_path(&join_path(&home, "Downloads"), "papers"))
            },
        };
        Config {
            download_dir,
            crossref_email: copy(&env.crossref_email),
            semantic_scholar_api_key: copy(&env.semantic_scholar_api_key),
            unpaywall_email: match &env.unpaywall_email {
                Some(e) if chars_of(e.as_str()).len() > 0 => owned(e.as_str()),
                _ => owned("user@example.com"),
            },
            core_api_key: copy(&env.core_api_key),
            pubmed_api_key: copy(&env.pubmed_api_key),
            google_books_api_key: copy(&env.google_books_api_key),
            base_api_key: copy(&env.base_api_key),
            provider_timeout_ms: match env.provider_timeout_ms {
                Some(t) if t >= 1000 => t,
                _ => 30000,
            },
            max_parallel_providers: parallel_from(&env.max_parallel_providers),
        }
    }
}

} // verus!
