//! Host configuration and credential lookup.
//!
//! A [`Config`] holds the local source directory and, per host, how the
//! fork-parent of a repository on that host may be queried. The resolver
//! asks for a credential before every hop; a host without one aborts the
//! walk.

use vstd::prelude::*;

verus! {

/// How fork resolution is performed for one host.
pub enum ForkResolutionMethod {
    /// Query the host's GraphQL API with the given bearer token.
    Github { api_token: String },
    /// Fork resolution is not configured for the host.
    Disabled,
}

impl Default for ForkResolutionMethod {
    fn default() -> (r: Self)
        ensures
            r is Disabled,
    {
        ForkResolutionMethod::Disabled
    }
}

/// Configuration for one host, keyed by its domain name.
pub struct HostEntry {
    pub host: String,
    pub fork_resolution: ForkResolutionMethod,
}

/// Loaded configuration: the local source directory and the per-host
/// entries. Hosts are looked up by exact string match; when a host
/// appears more than once, the first entry wins.
pub struct Config {
    pub local_src_dir: String,
    pub hosts: Vec<HostEntry>,
}

/// The fork-resolution method configured for host `h`: that of the first
/// entry whose host matches exactly.
pub open spec fn method_for(entries: Seq<HostEntry>, h: Seq<char>) -> Option<ForkResolutionMethod>
    decreases entries.len(),
{
    if entries.len() == 0 {
        None
    } else if entries[0].host@ == h {
        Some(entries[0].fork_resolution)
    } else {
        method_for(entries.drop_first(), h)
    }
}

/// The API token configured for host `h`, present exactly when the host
/// is configured with a GitHub-style fork-resolution method.
pub open spec fn token_for(c: &Config, h: Seq<char>) -> Option<Seq<char>> {
    match method_for(c.hosts@, h) {
        Some(ForkResolutionMethod::Github { api_token }) => Some(api_token@),
        _ => None,
    }
}

/// Character-for-character equality of two strings.
fn str_eq(a: &str, b: &str) -> (r: bool)
    ensures
        r == (a@ == b@),
{
    let na = a.unicode_len();
    let nb = b.unicode_len();
    if na != nb {
        return false;
    }
    let mut i: usize = 0;
    while i < na
        invariant
            na == a@.len(),
            nb == b@.len(),
            na == nb,
            i <= na,
            forall|j: int| 0 <= j < i ==> a@[j] == b@[j],
        decreases na - i,
    {
        if a.get_char(i) != b.get_char(i) {
            return false;
        }
        i = i + 1;
    }
    proof {
        assert(a@ =~= b@);
    }
    true
}

impl Config {
    /// The API token for `host`, when the host is configured with a
    /// GitHub-style fork-resolution method; the error for an
    /// unconfigured host or one configured without a token.
    pub fn get_github_api_token(&self, host: &str) -> (r: Result<String, &'static str>)
        ensures
            match r {
                Ok(t) => token_for(self, host@) == Some(t@),
                Err(m) => token_for(self, host@) is None && m@ == "not github url"@,
            },
    {
        let n = self.hosts.len();
        let mut i: usize = 0;
        proof {
            assert(self.hosts@.skip(0) =~= self.hosts@);
        }
        while i < n
            invariant
                n == self.hosts@.len(),
                i <= n,
                method_for(self.hosts@, host@) == method_for(self.hosts@.skip(i as int), host@),
            decreases n - i,
        {
            proof {
                assert(self.hosts@.skip(i as int)[0] == self.hosts@[i as int]);
                assert(self.hosts@.skip(i as int).drop_first() =~= self.hosts@.skip(i as int + 1));
            }
            let entry = &self.hosts[i];
            if str_eq(entry.host.as_str(), host) {
                match &entry.fork_resolution {
                    ForkResolutionMethod::Github { api_token } => {
                        return Ok(api_token.clone());
                    },
                    ForkResolutionMethod::Disabled => {
                        return Err("not github url");
                    },
                }
            }
            i = i + 1;
        }
        proof {
            assert(self.hosts@.skip(n as int) =~= Seq::<HostEntry>::empty());
        }
        Err("not github url")
    }
}

} // verus!
