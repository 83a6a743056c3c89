//! Repository identities and the data derived from them.
//!
//! A [`RepoRef`] is the normalized `(host, owner, name)` identity of a
//! hosted repository, parsed from a repository URL of the shape
//! `scheme://host/owner/name`, with an optional trailing `.git` on the
//! name; a query, a fragment, a `userinfo@` prefix or a `:port` suffix
//! on the host may be present and are discarded.
//! A [`RepoInfo`] enriches it with everything needed to materialize
//! the repository locally: clone URL, relative directory, remote name.

use vstd::prelude::*;

verus! {

use crate::errors::ResolveError;

/// Identity of a hosted repository. Equality is case-sensitive string
/// equality on all three fields; `name` is stored with any trailing
/// `.git` suffix already stripped when it comes from a URL.
pub struct RepoRef {
    pub host: String,
    pub owner: String,
    pub name: String,
}

/// Mathematical image of a [`RepoRef`]: its three components as
/// character sequences.
#[verifier::ext_equal]
pub ghost struct RepoRefV {
    pub host: Seq<char>,
    pub owner: Seq<char>,
    pub name: Seq<char>,
}

impl View for RepoRef {
    type V = RepoRefV;

    open spec fn view(&self) -> RepoRefV {
        RepoRefV { host: self.host@, owner: self.owner@, name: self.name@ }
    }
}

impl RepoRef {
    /// A fresh `RepoRef` denoting the same repository.
    pub fn duplicate(&self) -> (r: RepoRef)
        ensures
            r@ == self@,
    {
        RepoRef {
            host: self.host.clone(),
            owner: self.owner.clone(),
            name: self.name.clone(),
        }
    }

    /// The `owner/name` form under which the repository is usually
    /// written.
    pub fn slug(&self) -> (r: String)
        ensures
            r@ == self@.owner + "/"@ + self@.name,
    {
        let mut r = self.owner.clone();
        r.append("/");
        r.append(self.name.as_str());
        r
    }
}

/// A repository together with the data needed to materialize it locally.
pub struct RepoInfo {
    /// Canonical clone URL: `https://{host}/{owner}/{name}.git`.
    pub git_url: String,
    /// Relative directory `{host}/{owner}/{name}`.
    pub local_dir: String,
    /// Name under which this repository is attached as a git remote of
    /// its upstream: the owner.
    pub remote_name: String,
}

/// Mathematical image of a [`RepoInfo`].
#[verifier::ext_equal]
pub ghost struct RepoInfoV {
    pub git_url: Seq<char>,
    pub local_dir: Seq<char>,
    pub remote_name: Seq<char>,
}

impl View for RepoInfo {
    type V = RepoInfoV;

    open spec fn view(&self) -> RepoInfoV {
        RepoInfoV {
            git_url: self.git_url@,
            local_dir: self.local_dir@,
            remote_name: self.remote_name@,
        }
    }
}

/// The canonical clone URL derived from a repository identity.
pub open spec fn git_url_of(r: RepoRefV) -> Seq<char> {
    "https://"@ + r.host + "/"@ + r.owner + "/"@ + r.name + ".git"@
}

/// The relative local directory derived from a repository identity:
/// host, owner and name as nested path segments.
pub open spec fn local_dir_of(r: RepoRefV) -> Seq<char> {
    r.host + "/"@ + r.owner + "/"@ + r.name
}

/// The full materialization data derived from a repository identity.
pub open spec fn repo_info_of(r: RepoRefV) -> RepoInfoV {
    RepoInfoV {
        git_url: git_url_of(r),
        local_dir: local_dir_of(r),
        remote_name: r.owner,
    }
}

/// First index at which `c` occurs in `s`, or `-1` if it does not occur.
pub open spec fn find_char(s: Seq<char>, c: char) -> int
    decreases s.len(),
{
    if s.len() == 0 {
        -1
    } else if s[0] == c {
        0
    } else if find_char(s.drop_first(), c) == -1 {
        -1
    } else {
        find_char(s.drop_first(), c) + 1
    }
}

pub proof fn lemma_find_char_at(s: Seq<char>, c: char, k: int)
    requires
        0 <= k < s.len(),
        s[k] == c,
        forall|i: int| 0 <= i < k ==> s[i] != c,
    ensures
        find_char(s, c) == k,
    decreases s.len(),
{
    if k > 0 {
        assert(s[0] != c);
        assert(s.drop_first()[k - 1] == c);
        assert forall|i: int| 0 <= i < k - 1 implies s.drop_first()[i] != c by {
            assert(s.drop_first()[i] == s[i + 1]);
        }
        lemma_find_char_at(s.drop_first(), c, k - 1);
    }
}

pub proof fn lemma_find_char_none(s: Seq<char>, c: char)
    requires
        forall|i: int| 0 <= i < s.len() ==> s[i] != c,
    ensures
        find_char(s, c) == -1,
    decreases s.len(),
{
    if s.len() > 0 {
        assert forall|i: int| 0 <= i < s.len() - 1 implies s.drop_first()[i] != c by {
            assert(s.drop_first()[i] == s[i + 1]);
        }
        lemma_find_char_none(s.drop_first(), c);
    }
}

/// Last index at which `c` occurs in `s`, or `-1` if it does not occur.
pub open spec fn find_last_char(s: Seq<char>, c: char) -> int
    decreases s.len(),
{
    if s.len() == 0 {
        -1
    } else if s[s.len() - 1] == c {
        s.len() - 1
    } else {
        find_last_char(s.drop_last(), c)
    }
}

pub proof fn lemma_find_last_char_at(s: Seq<char>, c: char, k: int)
    requires
        0 <= k < s.len(),
        s[k] == c,
        forall|i: int| k < i < s.len() ==> s[i] != c,
    ensures
        find_last_char(s, c) == k,
    decreases s.len(),
{
    if k < s.len() - 1 {
        assert(s[s.len() - 1] != c);
        assert(s.drop_last()[k] == c);
        assert forall|i: int| k < i < s.len() - 1 implies s.drop_last()[i] != c by {
            assert(s.drop_last()[i] == s[i]);
        }
        lemma_find_last_char_at(s.drop_last(), c, k);
    }
}

pub proof fn lemma_find_last_char_none(s: Seq<char>, c: char)
    requires
        forall|i: int| 0 <= i < s.len() ==> s[i] != c,
    ensures
        find_last_char(s, c) == -1,
    decreases s.len(),
{
    if s.len() > 0 {
        assert forall|i: int| 0 <= i < s.len() - 1 implies s.drop_last()[i] != c by {
            assert(s.drop_last()[i] == s[i]);
        }
        lemma_find_last_char_none(s.drop_last(), c);
    }
}

/// The name of a repository as stored: a trailing `.git` suffix, when
/// present, is stripped from the name segment of a URL.
pub open spec fn strip_git(name: Seq<char>) -> Seq<char> {
    if name.len() >= 4 && name.subrange(name.len() - 4, name.len() as int) == seq!['.', 'g', 'i', 't'] {
        name.subrange(0, name.len() - 4)
    } else {
        name
    }
}

/// Where the query or fragment of a URL begins: the first `?` or `#`,
/// or the end of the string when there is neither.
pub open spec fn stop_at(s: Seq<char>) -> int {
    let q = find_char(s, '?');
    let f = find_char(s, '#');
    if q == -1 && f == -1 {
        s.len() as int
    } else if q == -1 {
        f
    } else if f == -1 {
        q
    } else if q < f {
        q
    } else {
        f
    }
}

/// The URL with its query and fragment discarded.
pub open spec fn truncated(s: Seq<char>) -> Seq<char> {
    s.subrange(0, stop_at(s))
}

/// The host of a URL authority: any `userinfo@` prefix (up to the last
/// `@`) and any `:port` suffix are dropped.
pub open spec fn host_of_authority(a: Seq<char>) -> Seq<char> {
    let ai = find_last_char(a, '@');
    let hp = a.subrange(ai + 1, a.len() as int);
    let pi = find_char(hp, ':');
    if pi == -1 {
        hp
    } else {
        hp.subrange(0, pi)
    }
}

/// The result of parsing a repository URL. The query and fragment, when
/// present, are discarded first; the remainder must have the shape
/// `scheme "://" authority "/" owner "/" name`, with scheme and owner
/// non-empty and owner and name free of further `/` separators. The
/// host is the authority with any `userinfo@` prefix and `:port` suffix
/// dropped, and must be non-empty; a trailing `.git` on the name is
/// stripped. Everything else is rejected.
pub open spec fn parse_spec(s0: Seq<char>) -> Option<RepoRefV> {
    let s = truncated(s0);
    let ci = find_char(s, ':');
    if ci < 1 || ci + 3 > s.len() || s[ci + 1] != '/' || s[ci + 2] != '/' {
        None
    } else {
        let rest = s.subrange(ci + 3, s.len() as int);
        let hi = find_char(rest, '/');
        if hi <= 0 {
            None
        } else {
            let host = host_of_authority(rest.subrange(0, hi));
            let tail = rest.subrange(hi + 1, rest.len() as int);
            let oi = find_char(tail, '/');
            if host.len() == 0 || oi <= 0 {
                None
            } else {
                let raw = tail.subrange(oi + 1, tail.len() as int);
                if raw.len() == 0 || find_char(raw, '/') != -1 {
                    None
                } else {
                    Some(RepoRefV {
                        host,
                        owner: tail.subrange(0, oi),
                        name: strip_git(raw),
                    })
                }
            }
        }
    }
}

/// First index of `c` in `s`, scanning left to right.
fn find_char_in(s: &str, c: char) -> (r: Option<usize>)
    ensures
        match r {
            Some(i) => {
                &&& i < s@.len()
                &&& s@[i as int] == c
                &&& find_char(s@, c) == i as int
            },
            None => find_char(s@, c) == -1,
        },
{
    let n = s.unicode_len();
    let mut i: usize = 0;
    while i < n
        invariant
            n == s@.len(),
            i <= n,
            forall|j: int| 0 <= j < i ==> s@[j] != c,
        decreases n - i,
    {
        if s.get_char(i) == c {
            proof {
                lemma_find_char_at(s@, c, i as int);
            }
            return Some(i);
        }
        i = i + 1;
    }
    proof {
        lemma_find_char_none(s@, c);
    }
    None
}

/// Last index of `c` in `s`, scanning left to right and keeping the
/// latest hit.
fn find_last_char_in(s: &str, c: char) -> (r: Option<usize>)
    ensures
        match r {
            Some(i) => {
                &&& i < s@.len()
                &&& s@[i as int] == c
                &&& find_last_char(s@, c) == i as int
            },
            None => find_last_char(s@, c) == -1,
        },
{
    let n = s.unicode_len();
    let mut i: usize = 0;
    let mut hit: Option<usize> = None;
    while i < n
        invariant
            n == s@.len(),
            i <= n,
            match hit {
                Some(j) => {
                    &&& j < i
                    &&& s@[j as int] == c
                    &&& forall|m: int| j < m < i ==> s@[m] != c
                },
                None => forall|m: int| 0 <= m < i ==> s@[m] != c,
            },
        decreases n - i,
    {
        if s.get_char(i) == c {
            hit = Some(i);
        }
        i = i + 1;
    }
    proof {
        match hit {
            Some(j) => lemma_find_last_char_at(s@, c, j as int),
            None => lemma_find_last_char_none(s@, c),
        }
    }
    hit
}

impl RepoRef {
    /// Parse a repository URL of the shape
    /// `scheme://[userinfo@]host[:port]/owner/name[.git][?query][#fragment]`
    /// into its identity. The query, fragment, userinfo and port are
    /// discarded; a trailing `.git` is stripped from the name. Fails
    /// with `InvalidRepoUrl` when the URL has no host or its path does
    /// not split into exactly two non-empty segments.
    #[verifier::rlimit(60)]
    pub fn parse(url: &str) -> (r: Result<RepoRef, ResolveError>)
        ensures
            match r {
                Ok(repo) => parse_spec(url@) == Some(repo@),
                Err(e) => parse_spec(url@) is None && e == ResolveError::InvalidRepoUrl,
            },
    {
        let n0 = url.unicode_len();
        let q = find_char_in(url, '?');
        let f = find_char_in(url, '#');
        let stop: usize = match (q, f) {
            (None, None) => n0,
            (Some(a), None) => a,
            (None, Some(b)) => b,
            (Some(a), Some(b)) => if a < b {
                a
            } else {
                b
            },
        };
        proof {
            assert(stop as int == stop_at(url@));
        }
        let s = url.substring_char(0, stop);
        let n = stop;
        let ci = match find_char_in(s, ':') {
            Some(i) => i,
            None => {
                return Err(ResolveError::InvalidRepoUrl);
            },
        };
        if ci < 1 || n - ci < 3 {
            return Err(ResolveError::InvalidRepoUrl);
        }
        if s.get_char(ci + 1) != '/' || s.get_char(ci + 2) != '/' {
            return Err(ResolveError::InvalidRepoUrl);
        }
        let rest = s.substring_char(ci + 3, n);
        let rn = n - ci - 3;
        let hi = match find_char_in(rest, '/') {
            Some(i) => i,
            None => {
                return Err(ResolveError::InvalidRepoUrl);
            },
        };
        if hi == 0 {
            return Err(ResolveError::InvalidRepoUrl);
        }
        let authority = rest.substring_char(0, hi);
        let host_port = match find_last_char_in(authority, '@') {
            Some(a) => authority.substring_char(a + 1, hi),
            None => {
                proof {
                    assert(authority@.subrange(0, hi as int) =~= authority@);
                }
                authority
            },
        };
        let host = match find_char_in(host_port, ':') {
            Some(p) => host_port.substring_char(0, p),
            None => host_port,
        };
        proof {
            assert(host@ == host_of_authority(rest@.subrange(0, hi as int)));
        }
        if host.unicode_len() == 0 {
            return Err(ResolveError::InvalidRepoUrl);
        }
        let tail = rest.substring_char(hi + 1, rn);
        let tn = rn - hi - 1;
        let oi = match find_char_in(tail, '/') {
            Some(i) => i,
            None => {
                return Err(ResolveError::InvalidRepoUrl);
            },
        };
        if oi == 0 {
            return Err(ResolveError::InvalidRepoUrl);
        }
        let owner = tail.substring_char(0, oi);
        let raw = tail.substring_char(oi + 1, tn);
        let rawn = tn - oi - 1;
        if rawn == 0 {
            return Err(ResolveError::InvalidRepoUrl);
        }
        match find_char_in(raw, '/') {
            Some(_) => {
                return Err(ResolveError::InvalidRepoUrl);
            },
            None => {},
        }
        let name = if rawn >= 4 && raw.get_char(rawn - 4) == '.' && raw.get_char(rawn - 3) == 'g'
            && raw.get_char(rawn - 2) == 'i' && raw.get_char(rawn - 1) == 't' {
            proof {
                assert(raw@.subrange(rawn - 4, rawn as int) =~= seq!['.', 'g', 'i', 't']);
            }
            raw.substring_char(0, rawn - 4)
        } else {
            proof {
                let l = raw@.len() as int;
                if l >= 4 && raw@.subrange(l - 4, l) == seq!['.', 'g', 'i', 't'] {
                    assert(raw@.subrange(l - 4, l)[0] == raw@[l - 4]);
                    assert(raw@.subrange(l - 4, l)[1] == raw@[l - 3]);
                    assert(raw@.subrange(l - 4, l)[2] == raw@[l - 2]);
                    assert(raw@.subrange(l - 4, l)[3] == raw@[l - 1]);
                    assert(false);
                }
            }
            raw
        };
        let repo = RepoRef { host: host.to_owned(), owner: owner.to_owned(), name: name.to_owned() };
        proof {
            assert(s@ == truncated(url@));
            assert(strip_git(tail@.subrange(oi + 1, tn as int)) == repo@.name);
            assert(parse_spec(url@) == Some(repo@));
        }
        Ok(repo)
    }

    /// Derive the materialization data for this repository. Deterministic
    /// and pure: the clone URL is `https://{host}/{owner}/{name}.git`, the
    /// local directory `{host}/{owner}/{name}`, the remote name the owner.
    pub fn to_repo_info(&self) -> (info: RepoInfo)
        ensures
            info@ == repo_info_of(self@),
    {
        let mut git_url = "https://".to_owned();
        git_url.append(self.host.as_str());
        git_url.append("/");
        git_url.append(self.owner.as_str());
        git_url.append("/");
        git_url.append(self.name.as_str());
        git_url.append(".git");

        let mut local_dir = self.host.clone();
        local_dir.append("/");
        local_dir.append(self.owner.as_str());
        local_dir.append("/");
        local_dir.append(self.name.as_str());

        let info = RepoInfo {
            git_url,
            local_dir,
            remote_name: self.owner.clone(),
        };
        proof {
            assert(info@.git_url =~= git_url_of(self@));
            assert(info@.local_dir =~= local_dir_of(self@));
            assert(info@ =~= repo_info_of(self@));
        }
        info
    }
}

/// `s` contains no `/` path separator.
pub open spec fn sep_free(s: Seq<char>) -> bool {
    forall|i: int| 0 <= i < s.len() ==> s[i] != '/'
}

/// `s` can serve as a path segment of a repository URL: it contains no
/// segment separator and no query or fragment mark.
pub open spec fn segment_chars(s: Seq<char>) -> bool {
    forall|i: int| 0 <= i < s.len() ==> (s[i] != '/' && s[i] != '?' && s[i] != '#')
}

/// `s` can serve as the host of a repository URL: segment characters
/// only, and none of the `@` and `:` marks that set userinfo and port
/// apart from the host.
pub open spec fn host_chars(s: Seq<char>) -> bool {
    &&& segment_chars(s)
    &&& forall|i: int| 0 <= i < s.len() ==> (s[i] != '@' && s[i] != ':')
}

/// A repository identity whose components can stand in a repository
/// URL as they are: host and owner non-empty, the host a plain domain
/// name, owner and name plain path segments.
pub open spec fn wf_repo_ref(r: RepoRefV) -> bool {
    &&& r.host.len() > 0
    &&& r.owner.len() > 0
    &&& host_chars(r.host)
    &&& segment_chars(r.owner)
    &&& segment_chars(r.name)
}

/// Parsing is a left inverse of the clone-URL construction: parsing the
/// `git_url` derived from any well-formed repository identity gives that
/// identity back exactly (the `.git` the construction appends is the one
/// the parser strips again).
pub proof fn lemma_parse_inverts_git_url(r: RepoRefV)
    requires
        wf_repo_ref(r),
    ensures
        parse_spec(git_url_of(r)) == Some(r),
{
    reveal_strlit("https://");
    reveal_strlit("/");
    reveal_strlit(".git");
    let s = git_url_of(r);
    let hl = r.host.len() as int;
    let ol = r.owner.len() as int;
    let nl = r.name.len() as int;
    assert(s.len() == 14 + hl + ol + nl);
    assert forall|i: int| 0 <= i < s.len() implies (s[i] != '?' && s[i] != '#') by {
        if i < 8 {
            assert(s[i] == "https://"@[i]);
        } else if i < 8 + hl {
            assert(s[i] == r.host[i - 8]);
        } else if i == 8 + hl {
            assert(s[i] == "/"@[0]);
        } else if i < 9 + hl + ol {
            assert(s[i] == r.owner[i - 9 - hl]);
        } else if i == 9 + hl + ol {
            assert(s[i] == "/"@[0]);
        } else if i < 10 + hl + ol + nl {
            assert(s[i] == r.name[i - 10 - hl - ol]);
        } else {
            assert(s[i] == ".git"@[i - 10 - hl - ol - nl]);
        }
    }
    lemma_find_char_none(s, '?');
    lemma_find_char_none(s, '#');
    assert(truncated(s) =~= s);
    assert(s[5] == ':');
    assert forall|i: int| 0 <= i < 5 implies s[i] != ':' by {
        assert(s[i] == "https://"@[i]);
    }
    lemma_find_char_at(s, ':', 5);
    assert(s[6] == '/');
    assert(s[7] == '/');
    let rest = s.subrange(8, s.len() as int);
    assert(rest =~= r.host + "/"@ + r.owner + "/"@ + r.name + ".git"@);
    assert(rest[hl] == '/');
    assert forall|i: int| 0 <= i < hl implies rest[i] != '/' by {
        assert(rest[i] == r.host[i]);
    }
    lemma_find_char_at(rest, '/', hl);
    assert(rest.subrange(0, hl) =~= r.host);
    lemma_find_last_char_none(r.host, '@');
    lemma_find_char_none(r.host, ':');
    assert(r.host.subrange(0, hl) =~= r.host);
    assert(host_of_authority(rest.subrange(0, hl)) == r.host);
    let tail = rest.subrange(hl + 1, rest.len() as int);
    assert(tail =~= r.owner + "/"@ + r.name + ".git"@);
    assert(tail[ol] == '/');
    assert forall|i: int| 0 <= i < ol implies tail[i] != '/' by {
        assert(tail[i] == r.owner[i]);
    }
    lemma_find_char_at(tail, '/', ol);
    assert(tail.subrange(0, ol) =~= r.owner);
    let raw = tail.subrange(ol + 1, tail.len() as int);
    assert(raw =~= r.name + ".git"@);
    assert forall|i: int| 0 <= i < raw.len() implies raw[i] != '/' by {
        if i < nl {
            assert(raw[i] == r.name[i]);
        } else {
            assert(raw[i] == ".git"@[i - nl]);
        }
    }
    lemma_find_char_none(raw, '/');
    assert(raw.len() == nl + 4);
    assert(raw.subrange(nl, nl + 4) =~= seq!['.', 'g', 'i', 't']);
    assert(strip_git(raw) =~= r.name);
    assert(parse_spec(s) == Some(RepoRefV { host: r.host, owner: tail.subrange(0, ol), name: strip_git(raw) }));
}

/// The local directory is an injective function of the repository
/// identity: two identities whose components contain no path separator
/// and that derive the same `local_dir` are the same identity. The
/// host/owner/name nesting guarantees that no two repositories collide
/// on disk.
pub proof fn lemma_local_dir_injective(a: RepoRefV, b: RepoRefV)
    requires
        sep_free(a.host),
        sep_free(a.owner),
        sep_free(a.name),
        sep_free(b.host),
        sep_free(b.owner),
        sep_free(b.name),
        local_dir_of(a) == local_dir_of(b),
    ensures
        a == b,
{
    reveal_strlit("/");
    let d = local_dir_of(a);
    let ha = a.host.len() as int;
    let hb = b.host.len() as int;
    assert(d[ha] == '/');
    assert forall|i: int| 0 <= i < ha implies d[i] != '/' by {
        assert(d[i] == a.host[i]);
    }
    lemma_find_char_at(d, '/', ha);
    let db = local_dir_of(b);
    assert(db[hb] == '/');
    assert forall|i: int| 0 <= i < hb implies db[i] != '/' by {
        assert(db[i] == b.host[i]);
    }
    lemma_find_char_at(db, '/', hb);
    assert(ha == hb);
    assert(a.host =~= d.subrange(0, ha));
    assert(b.host =~= d.subrange(0, ha));
    let t = d.subrange(ha + 1, d.len() as int);
    assert(t =~= a.owner + "/"@ + a.name);
    assert(t =~= b.owner + "/"@ + b.name);
    let oa = a.owner.len() as int;
    let ob = b.owner.len() as int;
    assert(t[oa] == '/');
    assert forall|i: int| 0 <= i < oa implies t[i] != '/' by {
        assert(t[i] == a.owner[i]);
    }
    lemma_find_char_at(t, '/', oa);
    assert(t[ob] == '/');
    assert forall|i: int| 0 <= i < ob implies t[i] != '/' by {
        assert(t[i] == b.owner[i]);
    }
    lemma_find_char_at(t, '/', ob);
    assert(oa == ob);
    assert(a.owner =~= t.subrange(0, oa));
    assert(b.owner =~= t.subrange(0, oa));
    assert(a.name =~= t.subrange(oa + 1, t.len() as int));
    assert(b.name =~= t.subrange(oa + 1, t.len() as int));
}

} // verus!
