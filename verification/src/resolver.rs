//! The fork-chain walk.
//!
//! Starting from the repository the user asked for, the resolver asks,
//! hop by hop, for the immediate fork-parent of the current repository
//! until the answer is that there is none. Each answered hop appends the
//! repository that was queried to the list of children; the repository
//! with no parent becomes the base. A [`ForkWalk`] holds the state and
//! takes the decisions of this walk; the caller performs the network
//! query of each hop and feeds the answer back.

use vstd::prelude::*;

verus! {

use crate::config::Config;
use crate::config::token_for;
use crate::errors::ResolveError;
use crate::repo::RepoInfo;
use crate::repo::RepoInfoV;
use crate::repo::RepoRef;
use crate::repo::RepoRefV;
use crate::repo::parse_spec;
use crate::repo::repo_info_of;

/// The walk's output: the repository with no further parent, and every
/// fork in the chain below it, nearest the originally requested
/// repository first.
pub struct ForkResolution {
    /// The root of the fork chain, to be cloned.
    pub base: RepoInfo,
    /// The forks leading from the originally requested repository (the
    /// first element, when any) up to the direct child of `base` (the
    /// last).
    pub children: Vec<RepoInfo>,
}

/// Mathematical image of a [`ForkResolution`].
#[verifier::ext_equal]
pub ghost struct ForkResolutionV {
    pub base: RepoInfoV,
    pub children: Seq<RepoInfoV>,
}

impl View for ForkResolution {
    type V = ForkResolutionV;

    open spec fn view(&self) -> ForkResolutionV {
        ForkResolutionV {
            base: self.base@,
            children: self.children@.map_values(|c: RepoInfo| c@),
        }
    }
}

/// The `i`-th repository of a walk that starts at `original` and is
/// answered with `parents`: node 0 is the original, node `i > 0` the
/// parent reported at hop `i - 1`.
pub open spec fn chain_node(original: RepoRefV, parents: Seq<RepoRefV>, i: int) -> RepoRefV {
    if i == 0 {
        original
    } else {
        parents[i - 1]
    }
}

/// The resolution produced by a walk that starts at `original` and is
/// answered with the parent chain `parents` before the final no-parent
/// answer: one child per answered hop — the repository that was queried
/// at that hop — and the last parent as the base.
pub open spec fn resolve_spec(original: RepoRefV, parents: Seq<RepoRefV>) -> ForkResolutionV {
    ForkResolutionV {
        base: repo_info_of(chain_node(original, parents, parents.len() as int)),
        children: Seq::new(parents.len(), |i: int| repo_info_of(chain_node(original, parents, i))),
    }
}

/// The identities of a vector of repository references.
pub open spec fn refs_view(ps: Seq<RepoRef>) -> Seq<RepoRefV> {
    ps.map_values(|p: RepoRef| p@)
}

/// Every hop of the walk over `original` and `parents` finds a
/// credential: nodes 0 (the original) through `parents.len()` (the
/// base, queried once to learn it has no parent) all have a token
/// configured for their host.
pub open spec fn all_credentialed(c: &Config, original: RepoRefV, parents: Seq<RepoRefV>) -> bool {
    forall|i: int|
        0 <= i <= parents.len() ==> token_for(
            c,
            (#[trigger] chain_node(original, parents, i)).host,
        ) is Some
}

/// What one hop of the walk learned: the immediate fork-parent of the
/// queried repository, or that it has none.
pub enum ParentLookup {
    Parent(RepoRef),
    NoParent,
}

/// The in-progress state of a fork-chain walk: the repository whose
/// parent is queried next, and the children collected so far.
pub struct ForkWalk {
    current: RepoRef,
    children: Vec<RepoInfo>,
}

/// Mathematical image of a [`ForkWalk`].
#[verifier::ext_equal]
pub ghost struct ForkWalkV {
    pub current: RepoRefV,
    pub children: Seq<RepoInfoV>,
}

impl View for ForkWalk {
    type V = ForkWalkV;

    closed spec fn view(&self) -> ForkWalkV {
        ForkWalkV {
            current: self.current@,
            children: self.children@.map_values(|c: RepoInfo| c@),
        }
    }
}

impl ForkWalk {
    /// Begin a walk at the repository the user asked for.
    pub fn start(original: RepoRef) -> (w: ForkWalk)
        ensures
            w@.current == original@,
            w@.children == Seq::<RepoInfoV>::empty(),
    {
        let w = ForkWalk { current: original, children: Vec::new() };
        proof {
            assert(w@.children =~= Seq::<RepoInfoV>::empty());
        }
        w
    }

    /// The repository whose fork-parent is to be queried next.
    pub fn current(&self) -> (r: &RepoRef)
        ensures
            r@ == self@.current,
    {
        &self.current
    }

    /// The credential for the next hop: the token configured for the
    /// current repository's host, or the `MissingCredential` error that
    /// aborts the walk when the host has none.
    pub fn hop_token(&self, config: &Config) -> (r: Result<String, ResolveError>)
        ensures
            match r {
                Ok(t) => token_for(config, self@.current.host) == Some(t@),
                Err(e) => {
                    &&& e == ResolveError::MissingCredential
                    &&& token_for(config, self@.current.host) is None
                },
            },
    {
        match config.get_github_api_token(self.current.host.as_str()) {
            Ok(t) => Ok(t),
            Err(_) => Err(ResolveError::MissingCredential),
        }
    }

    /// Take one answered hop: the query for the current repository
    /// reported `parent`. The current repository joins the children and
    /// the walk moves on to the parent.
    pub fn advance(&mut self, parent: RepoRef)
        ensures
            final(self)@.current == parent@,
            final(self)@.children == old(self)@.children.push(repo_info_of(old(self)@.current)),
    {
        let info = self.current.to_repo_info();
        self.children.push(info);
        self.current = parent;
        proof {
            assert(final(self)@.children =~= old(self)@.children.push(
                repo_info_of(old(self)@.current),
            ));
        }
    }

    /// End the walk: the query for the current repository reported no
    /// parent, so the current repository is the base.
    pub fn into_resolution(self) -> (r: ForkResolution)
        ensures
            r@.base == repo_info_of(self@.current),
            r@.children == self@.children,
    {
        let base = self.current.to_repo_info();
        ForkResolution { base, children: self.children }
    }
}

/// The decoded shape of one fork-parent query response.
pub enum ParentQueryReply {
    /// The response carried no data payload.
    MissingData,
    /// The payload was present but named no repository.
    RepositoryMissing,
    /// The repository exists and has no fork-parent.
    NoParentReported,
    /// The repository exists and is a fork of `owner/name`.
    ParentReported { owner: String, name: String },
}

/// Interpret one fork-parent query response for the repository that was
/// queried. A missing payload is a failed request, a missing repository
/// a `RepositoryNotFound`; a reported parent lives on the same host as
/// the queried repository, its name taken from the response as is.
pub fn interpret_parent_response(current: &RepoRef, reply: ParentQueryReply) -> (r: Result<
    ParentLookup,
    ResolveError,
>)
    ensures
        match reply {
            ParentQueryReply::MissingData => r matches Err(e) && e == ResolveError::ApiRequestFailed,
            ParentQueryReply::RepositoryMissing => r matches Err(e) && e
                == ResolveError::RepositoryNotFound,
            ParentQueryReply::NoParentReported => r matches Ok(l) && l is NoParent,
            ParentQueryReply::ParentReported { owner, name } => r matches Ok(l) && l matches
                ParentLookup::Parent(p) && p@ == (RepoRefV {
                host: current@.host,
                owner: owner@,
                name: name@,
            }),
        },
{
    match reply {
        ParentQueryReply::MissingData => Err(ResolveError::ApiRequestFailed),
        ParentQueryReply::RepositoryMissing => Err(ResolveError::RepositoryNotFound),
        ParentQueryReply::NoParentReported => Ok(ParentLookup::NoParent),
        ParentQueryReply::ParentReported { owner, name } => Ok(
            ParentLookup::Parent(RepoRef { host: current.host.clone(), owner, name }),
        ),
    }
}

/// The per-host API endpoint that fork-parent queries are sent to.
pub fn api_endpoint(host: &str) -> (r: String)
    ensures
        r@ == "https://api."@ + host@ + "/graphql"@,
{
    let mut r = "https://api.".to_owned();
    r.append(host);
    r.append("/graphql");
    proof {
        assert(r@ =~= "https://api."@ + host@ + "/graphql"@);
    }
    r
}

/// Resolve the fork chain of the repository named by `url`, taking the
/// answer of each hop's parent query from `parents`: hop `i` is answered
/// with `parents[i]`, and the hop after the last element is answered
/// with "no parent". Before every hop the credential for the current
/// host is resolved; a host without one aborts the walk with
/// `MissingCredential`.
pub fn resolve_forks(config: &Config, url: &str, parents: &Vec<RepoRef>) -> (r: Result<
    ForkResolution,
    ResolveError,
>)
    ensures
        match r {
            Ok(res) => {
                &&& parse_spec(url@) is Some
                &&& all_credentialed(config, parse_spec(url@).unwrap(), refs_view(parents@))
                &&& res@ == resolve_spec(parse_spec(url@).unwrap(), refs_view(parents@))
            },
            Err(e) => match e {
                ResolveError::InvalidRepoUrl => parse_spec(url@) is None,
                ResolveError::MissingCredential => {
                    &&& parse_spec(url@) is Some
                    &&& !all_credentialed(config, parse_spec(url@).unwrap(), refs_view(parents@))
                },
                _ => false,
            },
        },
{
    let original = match RepoRef::parse(url) {
        Ok(rr) => rr,
        Err(e) => {
            return Err(e);
        },
    };
    let ghost origv = original@;
    let ghost pv = refs_view(parents@);
    let mut walk = ForkWalk::start(original);
    let k = parents.len();
    let mut i: usize = 0;
    proof {
        assert(walk@.children =~= Seq::new(0nat, |j: int| repo_info_of(chain_node(origv, pv, j))));
    }
    while i < k
        invariant
            k == parents@.len(),
            pv == refs_view(parents@),
            pv.len() == k,
            i <= k,
            parse_spec(url@) == Some(origv),
            walk@.current == chain_node(origv, pv, i as int),
            walk@.children == Seq::new(i as nat, |j: int| repo_info_of(chain_node(origv, pv, j))),
            forall|j: int|
                0 <= j < i ==> token_for(
                    config,
                    (#[trigger] chain_node(origv, pv, j)).host,
                ) is Some,
        decreases k - i,
    {
        match walk.hop_token(config) {
            Ok(_) => {},
            Err(e) => {
                proof {
                    assert(token_for(config, chain_node(origv, pv, i as int).host) is None);
                    assert(!all_credentialed(config, origv, pv));
                }
                return Err(e);
            },
        }
        let parent = parents[i].duplicate();
        proof {
            assert(pv[i as int] == parents@[i as int]@);
        }
        walk.advance(parent);
        i = i + 1;
        proof {
            assert(walk@.children =~= Seq::new(
                i as nat,
                |j: int| repo_info_of(chain_node(origv, pv, j)),
            ));
        }
    }
    match walk.hop_token(config) {
        Ok(_) => {},
        Err(e) => {
            proof {
                assert(token_for(config, chain_node(origv, pv, k as int).host) is None);
                assert(!all_credentialed(config, origv, pv));
            }
            return Err(e);
        },
    }
    let res = walk.into_resolution();
    proof {
        assert(res@ =~= resolve_spec(origv, pv));
    }
    Ok(res)
}

/// A walk whose very first parent query reports no parent: the
/// resolution has no children, and the base is the originally requested
/// repository, enriched.
pub proof fn lemma_resolve_no_parent(original: RepoRefV)
    ensures
        resolve_spec(original, Seq::<RepoRefV>::empty()).children == Seq::<RepoInfoV>::empty(),
        resolve_spec(original, Seq::<RepoRefV>::empty()).base == repo_info_of(original),
{
    assert(resolve_spec(original, Seq::<RepoRefV>::empty()).children =~= Seq::<
        RepoInfoV,
    >::empty());
}

/// A walk that is answered with `parents.len()` parents before the
/// final no-parent answer: one child per answered hop, the first child
/// is the originally requested repository, and the base is the last
/// parent reported.
pub proof fn lemma_resolve_chain(original: RepoRefV, parents: Seq<RepoRefV>)
    requires
        parents.len() > 0,
    ensures
        resolve_spec(original, parents).children.len() == parents.len(),
        resolve_spec(original, parents).children[0] == repo_info_of(original),
        resolve_spec(original, parents).base == repo_info_of(parents.last()),
{
}

} // verus!
