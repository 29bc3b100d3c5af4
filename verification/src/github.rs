//! Pull-request records read from `gh pr list`.
use vstd::prelude::*;

verus! {

/// A pull request as `gh pr list --json` reports it.
#[derive(Debug)]
pub struct GhPullRequest {
    pub number: u64,
    pub title: String,
    pub state: String,
    pub is_draft: bool,
    pub head_ref_name: String,
    pub url: String,
}

/// A pull request as the dashboard keeps it.
#[derive(Debug)]
pub struct PrInfo {
    pub number: u64,
    pub title: String,
    pub state: String,
    pub is_draft: bool,
    pub head_ref: String,
    pub url: String,
}

/// `p` holds the fields of `g`.
pub open spec fn same_pull_request(p: PrInfo, g: GhPullRequest) -> bool {
    &&& p.number == g.number
    &&& p.title == g.title
    &&& p.state == g.state
    &&& p.is_draft == g.is_draft
    &&& p.head_ref == g.head_ref_name
    &&& p.url == g.url
}

impl PrInfo {
    /// The record of a reported pull request.
    pub fn from_gh(g: GhPullRequest) -> (r: PrInfo)
        ensures
            same_pull_request(r, g),
    {
        PrInfo {
            number: g.number,
            title: g.title,
            state: g.state,
            is_draft: g.is_draft,
            head_ref: g.head_ref_name,
            url: g.url,
        }
    }
}

/// The pull requests of a listing. `None` stands for a listing that could
/// not be had (the command did not run, failed, or printed something that
/// is not a list of pull requests); it gives no pull requests.
pub fn prs_from_listing(listing: Option<Vec<GhPullRequest>>) -> (r: Vec<PrInfo>)
    ensures
        match listing {
            None => r@.len() == 0,
            Some(v) => r@.len() == v@.len() && forall|i: int|
                0 <= i < v@.len() ==> same_pull_request(#[trigger] r@[i], v@[i]),
        },
{
    match listing {
        None => Vec::new(),
        Some(mut v) => {
            let ghost all = v@;
            let mut out: Vec<PrInfo> = Vec::new();
            while v.len() > 0
                invariant
                    out@.len() + v@.len() == all.len(),
                    v@ == all.subrange(out@.len() as int, all.len() as int),
                    forall|i: int| 0 <= i < out@.len() ==> same_pull_request(#[trigger] out@[i], all[i]),
                decreases v@.len(),
            {
                let g = v.remove(0);
                let ghost k = out@.len();
                assert(g == all[k as int]);
                out.push(PrInfo::from_gh(g));
                assert(v@ =~= all.subrange(out@.len() as int, all.len() as int));
            }
            out
        },
    }
}

} // verus!
