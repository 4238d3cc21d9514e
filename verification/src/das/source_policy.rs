use vstd::prelude::*;
use vstd::string::*;

use crate::text::push_str;

verus! {

/// How a logical file name is turned into a URL that can be opened.
#[derive(Debug, Clone, PartialEq, Eq)]
pub enum SourcePolicy {
    LogicalOnly,
    GlobalXrootd,
    SiteXrootd { redirector: String },
    HttpFromTemplate { base_url: String },
}

/// The URL of `lfn` through the CMS global XRootD redirector.
pub open spec fn global_xrootd_url(lfn: Seq<char>) -> Seq<char> {
    "root://cms-xrd-global.cern.ch/"@ + lfn
}

/// The location `policy` gives to `lfn`.
pub open spec fn normalized_lfn(policy: SourcePolicy, lfn: Seq<char>) -> Seq<char> {
    match policy {
        SourcePolicy::LogicalOnly => lfn,
        SourcePolicy::GlobalXrootd => global_xrootd_url(lfn),
        SourcePolicy::SiteXrootd { redirector } => "root://"@ + redirector@ + "/"@ + lfn,
        SourcePolicy::HttpFromTemplate { base_url } => base_url@ + lfn,
    }
}

impl SourcePolicy {
    /// The location of `lfn` under this policy.
    pub fn normalize_lfn(&self, lfn: &str) -> (r: String)
        ensures
            r@ == normalized_lfn(*self, lfn@),
    {
        match self {
            SourcePolicy::LogicalOnly => String::from_str(lfn),
            SourcePolicy::GlobalXrootd => {
                let mut r = String::from_str("root://cms-xrd-global.cern.ch/");
                push_str(&mut r, lfn);
                r
            },
            SourcePolicy::SiteXrootd { redirector } => {
                let mut r = String::from_str("root://");
                push_str(&mut r, redirector.as_str());
                push_str(&mut r, "/");
                push_str(&mut r, lfn);
                r
            },
            SourcePolicy::HttpFromTemplate { base_url } => {
                let mut r = base_url.clone();
                push_str(&mut r, lfn);
                r
            },
        }
    }
}

/// Every policy writes the logical file name at the end of a prefix of its
/// own, so distinct files keep distinct locations and the LFN can be read back.
pub proof fn law_normalized_lfn_keeps_files_apart(policy: SourcePolicy, a: Seq<char>, b: Seq<char>)
    ensures
        normalized_lfn(policy, a).len() >= a.len(),
        normalized_lfn(policy, a).subrange(normalized_lfn(policy, a).len() - a.len(), normalized_lfn(policy, a).len() as int)
            == a,
        normalized_lfn(policy, a) == normalized_lfn(policy, b) <==> a == b,
{
    let p = normalized_lfn(policy, a).subrange(0, normalized_lfn(policy, a).len() - a.len());
    let q = normalized_lfn(policy, b).subrange(0, normalized_lfn(policy, b).len() - b.len());
    assert(normalized_lfn(policy, a) =~= p + a);
    assert(normalized_lfn(policy, b) =~= q + b);
    assert(p =~= q);
    assert(normalized_lfn(policy, a).subrange(normalized_lfn(policy, a).len() - a.len(), normalized_lfn(policy, a).len() as int) =~= a);
    if normalized_lfn(policy, a) == normalized_lfn(policy, b) {
        assert(a.len() == b.len());
        assert(a =~= (p + a).subrange(p.len() as int, (p + a).len() as int));
        assert(b =~= (q + b).subrange(q.len() as int, (q + b).len() as int));
    }
}

} // verus!
