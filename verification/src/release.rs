//! Replica releases and their patch lineage: each release may name the release
//! it patches, forming a chain back to the base release of its branch.

use vstd::prelude::*;
use std::sync::Arc;
use crate::definition::str_eq;
use vstd::string::StringExecFns;

verus! {

/// One replica release: its commit, branch and name, when it was cut (seconds
/// since the epoch), and the release it patches, if any.
#[derive(Debug)]
pub struct ReplicaRelease {
    pub commit_hash: String,
    pub branch: String,
    pub name: String,
    pub time: i64,
    pub previous_patch_release: Option<Arc<ReplicaRelease>>,
}

pub ghost struct ReplicaReleaseView {
    pub commit_hash: Seq<char>,
    pub branch: Seq<char>,
    pub name: Seq<char>,
    pub time: i64,
    pub previous_patch_release: Option<Box<ReplicaReleaseView>>,
}

/// The mathematical value of a release and its whole patch chain.
pub open spec fn release_view(r: ReplicaRelease) -> ReplicaReleaseView
    decreases r,
{
    ReplicaReleaseView {
        commit_hash: r.commit_hash@,
        branch: r.branch@,
        name: r.name@,
        time: r.time,
        previous_patch_release: match r.previous_patch_release {
            Some(p) => Some(Box::new(release_view(*p))),
            None => None,
        },
    }
}

impl View for ReplicaRelease {
    type V = ReplicaReleaseView;

    open spec fn view(&self) -> ReplicaReleaseView {
        release_view(*self)
    }
}

impl DeepView for ReplicaRelease {
    type V = ReplicaReleaseView;

    open spec fn deep_view(&self) -> ReplicaReleaseView {
        release_view(*self)
    }
}

/// The patch count this bookkeeping reports: the walk reaches the base of
/// the chain without accumulating anything along the way, so every chain
/// reports its base's zero.
pub open spec fn spec_patch_count(v: ReplicaReleaseView) -> nat
    decreases v,
{
    match v.previous_patch_release {
        Some(p) => spec_patch_count(*p),
        None => 0,
    }
}

/// Whether this release or any release it transitively patches carries the
/// commit.
pub open spec fn spec_contains_patch(v: ReplicaReleaseView, commit: Seq<char>) -> bool
    decreases v,
{
    v.commit_hash == commit || match v.previous_patch_release {
        Some(p) => spec_contains_patch(*p, commit),
        None => false,
    }
}

/// Whether this release transitively patches the given one (strictly: a
/// release does not patch itself).
pub open spec fn spec_patches(v: ReplicaReleaseView, other: ReplicaReleaseView) -> bool
    decreases v,
{
    match v.previous_patch_release {
        Some(p) => *p == other || spec_patches(*p, other),
        None => false,
    }
}

/// The chain of releases sitting on top of the given commit, oldest first:
/// nothing when this release is the commit's own, otherwise the ancestors'
/// chain with this release appended — and no chain at all when the commit is
/// not in the lineage.
pub open spec fn spec_patches_for(v: ReplicaReleaseView, commit: Seq<char>) -> Option<
    Seq<ReplicaReleaseView>,
>
    decreases v,
{
    if v.commit_hash == commit {
        Some(Seq::empty())
    } else {
        match v.previous_patch_release {
            Some(p) => match spec_patches_for(*p, commit) {
                Some(chain) => Some(chain.push(v)),
                None => None,
            },
            None => None,
        }
    }
}

/// The release in the lineage carrying the commit, if any.
pub open spec fn spec_get(v: ReplicaReleaseView, commit: Seq<char>) -> Option<ReplicaReleaseView>
    decreases v,
{
    if v.commit_hash == commit {
        Some(v)
    } else {
        match v.previous_patch_release {
            Some(p) => spec_get(*p, commit),
            None => None,
        }
    }
}

/// A field-for-field copy of a release and its whole chain, with the same
/// observable value.
pub fn duplicate_release(r: &ReplicaRelease) -> (res: ReplicaRelease)
    ensures
        res@ == r@,
    decreases *r,
{
    let previous_patch_release = match &r.previous_patch_release {
        Some(p) => Some(Arc::new(duplicate_release(&*p))),
        None => None,
    };
    ReplicaRelease {
        commit_hash: r.commit_hash.clone(),
        branch: r.branch.clone(),
        name: r.name.clone(),
        time: r.time,
        previous_patch_release,
    }
}

impl ReplicaRelease {
    /// The reported patch count; the walk carries nothing along, so every
    /// chain reports its base's zero.
    pub fn patch_count(&self) -> (c: u32)
        ensures
            c == spec_patch_count(self@),
        decreases *self,
    {
        match &self.previous_patch_release {
            Some(rv) => rv.patch_count(),
            None => 0,
        }
    }

    /// Whether the two releases are equal, chain and all.
    pub fn same_release(&self, other: &ReplicaRelease) -> (r: bool)
        ensures
            r == (self@ == other@),
        decreases *self,
    {
        let fields_equal = self.commit_hash == other.commit_hash && self.branch == other.branch
            && self.name == other.name && self.time == other.time;
        if !fields_equal {
            return false;
        }
        match (&self.previous_patch_release, &other.previous_patch_release) {
            (None, None) => true,
            (Some(p), Some(q)) => p.same_release(&*q),
            _ => false,
        }
    }

    /// Whether this release transitively patches the given one.
    pub fn patches(&self, replica_release: &ReplicaRelease) -> (r: bool)
        ensures
            r == spec_patches(self@, replica_release@),
        decreases *self,
    {
        match &self.previous_patch_release {
            Some(rv) => rv.same_release(replica_release) || rv.patches(replica_release),
            None => false,
        }
    }

    /// Whether this release or any release it patches carries the commit.
    pub fn contains_patch(&self, commit_hash: &str) -> (r: bool)
        ensures
            r == spec_contains_patch(self@, commit_hash@),
        decreases *self,
    {
        if str_eq(self.commit_hash.as_str(), commit_hash) {
            return true;
        }
        match &self.previous_patch_release {
            Some(rv) => rv.contains_patch(commit_hash),
            None => false,
        }
    }

    /// The releases sitting on top of the given commit, oldest first; a commit
    /// outside the lineage patches nothing.
    pub fn patches_for(&self, commit_hash: &str) -> (r: Result<Vec<ReplicaRelease>, String>)
        ensures
            r is Ok <==> spec_patches_for(self@, commit_hash@) is Some,
            r matches Ok(chain) ==> spec_patches_for(self@, commit_hash@) matches Some(s)
                && chain.deep_view() == s,
            r matches Err(m) ==> m@ == "doesn't patch this release"@,
        decreases *self,
    {
        if str_eq(self.commit_hash.as_str(), commit_hash) {
            let chain: Vec<ReplicaRelease> = Vec::new();
            proof {
                assert(chain.deep_view() =~= Seq::<ReplicaReleaseView>::empty());
            }
            Ok(chain)
        } else {
            match &self.previous_patch_release {
                Some(previous) => {
                    match previous.patches_for(commit_hash) {
                        Ok(mut chain) => {
                            let ghost prefix = chain.deep_view();
                            chain.push(duplicate_release(self));
                            proof {
                                assert(chain.deep_view() =~= prefix.push(self@));
                            }
                            Ok(chain)
                        },
                        Err(e) => Err(e),
                    }
                },
                None => Err(String::from_str("doesn't patch this release")),
            }
        }
    }

    /// The release in the lineage carrying the commit.
    pub fn get(&self, commit_hash: &str) -> (r: Result<ReplicaRelease, String>)
        ensures
            r is Ok <==> spec_get(self@, commit_hash@) is Some,
            r matches Ok(found) ==> spec_get(self@, commit_hash@) matches Some(v) && found@ == v,
            r matches Err(m) ==> m@ == "doesn't patch this release"@,
        decreases *self,
    {
        if str_eq(self.commit_hash.as_str(), commit_hash) {
            Ok(duplicate_release(self))
        } else {
            match &self.previous_patch_release {
                Some(previous) => previous.get(commit_hash),
                None => Err(String::from_str("doesn't patch this release")),
            }
        }
    }
}

} // verus!
