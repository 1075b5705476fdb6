//! Resolving the minimum toolchain a package's direct dependencies
//! demand.

use vstd::prelude::*;

use crate::error::Error;
use crate::metadata::DependencySpec;
use crate::metadata::PackageMetadata;
use crate::metadata::VersionRecord;
use crate::name::PackageName;
use crate::source::ComboIndex;
use crate::name::valid_name;
use crate::toolchain::ToolchainVersion;
use crate::toolchain::toolchain_le;
use crate::toolchain::toolchain_parts;

verus! {

/// What one scan or one whole resolution may conclude about a minimum
/// toolchain.
#[derive(Debug, Clone, PartialEq, Eq)]
pub struct ToolchainResolution {
    /// The most demanding toolchain version any dependency declares, or
    /// nothing when every dependency leaves it unspecified.
    pub minimum: Option<ToolchainVersion>,
    /// True when some dependency's toolchain is unspecified: the
    /// minimum is then a lower bound, not a guarantee.
    pub incomplete: bool,
}

/// Whether the version written `version` satisfies the requirement range
/// written `req`, as the semver range grammar defines it.
pub uninterp spec fn req_matches(req: Seq<char>, version: Seq<char>) -> bool;

/// Relies on `semver::VersionReq::parse`, `semver::Version::parse` and
/// `VersionReq::matches`: whether the version satisfies the requirement
/// range. The verdict depends on the two strings alone; a string that
/// parses as neither never matches.
#[verifier::external_body]
pub(crate) fn requirement_matches(req: &str, version: &str) -> (r: bool)
    ensures
        r == req_matches(req@, version@),
{
    match (semver::VersionReq::parse(req), semver::Version::parse(version)) {
        (Ok(rq), Ok(v)) => rq.matches(&v),
        _ => false,
    }
}

impl PackageMetadata {
    /// Position `i` holds the first version, in publish order, whose
    /// version string satisfies `req`.
    pub open spec fn is_first_match(self, req: Seq<char>, i: int) -> bool {
        &&& 0 <= i < self.versions@.len()
        &&& req_matches(req, self.versions@[i].version.text@)
        &&& forall|j: int|
            0 <= j < i ==> !req_matches(req, (#[trigger] self.versions@[j]).version.text@)
    }

    /// Scans the history in publish order and yields the first version
    /// satisfying `req`: a first-match policy, not a best-match one.
    pub fn first_matching_version(&self, req: &str) -> (r: Option<&VersionRecord>)
        ensures
            match r {
                Some(v) => exists|i: int| self.is_first_match(req@, i) && *v == self.versions@[i],
                None => forall|j: int|
                    0 <= j < self.versions@.len() ==> !req_matches(
                        req@,
                        (#[trigger] self.versions@[j]).version.text@,
                    ),
            },
    {
        let mut i: usize = 0;
        while i < self.versions.len()
            invariant
                i <= self.versions@.len(),
                forall|j: int|
                    0 <= j < i ==> !req_matches(
                        req@,
                        (#[trigger] self.versions@[j]).version.text@,
                    ),
            decreases self.versions@.len() - i,
        {
            if requirement_matches(req, self.versions[i].version.text.as_str()) {
                proof {
                    assert(self.is_first_match(req@, i as int));
                }
                return Some(&self.versions[i]);
            }
            i = i + 1;
        }
        None
    }

    /// The toolchain outcome this history yields for a requirement: the
    /// first publish-order version satisfying `req` decides. No
    /// satisfying version, or no declared toolchain on it, means
    /// "unspecified"; a declared string that is no toolchain version is
    /// an error.
    pub fn toolchain_of_first_match(&self, req: &str) -> (r: Result<Option<ToolchainVersion>, Error>)
        ensures
            match r {
                Ok(opt) => match opt {
                    Some(t) => exists|i: int|
                        {
                            &&& #[trigger] self.is_first_match(req@, i)
                            &&& self.versions@[i].rust_version matches Some(s)
                            &&& toolchain_parts(s@) == Some(t.key())
                            &&& t.text@ == s@
                            &&& t.wf()
                        },
                    None => (forall|j: int|
                        0 <= j < self.versions@.len() ==> !req_matches(
                            req@,
                            (#[trigger] self.versions@[j]).version.text@,
                        )) || (exists|i: int|
                        {
                            &&& #[trigger] self.is_first_match(req@, i)
                            &&& self.versions@[i].rust_version is None
                        }),
                },
                Err(e) => e == Error::InvalidVersion && exists|i: int|
                    {
                        &&& #[trigger] self.is_first_match(req@, i)
                        &&& self.versions@[i].rust_version matches Some(s)
                        &&& toolchain_parts(s@) is None
                    },
            },
    {
        match self.first_matching_version(req) {
            None => Ok(None),
            Some(v) => {
                let ghost i = choose|i: int|
                    self.is_first_match(req@, i) && *v == self.versions@[i];
                match &v.rust_version {
                    None => {
                        proof {
                            assert(self.versions@[i].rust_version is None);
                        }
                        Ok(None)
                    },
                    Some(s) => match ToolchainVersion::parse(s.as_str()) {
                        Ok(t) => {
                            proof {
                                assert(self.versions@[i].rust_version matches Some(w) && w@ == s@);
                            }
                            Ok(Some(t))
                        },
                        Err(e) => {
                            proof {
                                assert(self.versions@[i].rust_version matches Some(w) && w@ == s@);
                            }
                            Err(e)
                        },
                    },
                }
            },
        }
    }
}

/// Every specified outcome is at most `m`.
pub open spec fn outcome_at_most(o: Option<ToolchainVersion>, m: ToolchainVersion) -> bool {
    match o {
        Some(t) => toolchain_le(t.key(), m.key()),
        None => true,
    }
}

/// Position `i` holds the most demanding specified outcome, and the
/// first of equally demanding ones.
pub open spec fn is_most_demanding_at(outs: Seq<Option<ToolchainVersion>>, i: int) -> bool {
    &&& 0 <= i < outs.len()
    &&& outs[i] is Some
    &&& forall|j: int| 0 <= j < outs.len() ==> outcome_at_most(#[trigger] outs[j], outs[i]->Some_0)
    &&& forall|j: int|
        0 <= j < i ==> (#[trigger] outs[j] matches Some(t) ==> !toolchain_le(
            outs[i]->Some_0.key(),
            t.key(),
        ))
}

/// The exact relation between per-dependency outcomes and the aggregate:
/// the minimum is the most demanding specified outcome, or nothing when
/// every outcome is unspecified, and the result is incomplete exactly
/// when some outcome is unspecified.
pub open spec fn is_aggregate(outs: Seq<Option<ToolchainVersion>>, r: ToolchainResolution) -> bool {
    &&& r.incomplete == exists|j: int| 0 <= j < outs.len() && (#[trigger] outs[j]) is None
    &&& match r.minimum {
        Some(m) => exists|i: int| #[trigger] is_most_demanding_at(outs, i) && m == outs[i]->Some_0,
        None => forall|j: int| 0 <= j < outs.len() ==> (#[trigger] outs[j]) is None,
    }
}

/// Folds per-dependency outcomes into the aggregate resolution: the
/// maximum of the specified toolchains, the unspecified ones excluded
/// from the maximum but recorded in the `incomplete` flag.
pub fn aggregate_toolchains(outs: &Vec<Option<ToolchainVersion>>) -> (r: ToolchainResolution)
    ensures
        is_aggregate(outs@, r),
{
    let mut best: Option<usize> = None;
    let mut incomplete = false;
    let mut i: usize = 0;
    while i < outs.len()
        invariant
            i <= outs@.len(),
            incomplete == exists|j: int| 0 <= j < i && (#[trigger] outs@[j]) is None,
            match best {
                Some(b) => {
                    &&& 0 <= b < i
                    &&& outs@[b as int] is Some
                    &&& forall|j: int|
                        0 <= j < i ==> outcome_at_most(
                            #[trigger] outs@[j],
                            outs@[b as int]->Some_0,
                        )
                    &&& forall|j: int|
                        0 <= j < b ==> (#[trigger] outs@[j] matches Some(t) ==> !toolchain_le(
                            outs@[b as int]->Some_0.key(),
                            t.key(),
                        ))
                },
                None => forall|j: int| 0 <= j < i ==> (#[trigger] outs@[j]) is None,
            },
        decreases outs@.len() - i,
    {
        match &outs[i] {
            None => {
                incomplete = true;
            },
            Some(t) => {
                match best {
                    None => {
                        best = Some(i);
                    },
                    Some(b) => {
                        let held = match &outs[b] {
                            Some(h) => h,
                            None => t,
                        };
                        if !t.at_most(held) {
                            best = Some(i);
                        }
                    },
                }
            },
        }
        i = i + 1;
    }
    let minimum = match best {
        Some(b) => {
            proof {
                assert(is_most_demanding_at(outs@, b as int));
            }
            match &outs[b] {
                Some(t) => Some(t.clone_value()),
                None => None,
            }
        },
        None => None,
    };
    ToolchainResolution { minimum, incomplete }
}

/// Aggregation has no hidden state: one outcome sequence admits exactly
/// one aggregate, so resolving twice over identical inputs yields
/// identical output.
pub proof fn lemma_aggregate_deterministic(
    outs: Seq<Option<ToolchainVersion>>,
    r1: ToolchainResolution,
    r2: ToolchainResolution,
)
    requires
        is_aggregate(outs, r1),
        is_aggregate(outs, r2),
    ensures
        r1 == r2,
{
    match (r1.minimum, r2.minimum) {
        (Some(m1), Some(m2)) => {
            let i1 = choose|i: int| is_most_demanding_at(outs, i) && m1 == outs[i]->Some_0;
            let i2 = choose|i: int| is_most_demanding_at(outs, i) && m2 == outs[i]->Some_0;
            if i1 < i2 {
                assert(outcome_at_most(outs[i2], outs[i1]->Some_0));
                assert(false);
            }
            if i2 < i1 {
                assert(outcome_at_most(outs[i1], outs[i2]->Some_0));
                assert(false);
            }
        },
        (Some(m1), None) => {
            let i1 = choose|i: int| is_most_demanding_at(outs, i) && m1 == outs[i]->Some_0;
            assert(outs[i1] is None);
        },
        (None, Some(m2)) => {
            let i2 = choose|i: int| is_most_demanding_at(outs, i) && m2 == outs[i]->Some_0;
            assert(outs[i2] is None);
        },
        (None, None) => {},
    }
}

impl ToolchainVersion {
    /// Copies the value.
    pub fn clone_value(&self) -> (r: ToolchainVersion)
        ensures
            r == *self,
    {
        ToolchainVersion {
            major: self.major,
            minor: self.minor,
            patch: self.patch,
            text: self.text.clone(),
        }
    }
}

/// Resolves one dependency: fetches its history, scans it in publish
/// order for the first version satisfying the requirement, and parses
/// that version's declared toolchain. A dependency that is missing from
/// the index, has no satisfying version, or declares no toolchain is
/// unspecified; a declared toolchain that is not a version number is an
/// error.
pub fn resolve_dependency(index: &ComboIndex, dep: &DependencySpec) -> (r: Result<
    Option<ToolchainVersion>,
    Error,
>)
    ensures
        r matches Ok(Some(t)) ==> t.wf(),
        !valid_name(dep.name@) ==> r == Err::<Option<ToolchainVersion>, Error>(
            Error::InvalidName,
        ),
{
    let name = match PackageName::new(dep.name.clone()) {
        Ok(n) => n,
        Err(e) => {
            return Err(e);
        },
    };
    let fetched = match index.krate(&name, true) {
        Ok(f) => f,
        Err(e) => {
            return Err(e);
        },
    };
    let meta = match fetched {
        Some(f) => f.meta,
        None => {
            return Ok(None);
        },
    };
    meta.toolchain_of_first_match(dep.req.as_str())
}

/// Resolves the minimum toolchain implied by a whole dependency list:
/// each dependency is resolved on its own and the outcomes are folded
/// with `aggregate_toolchains`, so the result is the exact aggregate of
/// one outcome per dependency.
pub fn resolve_min_toolchain(index: &ComboIndex, deps: &Vec<DependencySpec>) -> (r: Result<
    ToolchainResolution,
    Error,
>)
    ensures
        r matches Ok(res) ==> exists|outs: Seq<Option<ToolchainVersion>>|
            outs.len() == deps@.len() && #[trigger] is_aggregate(outs, res),
        deps@.len() == 0 ==> (r matches Ok(res) && res.minimum is None && !res.incomplete),
{
    let mut outs: Vec<Option<ToolchainVersion>> = Vec::new();
    let mut i: usize = 0;
    while i < deps.len()
        invariant
            i <= deps@.len(),
            outs@.len() == i,
        decreases deps@.len() - i,
    {
        match resolve_dependency(index, &deps[i]) {
            Ok(o) => {
                outs.push(o);
            },
            Err(e) => {
                return Err(e);
            },
        }
        i = i + 1;
    }
    let res = aggregate_toolchains(&outs);
    proof {
        assert(outs@.len() == deps@.len() && is_aggregate(outs@, res));
        if deps@.len() == 0 {
            if res.minimum is Some {
                let w = choose|w: int|
                    #[trigger] is_most_demanding_at(outs@, w) && res.minimum->Some_0
                        == outs@[w]->Some_0;
                assert(false);
            }
        }
    }
    Ok(res)
}

/// A dependency resolved as "unspecified" always sets the aggregate
/// warning flag: the reported minimum is then a lower bound, not a
/// guarantee.
pub proof fn lemma_unspecified_sets_warning(
    outs: Seq<Option<ToolchainVersion>>,
    res: ToolchainResolution,
    j: int,
)
    requires
        is_aggregate(outs, res),
        0 <= j < outs.len(),
        outs[j] is None,
    ensures
        res.incomplete,
{
}

} // verus!
