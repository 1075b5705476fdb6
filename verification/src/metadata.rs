//! A package's published history, and the version-selection questions it
//! answers.

use vstd::prelude::*;

use crate::version::Version;
use crate::version::version_le;
use crate::version::version_lt;
use crate::version::lemma_version_conn;
use crate::version::lemma_version_lt_irrefl;
use crate::version::lemma_version_lt_trans;

verus! {

/// One direct dependency a version declares: the dependency's package
/// name and the requirement range it must satisfy.
#[derive(Debug, Clone, PartialEq, Eq)]
pub struct DependencySpec {
    /// The dependency's package name.
    pub name: String,
    /// The version requirement, e.g. `^2` or `>=1.2, <2`.
    pub req: String,
}

/// One published version of a package.
#[derive(Debug, Clone, PartialEq, Eq)]
pub struct VersionRecord {
    /// The published semantic version.
    pub version: Version,
    /// Whether the version has been withdrawn from new use.
    pub yanked: bool,
    /// The minimum toolchain the version declares, if any, as the index
    /// spelled it.
    pub rust_version: Option<String>,
    /// The version's direct dependencies.
    pub deps: Vec<DependencySpec>,
}

/// A package name with its ordered version history. The order is publish
/// chronology: position 0 was published first.
#[derive(Debug, Clone, PartialEq, Eq)]
pub struct PackageMetadata {
    /// The package's name.
    pub name: String,
    /// All published versions, oldest first. Never empty: a package
    /// without versions reads as not found.
    pub versions: Vec<VersionRecord>,
}

impl VersionRecord {
    /// A version that selection under the normal policy may pick:
    /// neither yanked nor a pre-release.
    pub open spec fn spec_is_normal(self) -> bool {
        !self.yanked && !self.version.spec_is_prerelease()
    }

    /// Whether this record qualifies for the highest-normal selection.
    pub fn is_normal(&self) -> (r: bool)
        ensures
            r == self.spec_is_normal(),
    {
        !self.yanked && !self.version.is_prerelease()
    }
}

impl PackageMetadata {
    /// Position `i` holds the highest version: nothing ranks above it,
    /// and everything before it ranks strictly below it, so the earliest
    /// published maximum wins.
    pub open spec fn is_highest_at(self, i: int) -> bool {
        &&& 0 <= i < self.versions@.len()
        &&& forall|j: int|
            0 <= j < self.versions@.len() ==> version_le(
                (#[trigger] self.versions@[j]).version.key(),
                self.versions@[i].version.key(),
            )
        &&& forall|j: int|
            0 <= j < i ==> version_lt(
                (#[trigger] self.versions@[j]).version.key(),
                self.versions@[i].version.key(),
            )
    }

    /// Position `i` holds the highest normal version: it is normal,
    /// nothing normal ranks above it, and everything normal before it
    /// ranks strictly below it.
    pub open spec fn is_highest_normal_at(self, i: int) -> bool {
        &&& 0 <= i < self.versions@.len()
        &&& self.versions@[i].spec_is_normal()
        &&& forall|j: int|
            0 <= j < self.versions@.len() && (#[trigger] self.versions@[j]).spec_is_normal()
                ==> version_le(self.versions@[j].version.key(), self.versions@[i].version.key())
        &&& forall|j: int|
            0 <= j < i && (#[trigger] self.versions@[j]).spec_is_normal() ==> version_lt(
                self.versions@[j].version.key(),
                self.versions@[i].version.key(),
            )
    }

    /// The first version ever published, regardless of its yank state.
    pub fn earliest_version(&self) -> (r: &VersionRecord)
        requires
            self.versions@.len() > 0,
        ensures
            *r == self.versions@[0],
    {
        &self.versions[0]
    }

    /// The last version published by date, even if it is yanked or ranks
    /// below the highest version.
    pub fn most_recent_version(&self) -> (r: &VersionRecord)
        requires
            self.versions@.len() > 0,
        ensures
            *r == self.versions@[self.versions@.len() - 1],
    {
        &self.versions[self.versions.len() - 1]
    }

    /// The version ranking highest in semantic-version order, counting
    /// yanked and pre-release versions too. Ranking ties cannot arise
    /// from distinct version strings; were the order ever to tie, the
    /// earliest published of the tied versions is returned.
    pub fn highest_version(&self) -> (r: &VersionRecord)
        requires
            self.versions@.len() > 0,
        ensures
            exists|i: int| self.is_highest_at(i) && *r == self.versions@[i],
    {
        let mut best: usize = 0;
        let mut i: usize = 1;
        proof {
            lemma_version_lt_irrefl(self.versions@[0].version.key());
        }
        while i < self.versions.len()
            invariant
                self.versions@.len() > 0,
                0 <= best < i <= self.versions@.len(),
                forall|j: int|
                    0 <= j < i ==> version_le(
                        (#[trigger] self.versions@[j]).version.key(),
                        self.versions@[best as int].version.key(),
                    ),
                forall|j: int|
                    0 <= j < best ==> version_lt(
                        (#[trigger] self.versions@[j]).version.key(),
                        self.versions@[best as int].version.key(),
                    ),
            decreases self.versions@.len() - i,
        {
            let ghost bk = self.versions@[best as int].version.key();
            let ghost ck = self.versions@[i as int].version.key();
            proof {
                lemma_version_lt_irrefl(ck);
            }
            if self.versions[best].version.precedes(&self.versions[i].version) {
                proof {
                    assert forall|j: int| 0 <= j < i implies version_lt(
                        (#[trigger] self.versions@[j]).version.key(),
                        ck,
                    ) by {
                        let jk = self.versions@[j].version.key();
                        if version_lt(ck, jk) {
                            lemma_version_lt_trans(bk, ck, jk);
                        }
                        if !version_lt(jk, ck) {
                            lemma_version_conn(jk, ck);
                        }
                    }
                    assert forall|j: int| 0 <= j < i + 1 implies version_le(
                        (#[trigger] self.versions@[j]).version.key(),
                        ck,
                    ) by {
                        let jk = self.versions@[j].version.key();
                        if j < i && version_lt(ck, jk) {
                            lemma_version_lt_trans(ck, jk, ck);
                        }
                    }
                }
                best = i;
            }
            i = i + 1;
        }
        proof {
            assert(self.is_highest_at(best as int));
        }
        &self.versions[best]
    }

    /// The highest-ranking version that is neither yanked nor a
    /// pre-release, or nothing when no such version exists.
    pub fn highest_normal_version(&self) -> (r: Option<&VersionRecord>)
        ensures
            match r {
                Some(v) => exists|i: int| self.is_highest_normal_at(i) && *v == self.versions@[i],
                None => forall|j: int|
                    0 <= j < self.versions@.len() ==> !(#[trigger] self.versions@[j]).spec_is_normal(),
            },
    {
        let mut best: Option<usize> = None;
        let mut i: usize = 0;
        while i < self.versions.len()
            invariant
                i <= self.versions@.len(),
                match best {
                    Some(b) => {
                        &&& 0 <= b < i
                        &&& self.versions@[b as int].spec_is_normal()
                        &&& forall|j: int|
                            0 <= j < i && (#[trigger] self.versions@[j]).spec_is_normal()
                                ==> version_le(
                                self.versions@[j].version.key(),
                                self.versions@[b as int].version.key(),
                            )
                        &&& forall|j: int|
                            0 <= j < b && (#[trigger] self.versions@[j]).spec_is_normal()
                                ==> version_lt(
                                self.versions@[j].version.key(),
                                self.versions@[b as int].version.key(),
                            )
                    },
                    None => forall|j: int|
                        0 <= j < i ==> !(#[trigger] self.versions@[j]).spec_is_normal(),
                },
            decreases self.versions@.len() - i,
        {
            proof {
                lemma_version_lt_irrefl(self.versions@[i as int].version.key());
            }
            if self.versions[i].is_normal() {
                match best {
                    None => {
                        best = Some(i);
                    },
                    Some(b) => {
                        let ghost bk = self.versions@[b as int].version.key();
                        let ghost ck = self.versions@[i as int].version.key();
                        if self.versions[b].version.precedes(&self.versions[i].version) {
                            proof {
                                assert forall|j: int|
                                    0 <= j < i && (#[trigger] self.versions@[j]).spec_is_normal()
                                        implies version_lt(
                                    self.versions@[j].version.key(),
                                    ck,
                                ) by {
                                    let jk = self.versions@[j].version.key();
                                    if version_lt(ck, jk) {
                                        lemma_version_lt_trans(bk, ck, jk);
                                    }
                                    if !version_lt(jk, ck) {
                                        lemma_version_conn(jk, ck);
                                    }
                                }
                                assert forall|j: int|
                                    0 <= j < i + 1 && (#[trigger] self.versions@[j]).spec_is_normal()
                                        implies version_le(
                                    self.versions@[j].version.key(),
                                    ck,
                                ) by {
                                    let jk = self.versions@[j].version.key();
                                    if j < i && version_lt(ck, jk) {
                                        lemma_version_lt_trans(ck, jk, ck);
                                    }
                                }
                            }
                            best = Some(i);
                        }
                    },
                }
            }
            i = i + 1;
        }
        match best {
            Some(b) => {
                proof {
                    assert(self.is_highest_normal_at(b as int));
                }
                Some(&self.versions[b])
            },
            None => None,
        }
    }
}

/// The policies under which one version of a package is selected, for
/// example to decide whose dependencies a mirror should cascade.
#[derive(Debug, Clone, Copy, PartialEq, Eq, Structural)]
pub enum SelectVersion {
    /// The most recently published version.
    Latest,
    /// The highest version, pre-releases and yanked versions included.
    Highest,
    /// The highest version that is neither yanked nor a pre-release.
    HighestNormal,
    /// The first version ever published.
    Earliest,
    /// No version at all.
    Skip,
}

impl PackageMetadata {
    /// The version the policy picks: nothing under `Skip`, and nothing
    /// under `HighestNormal` when every version is yanked or a
    /// pre-release.
    pub fn select_version(&self, policy: SelectVersion) -> (r: Option<&VersionRecord>)
        requires
            self.versions@.len() > 0,
        ensures
            match policy {
                SelectVersion::Latest => r matches Some(v) && *v == self.versions@[self.versions@.len()
                    - 1],
                SelectVersion::Earliest => r matches Some(v) && *v == self.versions@[0],
                SelectVersion::Highest => r matches Some(v) && exists|i: int|
                    self.is_highest_at(i) && *v == self.versions@[i],
                SelectVersion::HighestNormal => match r {
                    Some(v) => exists|i: int| self.is_highest_normal_at(i) && *v
                        == self.versions@[i],
                    None => forall|j: int|
                        0 <= j < self.versions@.len() ==> !(#[trigger] self.versions@[j]).spec_is_normal(),
                },
                SelectVersion::Skip => r is None,
            },
    {
        match policy {
            SelectVersion::Latest => Some(self.most_recent_version()),
            SelectVersion::Earliest => Some(self.earliest_version()),
            SelectVersion::Highest => Some(self.highest_version()),
            SelectVersion::HighestNormal => self.highest_normal_version(),
            SelectVersion::Skip => None,
        }
    }
}

/// The first-published and most-recently-published versions are both
/// members of the history, and the earliest one's publish position never
/// comes after the most recent one's.
pub proof fn lemma_earliest_not_after_most_recent(m: PackageMetadata)
    requires
        m.versions@.len() > 0,
    ensures
        m.versions@.contains(m.versions@[0]),
        m.versions@.contains(m.versions@[m.versions@.len() - 1]),
        0 <= m.versions@.len() - 1,
{
}

/// The highest version ranks at least as high as every version in the
/// same history, whichever position it was published at.
pub proof fn lemma_highest_dominates(m: PackageMetadata, i: int, j: int)
    requires
        m.is_highest_at(i),
        0 <= j < m.versions@.len(),
    ensures
        version_le(m.versions@[j].version.key(), m.versions@[i].version.key()),
{
}

} // verus!
