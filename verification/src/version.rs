//! Semantic versions: the parsed model, and the precedence order used to
//! pick the highest version of a package.

use vstd::prelude::*;

verus! {

/// One dot-separated identifier of a pre-release tag, e.g. `alpha` or `7`
/// in `1.0.0-alpha.7`.
#[derive(Debug, Clone, PartialEq, Eq)]
pub struct PreIdent {
    /// True when the identifier is purely numeric; such identifiers
    /// compare by value and rank below every alphanumeric one.
    pub numeric: bool,
    /// The identifier's characters, each as its Unicode code point.
    pub text: Vec<u32>,
}

/// A pre-release identifier as specifications see it: the numeric flag and
/// the character code points.
pub type IdentKey = (bool, Seq<u32>);

/// A parsed semantic version.
#[derive(Debug, Clone, PartialEq, Eq)]
pub struct Version {
    /// Major component.
    pub major: u64,
    /// Minor component.
    pub minor: u64,
    /// Patch component.
    pub patch: u64,
    /// Pre-release identifiers, empty for a normal release.
    pub pre: Vec<PreIdent>,
    /// The version exactly as the index spelled it.
    pub text: String,
}

/// The part of a version that its precedence depends on. Build metadata
/// and the spelling in the index play no role in the order.
pub ghost struct VersionKey {
    /// Major component.
    pub major: u64,
    /// Minor component.
    pub minor: u64,
    /// Patch component.
    pub patch: u64,
    /// Pre-release identifiers.
    pub pre: Seq<IdentKey>,
}

/// Strict lexicographic order on character sequences, by code point.
pub open spec fn codes_lt(a: Seq<u32>, b: Seq<u32>) -> bool
    decreases a.len(),
{
    if a.len() == 0 {
        b.len() > 0
    } else if b.len() == 0 {
        false
    } else if a[0] != b[0] {
        a[0] < b[0]
    } else {
        codes_lt(a.drop_first(), b.drop_first())
    }
}

/// Strict order on canonical decimal numerals: a shorter numeral names a
/// smaller number, numerals of one length compare digit by digit.
pub open spec fn num_lt(a: Seq<u32>, b: Seq<u32>) -> bool {
    if a.len() < b.len() {
        true
    } else if a.len() > b.len() {
        false
    } else {
        codes_lt(a, b)
    }
}

/// Strict order on pre-release identifiers: numeric identifiers rank below
/// alphanumeric ones; within a kind, `num_lt` or `codes_lt` decides.
pub open spec fn ident_lt(a: IdentKey, b: IdentKey) -> bool {
    if a.0 && !b.0 {
        true
    } else if !a.0 && b.0 {
        false
    } else if a.0 {
        num_lt(a.1, b.1)
    } else {
        codes_lt(a.1, b.1)
    }
}

/// Strict lexicographic order on whole pre-release tags: a tag that is a
/// proper prefix of another ranks below it.
pub open spec fn idents_lt(a: Seq<IdentKey>, b: Seq<IdentKey>) -> bool
    decreases a.len(),
{
    if a.len() == 0 {
        b.len() > 0
    } else if b.len() == 0 {
        false
    } else if ident_lt(a[0], b[0]) {
        true
    } else if ident_lt(b[0], a[0]) {
        false
    } else {
        idents_lt(a.drop_first(), b.drop_first())
    }
}

/// Strict semantic-version precedence: numeric triple first; for one
/// triple, any pre-release ranks below the normal release, and two
/// pre-releases compare identifier by identifier.
pub open spec fn version_lt(a: VersionKey, b: VersionKey) -> bool {
    if a.major != b.major {
        a.major < b.major
    } else if a.minor != b.minor {
        a.minor < b.minor
    } else if a.patch != b.patch {
        a.patch < b.patch
    } else if a.pre.len() == 0 {
        false
    } else if b.pre.len() == 0 {
        true
    } else {
        idents_lt(a.pre, b.pre)
    }
}

/// Non-strict semantic-version precedence. The order is total, so `a` is
/// at most `b` exactly when `b` is not strictly below `a`.
pub open spec fn version_le(a: VersionKey, b: VersionKey) -> bool {
    !version_lt(b, a)
}

/// Restates the definition of `codes_lt`, so proofs can appeal to it on
/// sequences that only occur in their hypotheses.
proof fn lemma_codes_lt_unfold(a: Seq<u32>, b: Seq<u32>)
    ensures
        codes_lt(a, b) == (if a.len() == 0 {
            b.len() > 0
        } else if b.len() == 0 {
            false
        } else if a[0] != b[0] {
            a[0] < b[0]
        } else {
            codes_lt(a.drop_first(), b.drop_first())
        }),
{
}

/// Restates the definition of `idents_lt` in the same way.
proof fn lemma_idents_lt_unfold(a: Seq<IdentKey>, b: Seq<IdentKey>)
    ensures
        idents_lt(a, b) == (if a.len() == 0 {
            b.len() > 0
        } else if b.len() == 0 {
            false
        } else if ident_lt(a[0], b[0]) {
            true
        } else if ident_lt(b[0], a[0]) {
            false
        } else {
            idents_lt(a.drop_first(), b.drop_first())
        }),
{
}

/// Two character sequences that neither `codes_lt` orders are equal.
proof fn lemma_codes_conn(a: Seq<u32>, b: Seq<u32>)
    requires
        !codes_lt(a, b),
        !codes_lt(b, a),
    ensures
        a == b,
    decreases a.len(),
{
    lemma_codes_lt_unfold(a, b);
    lemma_codes_lt_unfold(b, a);
    if a.len() == 0 {
        assert(b.len() == 0);
        assert(a =~= b);
    } else {
        assert(b.len() > 0);
        assert(a[0] == b[0]);
        lemma_codes_conn(a.drop_first(), b.drop_first());
        assert(a =~= b) by {
            assert(forall|i: int|
                1 <= i < a.len() ==> a[i] == a.drop_first()[i - 1] && b[i] == b.drop_first()[i
                    - 1]);
        }
    }
}

/// `codes_lt` is transitive.
proof fn lemma_codes_lt_trans(a: Seq<u32>, b: Seq<u32>, c: Seq<u32>)
    requires
        codes_lt(a, b),
        codes_lt(b, c),
    ensures
        codes_lt(a, c),
    decreases a.len(),
{
    lemma_codes_lt_unfold(a, b);
    lemma_codes_lt_unfold(b, c);
    lemma_codes_lt_unfold(a, c);
    if a.len() == 0 {
        assert(c.len() > 0);
    } else {
        assert(b.len() > 0);
        assert(c.len() > 0);
        if a[0] == b[0] && b[0] == c[0] {
            lemma_codes_lt_trans(a.drop_first(), b.drop_first(), c.drop_first());
        }
    }
}

/// Two numerals that neither `num_lt` orders are equal.
proof fn lemma_num_conn(a: Seq<u32>, b: Seq<u32>)
    requires
        !num_lt(a, b),
        !num_lt(b, a),
    ensures
        a == b,
{
    lemma_codes_conn(a, b);
}

/// `num_lt` is transitive.
proof fn lemma_num_lt_trans(a: Seq<u32>, b: Seq<u32>, c: Seq<u32>)
    requires
        num_lt(a, b),
        num_lt(b, c),
    ensures
        num_lt(a, c),
{
    if a.len() == b.len() && b.len() == c.len() {
        lemma_codes_lt_trans(a, b, c);
    }
}

/// Two identifiers that neither `ident_lt` orders are equal.
proof fn lemma_ident_conn(a: IdentKey, b: IdentKey)
    requires
        !ident_lt(a, b),
        !ident_lt(b, a),
    ensures
        a == b,
{
    if a.0 && b.0 {
        lemma_num_conn(a.1, b.1);
    } else {
        lemma_codes_conn(a.1, b.1);
    }
}

/// `ident_lt` is transitive.
proof fn lemma_ident_lt_trans(a: IdentKey, b: IdentKey, c: IdentKey)
    requires
        ident_lt(a, b),
        ident_lt(b, c),
    ensures
        ident_lt(a, c),
{
    if a.0 && b.0 && c.0 {
        lemma_num_lt_trans(a.1, b.1, c.1);
    } else if !a.0 && !b.0 && !c.0 {
        lemma_codes_lt_trans(a.1, b.1, c.1);
    }
}

/// Two pre-release tags that neither `idents_lt` orders are equal.
proof fn lemma_idents_conn(a: Seq<IdentKey>, b: Seq<IdentKey>)
    requires
        !idents_lt(a, b),
        !idents_lt(b, a),
    ensures
        a == b,
    decreases a.len(),
{
    lemma_idents_lt_unfold(a, b);
    lemma_idents_lt_unfold(b, a);
    if a.len() == 0 {
        assert(b.len() == 0);
        assert(a =~= b);
    } else {
        assert(b.len() > 0);
        lemma_ident_conn(a[0], b[0]);
        lemma_idents_conn(a.drop_first(), b.drop_first());
        assert(a =~= b) by {
            assert(forall|i: int|
                1 <= i < a.len() ==> a[i] == a.drop_first()[i - 1] && b[i] == b.drop_first()[i
                    - 1]);
        }
    }
}

/// `idents_lt` is transitive.
proof fn lemma_idents_lt_trans(a: Seq<IdentKey>, b: Seq<IdentKey>, c: Seq<IdentKey>)
    requires
        idents_lt(a, b),
        idents_lt(b, c),
    ensures
        idents_lt(a, c),
    decreases a.len(),
{
    lemma_idents_lt_unfold(a, b);
    lemma_idents_lt_unfold(b, c);
    lemma_idents_lt_unfold(a, c);
    if a.len() == 0 {
        assert(c.len() > 0);
    } else {
        assert(b.len() > 0);
        assert(c.len() > 0);
        if ident_lt(a[0], b[0]) {
            if ident_lt(b[0], c[0]) {
                lemma_ident_lt_trans(a[0], b[0], c[0]);
            } else {
                lemma_ident_conn(b[0], c[0]);
            }
        } else {
            lemma_ident_conn(a[0], b[0]);
            if !ident_lt(b[0], c[0]) {
                lemma_ident_conn(b[0], c[0]);
                lemma_idents_lt_trans(a.drop_first(), b.drop_first(), c.drop_first());
            }
        }
    }
}

/// No code-point sequence is strictly below itself.
proof fn lemma_codes_irrefl(a: Seq<u32>)
    ensures
        !codes_lt(a, a),
    decreases a.len(),
{
    if a.len() > 0 {
        lemma_codes_irrefl(a.drop_first());
    }
}

/// No pre-release tag is strictly below itself.
proof fn lemma_idents_irrefl(a: Seq<IdentKey>)
    ensures
        !idents_lt(a, a),
    decreases a.len(),
{
    if a.len() > 0 {
        lemma_codes_irrefl(a[0].1);
        lemma_idents_irrefl(a.drop_first());
    }
}

/// No version is strictly below itself: the precedence order is a strict
/// order, so `version_le` is reflexive.
pub proof fn lemma_version_lt_irrefl(a: VersionKey)
    ensures
        !version_lt(a, a),
{
    if a.pre.len() > 0 {
        lemma_idents_irrefl(a.pre);
    }
}

/// Semantic-version precedence is transitive.
pub proof fn lemma_version_lt_trans(a: VersionKey, b: VersionKey, c: VersionKey)
    requires
        version_lt(a, b),
        version_lt(b, c),
    ensures
        version_lt(a, c),
{
    if a.major == b.major && b.major == c.major && a.minor == b.minor && b.minor == c.minor
        && a.patch == b.patch && b.patch == c.patch {
        if a.pre.len() > 0 && b.pre.len() > 0 && c.pre.len() > 0 {
            lemma_idents_lt_trans(a.pre, b.pre, c.pre);
        }
    }
}

/// Two versions that neither `version_lt` orders have equal keys.
pub proof fn lemma_version_conn(a: VersionKey, b: VersionKey)
    requires
        !version_lt(a, b),
        !version_lt(b, a),
    ensures
        a == b,
{
    if a.pre.len() > 0 && b.pre.len() > 0 {
        lemma_idents_conn(a.pre, b.pre);
    } else {
        assert(a.pre =~= b.pre);
    }
}

impl PreIdent {
    /// The key that the identifier order reads.
    pub open spec fn key(self) -> IdentKey {
        (self.numeric, self.text@)
    }
}

impl Version {
    /// The key that the precedence order reads.
    pub open spec fn key(self) -> VersionKey {
        VersionKey {
            major: self.major,
            minor: self.minor,
            patch: self.patch,
            pre: self.pre@.map_values(|p: PreIdent| p.key()),
        }
    }

    /// True when this version is a pre-release.
    pub open spec fn spec_is_prerelease(self) -> bool {
        self.pre@.len() > 0
    }

    /// Whether this version carries a pre-release tag.
    pub fn is_prerelease(&self) -> (r: bool)
        ensures
            r == self.spec_is_prerelease(),
    {
        self.pre.len() > 0
    }

    /// Whether this version strictly precedes `other` in semantic-version
    /// order.
    pub fn precedes(&self, other: &Version) -> (r: bool)
        ensures
            r == version_lt(self.key(), other.key()),
    {
        if self.major != other.major {
            self.major < other.major
        } else if self.minor != other.minor {
            self.minor < other.minor
        } else if self.patch != other.patch {
            self.patch < other.patch
        } else if self.pre.len() == 0 {
            false
        } else if other.pre.len() == 0 {
            true
        } else {
            let r = idents_lt_from(&self.pre, &other.pre, 0);
            proof {
                let am = self.pre@.map_values(|p: PreIdent| p.key());
                let bm = other.pre@.map_values(|p: PreIdent| p.key());
                assert(am.skip(0) =~= am);
                assert(bm.skip(0) =~= bm);
            }
            r
        }
    }
}

/// Compares the tails of two code-point vectors from position `i` on.
fn codes_lt_from(a: &Vec<u32>, b: &Vec<u32>, i: usize) -> (r: bool)
    requires
        i <= a@.len(),
        i <= b@.len(),
    ensures
        r == codes_lt(a@.skip(i as int), b@.skip(i as int)),
    decreases a@.len() - i,
{
    if i == a.len() {
        i < b.len()
    } else if i == b.len() {
        false
    } else if a[i] != b[i] {
        a[i] < b[i]
    } else {
        let r = codes_lt_from(a, b, i + 1);
        proof {
            assert(a@.skip(i as int).drop_first() =~= a@.skip(i + 1));
            assert(b@.skip(i as int).drop_first() =~= b@.skip(i + 1));
        }
        r
    }
}

/// Compares two whole code-point vectors.
fn codes_vec_lt(a: &Vec<u32>, b: &Vec<u32>) -> (r: bool)
    ensures
        r == codes_lt(a@, b@),
{
    let r = codes_lt_from(a, b, 0);
    proof {
        assert(a@.skip(0) =~= a@);
        assert(b@.skip(0) =~= b@);
    }
    r
}

/// Compares two pre-release identifiers.
fn pre_ident_lt(a: &PreIdent, b: &PreIdent) -> (r: bool)
    ensures
        r == ident_lt(a.key(), b.key()),
{
    if a.numeric && !b.numeric {
        true
    } else if !a.numeric && b.numeric {
        false
    } else if a.numeric {
        if a.text.len() != b.text.len() {
            a.text.len() < b.text.len()
        } else {
            codes_vec_lt(&a.text, &b.text)
        }
    } else {
        codes_vec_lt(&a.text, &b.text)
    }
}

/// Compares the tails of two pre-release tags from position `i` on.
fn idents_lt_from(a: &Vec<PreIdent>, b: &Vec<PreIdent>, i: usize) -> (r: bool)
    requires
        i <= a@.len(),
        i <= b@.len(),
    ensures
        r == idents_lt(
            a@.map_values(|p: PreIdent| p.key()).skip(i as int),
            b@.map_values(|p: PreIdent| p.key()).skip(i as int),
        ),
    decreases a@.len() - i,
{
    let ghost am = a@.map_values(|p: PreIdent| p.key());
    let ghost bm = b@.map_values(|p: PreIdent| p.key());
    if i == a.len() {
        i < b.len()
    } else if i == b.len() {
        false
    } else {
        if pre_ident_lt(&a[i], &b[i]) {
            true
        } else if pre_ident_lt(&b[i], &a[i]) {
            false
        } else {
            let r = idents_lt_from(a, b, i + 1);
            proof {
                assert(am.skip(i as int).drop_first() =~= am.skip(i + 1));
                assert(bm.skip(i as int).drop_first() =~= bm.skip(i + 1));
            }
            r
        }
    }
}

} // verus!
