//! Turning version strings from the index into the parsed model.

use vstd::prelude::*;

use crate::error::Error;
use crate::version::PreIdent;
use crate::version::Version;

verus! {

/// The characters of `s`, each as its Unicode code point.
pub open spec fn str_codes(s: Seq<char>) -> Seq<u32> {
    s.map_values(|c: char| c as u32)
}

/// An ASCII decimal digit.
pub open spec fn is_digit_code(c: u32) -> bool {
    48 <= c <= 57
}

/// A character a pre-release identifier may hold: ASCII alphanumeric or a
/// hyphen.
pub open spec fn is_ident_code(c: u32) -> bool {
    is_digit_code(c) || (65 <= c <= 90) || (97 <= c <= 122) || c == 45
}

/// Every character is a digit.
pub open spec fn all_digit_codes(t: Seq<u32>) -> bool {
    forall|i: int| 0 <= i < t.len() ==> is_digit_code(#[trigger] t[i])
}

/// A valid pre-release identifier: non-empty, allowed characters only,
/// and a numeric identifier carries no leading zero.
pub open spec fn ident_wf(t: Seq<u32>) -> bool {
    &&& t.len() > 0
    &&& forall|i: int| 0 <= i < t.len() ==> is_ident_code(#[trigger] t[i])
    &&& all_digit_codes(t) ==> (t.len() == 1 || t[0] != 48)
}

/// The dot-separated pieces of `s`: splitting the empty sequence yields
/// one empty piece, and each dot opens a further piece.
pub open spec fn split_codes(s: Seq<u32>) -> Seq<Seq<u32>>
    decreases s.len(),
{
    if s.len() == 0 {
        seq![Seq::<u32>::empty()]
    } else if s[0] == 46 {
        seq![Seq::<u32>::empty()] + split_codes(s.drop_first())
    } else {
        let rest = split_codes(s.drop_first());
        seq![seq![s[0]] + rest[0]] + rest.drop_first()
    }
}

/// The identifiers of a pre-release tag: none for the empty tag.
pub open spec fn pre_idents_of(s: Seq<u32>) -> Seq<Seq<u32>> {
    if s.len() == 0 {
        Seq::empty()
    } else {
        split_codes(s)
    }
}

/// A well-formed pre-release tag: every identifier is valid.
pub open spec fn pre_wellformed(s: Seq<u32>) -> bool {
    forall|j: int| 0 <= j < pre_idents_of(s).len() ==> ident_wf(#[trigger] pre_idents_of(s)[j])
}

/// Splitting yields at least one piece.
pub(crate) proof fn lemma_split_len(s: Seq<u32>)
    ensures
        split_codes(s).len() >= 1,
    decreases s.len(),
{
    if s.len() > 0 {
        lemma_split_len(s.drop_first());
    }
}

/// A dot-free sequence splits into itself alone.
pub(crate) proof fn lemma_split_no_dot(t: Seq<u32>)
    requires
        forall|k: int| 0 <= k < t.len() ==> (#[trigger] t[k]) != 46,
    ensures
        split_codes(t) == seq![t],
    decreases t.len(),
{
    if t.len() == 0 {
        assert(t =~= Seq::<u32>::empty());
        assert(split_codes(t) =~= seq![t]);
    } else {
        lemma_split_no_dot(t.drop_first());
        assert(seq![t[0]] + t.drop_first() =~= t);
        assert(split_codes(t) =~= seq![t]);
    }
}

/// Splitting a sequence that opens with a dot-free piece, a dot, and a
/// remainder yields that piece followed by the remainder's pieces.
pub(crate) proof fn lemma_split_at_dot(t: Seq<u32>, r: Seq<u32>)
    requires
        forall|k: int| 0 <= k < t.len() ==> (#[trigger] t[k]) != 46,
    ensures
        split_codes(t + seq![46u32] + r) == seq![t] + split_codes(r),
    decreases t.len(),
{
    let s = t + seq![46u32] + r;
    if t.len() == 0 {
        assert(s[0] == 46);
        assert(s.drop_first() =~= r);
        assert(t =~= Seq::<u32>::empty());
        assert(split_codes(s) =~= seq![t] + split_codes(r));
    } else {
        assert(s[0] == t[0]);
        assert(s.drop_first() =~= t.drop_first() + seq![46u32] + r);
        lemma_split_at_dot(t.drop_first(), r);
        let rest = split_codes(s.drop_first());
        assert(rest[0] == t.drop_first());
        assert(seq![s[0]] + rest[0] =~= t);
        assert(rest.drop_first() =~= split_codes(r));
        assert(split_codes(s) =~= seq![t] + split_codes(r));
    }
}

/// Before the first dot, the first piece copies the sequence: if
/// positions up to and including `m` are dot-free, the first piece
/// reaches past `m` and agrees there.
pub(crate) proof fn lemma_split_first_piece(u: Seq<u32>, m: int)
    requires
        0 <= m < u.len(),
        forall|k: int| 0 <= k < m ==> (#[trigger] u[k]) != 46,
        u[m] != 46,
    ensures
        split_codes(u)[0].len() > m,
        split_codes(u)[0][m] == u[m],
    decreases m,
{
    if m == 0 {
        assert(u[0] != 46);
    } else {
        assert(u[0] != 46);
        lemma_split_first_piece(u.drop_first(), m - 1);
    }
}

/// The numeric triple and pre-release tag of a semantic version, as the
/// semver grammar reads it, or nothing when the string is not a semantic
/// version.
pub uninterp spec fn semver_parts(s: Seq<char>) -> Option<SemverParts>;

/// What parsing a version string yields.
pub ghost struct SemverParts {
    /// Major component.
    pub major: u64,
    /// Minor component.
    pub minor: u64,
    /// Patch component.
    pub patch: u64,
    /// The pre-release tag without its leading hyphen; empty for a
    /// normal release.
    pub pre: Seq<char>,
}

/// The parsed pieces of one version string, before the pre-release tag
/// is split.
struct RawSemver {
    major: u64,
    minor: u64,
    patch: u64,
    pre: String,
}

/// Relies on `semver::Version::parse` for the semantic-version grammar.
/// The parse yields the numeric triple and the pre-release tag; semver
/// has already validated the tag's identifiers (non-empty, ASCII
/// alphanumeric or hyphen, numeric ones without a leading zero), which
/// `pre_wellformed` restates.
#[verifier::external_body]
fn parse_semver(s: &str) -> (r: Option<RawSemver>)
    ensures
        match r {
            Some(p) => semver_parts(s@) == Some(
                SemverParts { major: p.major, minor: p.minor, patch: p.patch, pre: p.pre@ },
            ) && pre_wellformed(str_codes(p.pre@)),
            None => semver_parts(s@) is None,
        },
{
    match semver::Version::parse(s) {
        Ok(v) => Some(
            RawSemver {
                major: v.major,
                minor: v.minor,
                patch: v.patch,
                pre: v.pre.as_str().to_string(),
            },
        ),
        Err(_) => None,
    }
}

/// Whether `c` may stand in a pre-release identifier.
fn ident_code_ok(c: u32) -> (r: bool)
    ensures
        r == is_ident_code(c),
{
    (48 <= c && c <= 57) || (65 <= c && c <= 90) || (97 <= c && c <= 122) || c == 45
}

/// Closes the identifier gathered in `cur`: checks it and computes its
/// numeric flag. The characters are already known to be allowed.
fn finish_ident(cur: Vec<u32>) -> (r: Result<PreIdent, Error>)
    requires
        forall|i: int| 0 <= i < cur@.len() ==> is_ident_code(#[trigger] cur@[i]),
    ensures
        match r {
            Ok(p) => p.text@ == cur@ && ident_wf(cur@) && p.numeric == all_digit_codes(cur@),
            Err(e) => e == Error::InvalidVersion && !ident_wf(cur@),
        },
{
    if cur.len() == 0 {
        return Err(Error::InvalidVersion);
    }
    let mut numeric = true;
    let mut k: usize = 0;
    while k < cur.len()
        invariant
            k <= cur@.len(),
            numeric == all_digit_codes(cur@.take(k as int)),
        decreases cur@.len() - k,
    {
        let c = cur[k];
        if !(48 <= c && c <= 57) {
            numeric = false;
        }
        proof {
            assert(cur@.take(k + 1).drop_last() =~= cur@.take(k as int));
            assert(cur@.take(k + 1).last() == cur@[k as int]);
        }
        k = k + 1;
    }
    proof {
        assert(cur@.take(cur@.len() as int) =~= cur@);
    }
    if numeric && cur.len() > 1 && cur[0] == 48 {
        return Err(Error::InvalidVersion);
    }
    Ok(PreIdent { numeric, text: cur })
}

/// Splits a pre-release tag into its identifiers, rejecting a tag the
/// semver grammar would not accept.
pub(crate) fn split_pre(s: &str) -> (r: Result<Vec<PreIdent>, Error>)
    ensures
        match r {
            Ok(ids) => {
                &&& pre_wellformed(str_codes(s@))
                &&& ids@.map_values(|p: PreIdent| p.text@) == pre_idents_of(str_codes(s@))
                &&& forall|j: int|
                    0 <= j < ids@.len() ==> (#[trigger] ids@[j]).numeric == all_digit_codes(
                        ids@[j].text@,
                    )
            },
            Err(e) => e == Error::InvalidVersion && !pre_wellformed(str_codes(s@)),
        },
{
    let ghost sc = str_codes(s@);
    let n = s.unicode_len();
    let mut ids: Vec<PreIdent> = Vec::new();
    if n == 0 {
        proof {
            assert(ids@.map_values(|p: PreIdent| p.text@) =~= pre_idents_of(sc));
        }
        return Ok(ids);
    }
    let mut cur: Vec<u32> = Vec::new();
    let mut i: usize = 0;
    let ghost mut start: int = 0;
    proof {
        assert(cur@ =~= sc.subrange(0, 0));
        assert(sc.skip(0) =~= sc);
        assert(split_codes(sc) =~= ids@.map_values(|p: PreIdent| p.text@) + split_codes(
            sc.skip(0),
        ));
    }
    while i < n
        invariant
            n == s@.len(),
            sc == str_codes(s@),
            sc.len() == n,
            0 <= start <= i <= n,
            cur@ == sc.subrange(start, i as int),
            forall|k: int| start <= k < i ==> (#[trigger] sc[k]) != 46,
            split_codes(sc) == ids@.map_values(|p: PreIdent| p.text@) + split_codes(
                sc.skip(start),
            ),
            forall|j: int|
                0 <= j < ids@.len() ==> ident_wf((#[trigger] ids@[j]).text@) && ids@[j].numeric
                    == all_digit_codes(ids@[j].text@),
            forall|k: int| 0 <= k < cur@.len() ==> is_ident_code(#[trigger] cur@[k]),
        decreases n - i,
    {
        let c = s.get_char(i);
        let x = c as u32;
        proof {
            assert(sc[i as int] == x);
        }
        if x == 46 {
            let done = cur;
            cur = Vec::new();
            let ghost u = sc.skip(start);
            proof {
                assert(u.take(i - start) =~= done@);
                assert(u =~= done@ + seq![46u32] + sc.skip(i + 1));
                lemma_split_at_dot(done@, sc.skip(i + 1));
            }
            match finish_ident(done) {
                Ok(p) => {
                    ids.push(p);
                    proof {
                        let m0 = ids@.drop_last().map_values(|p: PreIdent| p.text@);
                        let m1 = ids@.map_values(|p: PreIdent| p.text@);
                        assert(m1 =~= m0 + seq![ids@.last().text@]);
                        assert(split_codes(sc) =~= m1 + split_codes(sc.skip(i + 1)));
                    }
                },
                Err(e) => {
                    proof {
                        let m0 = ids@.map_values(|p: PreIdent| p.text@);
                        lemma_split_len(sc.skip(i + 1));
                        assert(split_codes(sc)[m0.len() as int] == split_codes(u)[0]);
                        assert(pre_idents_of(sc) == split_codes(sc));
                        assert(!ident_wf(pre_idents_of(sc)[m0.len() as int]));
                        assert(!pre_wellformed(sc));
                    }
                    return Err(e);
                },
            }
            proof {
                start = i + 1;
            }
            proof {
                assert(cur@ =~= sc.subrange(start, i + 1));
            }
        } else if ident_code_ok(x) {
            cur.push(x);
            proof {
                assert(cur@ =~= sc.subrange(start, i + 1));
            }
        } else {
            proof {
                let u = sc.skip(start);
                let m0 = ids@.map_values(|p: PreIdent| p.text@);
                assert(forall|k: int| 0 <= k < i - start ==> (#[trigger] u[k]) != 46);
                assert(u[i - start] == sc[i as int]);
                lemma_split_first_piece(u, i - start);
                lemma_split_len(u);
                assert(split_codes(sc)[m0.len() as int] == split_codes(u)[0]);
                assert(!ident_wf(split_codes(u)[0]));
                assert(pre_idents_of(sc) == split_codes(sc));
                assert(!pre_wellformed(sc));
            }
            return Err(Error::InvalidVersion);
        }
        i = i + 1;
    }
    let ghost u = sc.skip(start);
    proof {
        assert(u =~= cur@);
        assert(forall|k: int| 0 <= k < u.len() ==> (#[trigger] u[k]) != 46);
        lemma_split_no_dot(u);
    }
    match finish_ident(cur) {
        Ok(p) => {
            ids.push(p);
            proof {
                let m0 = ids@.drop_last().map_values(|p: PreIdent| p.text@);
                let m1 = ids@.map_values(|p: PreIdent| p.text@);
                assert(m1 =~= m0 + seq![ids@.last().text@]);
                assert(m1 =~= split_codes(sc));
                assert(pre_idents_of(sc) == split_codes(sc));
            }
            Ok(ids)
        },
        Err(e) => {
            proof {
                let m0 = ids@.map_values(|p: PreIdent| p.text@);
                assert(split_codes(sc)[m0.len() as int] == split_codes(u)[0]);
                assert(!ident_wf(split_codes(sc)[m0.len() as int]));
                assert(pre_idents_of(sc) == split_codes(sc));
                assert(!pre_wellformed(sc));
            }
            Err(e)
        },
    }
}

impl Version {
    /// Whether this parsed version faithfully renders `p`.
    pub open spec fn matches_parts(self, p: SemverParts) -> bool {
        &&& self.major == p.major
        &&& self.minor == p.minor
        &&& self.patch == p.patch
        &&& self.pre@.map_values(|q: PreIdent| q.text@) == pre_idents_of(str_codes(p.pre))
        &&& forall|j: int|
            0 <= j < self.pre@.len() ==> (#[trigger] self.pre@[j]).numeric == all_digit_codes(
                self.pre@[j].text@,
            )
    }

    /// A well-formed version: its fields are what parsing its own text
    /// yields.
    pub open spec fn wf(self) -> bool {
        &&& semver_parts(self.text@) matches Some(p)
        &&& self.matches_parts(semver_parts(self.text@)->Some_0)
    }

    /// Parses a semantic-version string.
    pub fn parse(s: &str) -> (r: Result<Version, Error>)
        ensures
            match r {
                Ok(v) => semver_parts(s@) is Some && v.matches_parts(semver_parts(s@)->Some_0)
                    && v.text@ == s@ && v.wf(),
                Err(e) => e == Error::InvalidVersion && semver_parts(s@) is None,
            },
    {
        match parse_semver(s) {
            None => Err(Error::InvalidVersion),
            Some(raw) => {
                match split_pre(raw.pre.as_str()) {
                    Err(_) => {
                        // semver only hands out well-formed tags, so the
                        // splitter cannot refuse one
                        proof {
                            assert(false);
                        }
                        Err(Error::InvalidVersion)
                    },
                    Ok(ids) => {
                        let text = s.to_owned();
                        Ok(
                            Version {
                                major: raw.major,
                                minor: raw.minor,
                                patch: raw.patch,
                                pre: ids,
                                text,
                            },
                        )
                    },
                }
            },
        }
    }
}

} // verus!
