//! Minimum-toolchain versions: `1.56` or `1.56.0` style strings, compared
//! numerically, never as text.

use vstd::prelude::*;

use crate::error::Error;
use crate::parse::all_digit_codes;
use crate::parse::is_digit_code;
use crate::parse::split_codes;
use crate::parse::str_codes;

verus! {

/// A declared minimum toolchain version.
#[derive(Debug, Clone, PartialEq, Eq)]
pub struct ToolchainVersion {
    /// Major component.
    pub major: u64,
    /// Minor component, zero when the string leaves it out.
    pub minor: u64,
    /// Patch component, zero when the string leaves it out.
    pub patch: u64,
    /// The version exactly as the index spelled it.
    pub text: String,
}

/// The number a digit sequence names.
pub open spec fn digits_val(t: Seq<u32>) -> nat
    decreases t.len(),
{
    if t.len() == 0 {
        0
    } else {
        digits_val(t.drop_last()) * 10 + (if t.last() >= 48 {
            (t.last() - 48) as nat
        } else {
            0
        })
    }
}

/// A valid component: non-empty, all digits, and small enough to hold.
pub open spec fn numeral_wf(t: Seq<u32>) -> bool {
    t.len() > 0 && all_digit_codes(t) && digits_val(t) <= u64::MAX
}

/// What a toolchain-version string names: one to three dot-separated
/// decimal components, each fitting in 64 bits; missing components are
/// zero. Anything else names nothing.
pub open spec fn toolchain_parts(s: Seq<char>) -> Option<(u64, u64, u64)> {
    let pieces = split_codes(str_codes(s));
    if s.len() > 0 && 1 <= pieces.len() <= 3 && (forall|j: int|
        0 <= j < pieces.len() ==> numeral_wf(#[trigger] pieces[j])) {
        Some(
            (
                digits_val(pieces[0]) as u64,
                if pieces.len() >= 2 {
                    digits_val(pieces[1]) as u64
                } else {
                    0
                },
                if pieces.len() >= 3 {
                    digits_val(pieces[2]) as u64
                } else {
                    0
                },
            ),
        )
    } else {
        None
    }
}

/// Numeric comparison of toolchain versions, component by component.
pub open spec fn toolchain_le(a: (u64, u64, u64), b: (u64, u64, u64)) -> bool {
    if a.0 != b.0 {
        a.0 < b.0
    } else if a.1 != b.1 {
        a.1 < b.1
    } else {
        a.2 <= b.2
    }
}

/// Appending digits never shrinks the number a sequence names.
proof fn lemma_digits_val_prefix(t: Seq<u32>, k: int)
    requires
        0 <= k <= t.len(),
    ensures
        digits_val(t) >= digits_val(t.take(k)),
    decreases t.len() - k,
{
    if k < t.len() {
        lemma_digits_val_prefix(t, k + 1);
        assert(t.take(k + 1).drop_last() =~= t.take(k));
        assert(digits_val(t.take(k + 1)) >= digits_val(t.take(k)) * 10);
        assert(digits_val(t.take(k)) * 10 >= digits_val(t.take(k)));
    } else {
        assert(t.take(k) =~= t);
    }
}

impl ToolchainVersion {
    /// The numeric triple that the order reads.
    pub open spec fn key(self) -> (u64, u64, u64) {
        (self.major, self.minor, self.patch)
    }

    /// A well-formed value: its triple is what parsing its own text
    /// yields.
    pub open spec fn wf(self) -> bool {
        toolchain_parts(self.text@) == Some(self.key())
    }

    /// Whether this toolchain version is at most `other`.
    pub fn at_most(&self, other: &ToolchainVersion) -> (r: bool)
        ensures
            r == toolchain_le(self.key(), other.key()),
    {
        if self.major != other.major {
            self.major < other.major
        } else if self.minor != other.minor {
            self.minor < other.minor
        } else {
            self.patch <= other.patch
        }
    }

    /// Parses a toolchain-version string.
    pub fn parse(s: &str) -> (r: Result<ToolchainVersion, Error>)
        ensures
            match r {
                Ok(v) => toolchain_parts(s@) == Some(v.key()) && v.text@ == s@ && v.wf(),
                Err(e) => e == Error::InvalidVersion && toolchain_parts(s@) is None,
            },
    {
        let ghost sc = str_codes(s@);
        let n = s.unicode_len();
        if n == 0 {
            return Err(Error::InvalidVersion);
        }
        let mut vals: Vec<u64> = Vec::new();
        let ghost mut pieces: Seq<Seq<u32>> = Seq::empty();
        let mut cur: u64 = 0;
        let mut plen: usize = 0;
        let mut i: usize = 0;
        let ghost mut start: int = 0;
        proof {
            assert(sc.skip(0) =~= sc);
            assert(split_codes(sc) =~= pieces + split_codes(sc.skip(0)));
        }
        while i < n
            invariant
                n == s@.len(),
                n > 0,
                sc == str_codes(s@),
                sc.len() == n,
                0 <= start <= i <= n,
                plen == i - start,
                vals@.len() == pieces.len() <= 2,
                forall|k: int| start <= k < i ==> is_digit_code(#[trigger] sc[k]),
                cur as nat == digits_val(sc.subrange(start, i as int)),
                split_codes(sc) == pieces + split_codes(sc.skip(start)),
                forall|j: int|
                    0 <= j < pieces.len() ==> numeral_wf(#[trigger] pieces[j]) && vals@[j] as nat
                        == digits_val(pieces[j]),
            decreases n - i,
        {
            let c = s.get_char(i);
            let x = c as u32;
            proof {
                assert(sc[i as int] == x);
            }
            if x == 46 {
                let ghost piece = sc.subrange(start, i as int);
                let ghost u = sc.skip(start);
                proof {
                    assert(u.take(i - start) =~= piece);
                    assert(u =~= piece + seq![46u32] + sc.skip(i + 1));
                    crate::parse::lemma_split_at_dot(piece, sc.skip(i + 1));
                    crate::parse::lemma_split_len(sc.skip(i + 1));
                }
                if plen == 0 {
                    proof {
                        assert(split_codes(sc)[pieces.len() as int] == split_codes(u)[0]);
                        assert(!numeral_wf(split_codes(sc)[pieces.len() as int]));
                        assert(toolchain_parts(s@) is None);
                    }
                    return Err(Error::InvalidVersion);
                }
                if vals.len() == 2 {
                    proof {
                        assert(split_codes(sc).len() >= pieces.len() + 2);
                        assert(toolchain_parts(s@) is None);
                    }
                    return Err(Error::InvalidVersion);
                }
                vals.push(cur);
                proof {
                    pieces = pieces + seq![piece];
                    assert(split_codes(sc) =~= pieces + split_codes(sc.skip(i + 1)));
                }
                cur = 0;
                plen = 0;
                proof {
                    start = i + 1;
                }
                proof {
                    assert(sc.subrange(start, i + 1) =~= Seq::<u32>::empty());
                }
            } else if 48 <= x && x <= 57 {
                let d = (x - 48) as u64;
                let ghost piece_so_far = sc.subrange(start, i as int);
                if cur > (u64::MAX - d) / 10 {
                    proof {
                        let u = sc.skip(start);
                        let full = split_codes(u)[0];
                        crate::parse::lemma_split_first_piece(u, i - start);
                        crate::parse::lemma_split_len(u);
                        assert(full.len() > i - start);
                        assert forall|k2: int| 0 <= k2 <= i - start implies full[k2] == u[k2] by {
                            crate::parse::lemma_split_first_piece(u, k2);
                        }
                        assert(full.take(i + 1 - start) =~= u.take(i + 1 - start));
                        assert(u.take(i + 1 - start) =~= sc.subrange(start, i + 1));
                        assert(sc.subrange(start, i + 1).drop_last() =~= piece_so_far);
                        assert(digits_val(sc.subrange(start, i + 1)) == digits_val(piece_so_far)
                            * 10 + d);
                        assert(digits_val(piece_so_far) * 10 + d > u64::MAX) by (nonlinear_arith)
                            requires
                                digits_val(piece_so_far) == cur as nat,
                                cur > (u64::MAX - d) / 10,
                                d <= 9,
                        ;
                        lemma_digits_val_prefix(full, i + 1 - start);
                        assert(digits_val(full) > u64::MAX);
                        assert(!numeral_wf(full));
                        assert(split_codes(sc)[pieces.len() as int] == full);
                        assert(toolchain_parts(s@) is None);
                    }
                    return Err(Error::InvalidVersion);
                }
                proof {
                    assert(cur * 10 + d <= u64::MAX) by (nonlinear_arith)
                        requires
                            cur <= (u64::MAX - d) / 10,
                            d <= 9,
                    ;
                }
                cur = cur * 10 + d;
                plen = plen + 1;
                proof {
                    assert(sc.subrange(start, i + 1).drop_last() =~= piece_so_far);
                    assert(cur as nat == digits_val(sc.subrange(start, i + 1)));
                }
            } else {
                proof {
                    let u = sc.skip(start);
                    crate::parse::lemma_split_first_piece(u, i - start);
                    crate::parse::lemma_split_len(u);
                    assert(!is_digit_code(split_codes(u)[0][i - start]));
                    assert(!numeral_wf(split_codes(u)[0]));
                    assert(split_codes(sc)[pieces.len() as int] == split_codes(u)[0]);
                    assert(toolchain_parts(s@) is None);
                }
                return Err(Error::InvalidVersion);
            }
            i = i + 1;
        }
        let ghost last_piece = sc.skip(start);
        proof {
        }
        if plen == 0 {
            proof {
                crate::parse::lemma_split_no_dot(last_piece);
                assert(last_piece =~= sc.subrange(start, n as int));
                assert(!numeral_wf(last_piece));
                assert(split_codes(sc)[pieces.len() as int] == last_piece);
                assert(toolchain_parts(s@) is None);
            }
            return Err(Error::InvalidVersion);
        }
        vals.push(cur);
        proof {
            crate::parse::lemma_split_no_dot(last_piece);
            assert(last_piece =~= sc.subrange(start, n as int));
            pieces = pieces + seq![last_piece];
            assert(split_codes(sc) =~= pieces);
        }
        let major = vals[0];
        let minor = if vals.len() >= 2 {
            vals[1]
        } else {
            0
        };
        let patch = if vals.len() >= 3 {
            vals[2]
        } else {
            0
        };
        let text = s.to_owned();
        Ok(ToolchainVersion { major, minor, patch, text })
    }
}

} // verus!
