//! A byte counter for the disk space a mirror has consumed.

use vstd::prelude::*;

verus! {

/// The number of binary unit steps that fit the count: the largest power
/// of 1024 that is at most `b`, capped at the exbibyte step.
pub open spec fn unit_index(b: u64) -> int {
    if b >= 0x1000000000000000 {
        6
    } else if b >= 0x4000000000000 {
        5
    } else if b >= 0x10000000000 {
        4
    } else if b >= 0x40000000 {
        3
    } else if b >= 0x100000 {
        2
    } else if b >= 0x400 {
        1
    } else {
        0
    }
}

/// The divisor belonging to a unit step.
pub open spec fn unit_divisor(k: int) -> u64 {
    if k == 6 {
        0x1000000000000000
    } else if k == 5 {
        0x4000000000000
    } else if k == 4 {
        0x10000000000
    } else if k == 3 {
        0x40000000
    } else if k == 2 {
        0x100000
    } else if k == 1 {
        0x400
    } else {
        1
    }
}

/// The unit's name.
pub open spec fn unit_chars(k: int) -> Seq<char> {
    if k == 6 {
        seq!['E', 'i', 'B']
    } else if k == 5 {
        seq!['P', 'i', 'B']
    } else if k == 4 {
        seq!['T', 'i', 'B']
    } else if k == 3 {
        seq!['G', 'i', 'B']
    } else if k == 2 {
        seq!['M', 'i', 'B']
    } else if k == 1 {
        seq!['K', 'i', 'B']
    } else {
        seq!['B']
    }
}

/// The decimal digit `d` as a character.
pub open spec fn digit_char(d: int) -> char {
    if d == 0 {
        '0'
    } else if d == 1 {
        '1'
    } else if d == 2 {
        '2'
    } else if d == 3 {
        '3'
    } else if d == 4 {
        '4'
    } else if d == 5 {
        '5'
    } else if d == 6 {
        '6'
    } else if d == 7 {
        '7'
    } else if d == 8 {
        '8'
    } else {
        '9'
    }
}

/// The decimal numeral of `n`, most significant digit first.
pub open spec fn dec_chars(n: nat) -> Seq<char>
    decreases n,
{
    if n < 10 {
        seq![digit_char(n as int)]
    } else {
        dec_chars(n / 10).push(digit_char((n % 10) as int))
    }
}

/// The count in hundredths of the chosen unit, rounded to the nearest
/// hundredth with halves rounding up.
pub open spec fn scaled_hundredths(b: u64) -> int {
    let d = unit_divisor(unit_index(b)) as int;
    (b * 100 + d / 2) / d
}

/// The human-readable form of a byte count: the count in the largest
/// binary unit it reaches, with two decimal places, a space, and the
/// unit's name.
pub open spec fn disk_display(b: u64) -> Seq<char> {
    let v = scaled_hundredths(b);
    dec_chars((v / 100) as nat) + seq!['.', digit_char((v / 10) % 10), digit_char(v % 10), ' ']
        + unit_chars(unit_index(b))
}

/// Appends the digit `d` to `out`.
fn push_digit(out: &mut String, d: u64)
    requires
        d < 10,
    ensures
        final(out)@ == old(out)@ + seq![digit_char(d as int)],
{
    let ghost before = out@;
    if d == 0 {
        proof {
            reveal_strlit("0");
        }
        out.append("0");
    } else if d == 1 {
        proof {
            reveal_strlit("1");
        }
        out.append("1");
    } else if d == 2 {
        proof {
            reveal_strlit("2");
        }
        out.append("2");
    } else if d == 3 {
        proof {
            reveal_strlit("3");
        }
        out.append("3");
    } else if d == 4 {
        proof {
            reveal_strlit("4");
        }
        out.append("4");
    } else if d == 5 {
        proof {
            reveal_strlit("5");
        }
        out.append("5");
    } else if d == 6 {
        proof {
            reveal_strlit("6");
        }
        out.append("6");
    } else if d == 7 {
        proof {
            reveal_strlit("7");
        }
        out.append("7");
    } else if d == 8 {
        proof {
            reveal_strlit("8");
        }
        out.append("8");
    } else {
        proof {
            reveal_strlit("9");
        }
        out.append("9");
    }
    proof {
        assert(out@ =~= before + seq![digit_char(d as int)]);
    }
}

/// Appends the decimal numeral of `n` to `out`, most significant digit
/// first.
fn push_dec(out: &mut String, n: u64)
    ensures
        final(out)@ == old(out)@ + dec_chars(n as nat),
    decreases n,
{
    let ghost before = out@;
    if n >= 10 {
        push_dec(out, n / 10);
    }
    push_digit(out, n % 10);
    proof {
        if n >= 10 {
            assert(out@ =~= before + dec_chars(n as nat)) by {
                assert(dec_chars(n as nat) == dec_chars((n as nat) / 10).push(
                    digit_char(((n as nat) % 10) as int),
                ));
                assert(out@ =~= before + dec_chars((n as nat) / 10) + seq![
                    digit_char(((n as nat) % 10) as int),
                ]);
            }
        } else {
            assert(out@ =~= before + dec_chars(n as nat));
        }
    }
}

/// Cumulative number of bytes written into a mirror. The counter only
/// ever grows over the life of one builder.
#[derive(Debug, Clone, Copy, PartialEq, Eq, Structural)]
pub struct DiskSize {
    bytes: u64,
}

impl DiskSize {
    /// The number of bytes this counter holds.
    pub closed spec fn spec_bytes(self) -> u64 {
        self.bytes
    }

    /// A counter that has not recorded any bytes yet.
    pub fn zero() -> (r: DiskSize)
        ensures
            r.spec_bytes() == 0,
    {
        DiskSize { bytes: 0 }
    }

    /// A counter starting from the given number of bytes.
    pub fn new(val: u64) -> (r: DiskSize)
        ensures
            r.spec_bytes() == val,
    {
        DiskSize { bytes: val }
    }

    /// Reads the counter.
    pub fn bytes(&self) -> (r: u64)
        ensures
            r == self.spec_bytes(),
    {
        self.bytes
    }

    /// Records `rhs` further bytes.
    pub fn add(&mut self, rhs: u64)
        requires
            old(self).spec_bytes() + rhs <= u64::MAX,
        ensures
            final(self).spec_bytes() == old(self).spec_bytes() + rhs,
    {
        self.bytes = self.bytes + rhs;
    }

    /// The count as text: two decimal places of the largest binary unit
    /// the count reaches, then the unit's name, `B` through `EiB`.
    pub fn render(&self) -> (r: String)
        ensures
            r@ == disk_display(self.spec_bytes()),
    {
        let b = self.bytes;
        let d: u64 = if b >= 0x1000000000000000 {
            0x1000000000000000
        } else if b >= 0x4000000000000 {
            0x4000000000000
        } else if b >= 0x10000000000 {
            0x10000000000
        } else if b >= 0x40000000 {
            0x40000000
        } else if b >= 0x100000 {
            0x100000
        } else if b >= 0x400 {
            0x400
        } else {
            1
        };
        let ghost k = unit_index(b);
        proof {
            assert(d == unit_divisor(k));
        }
        let v: u128 = ((b as u128) * 100 + ((d / 2) as u128)) / (d as u128);
        proof {
            assert(v == scaled_hundredths(b));
            if d == 1 {
                assert(v == b * 100);
                assert(v / 100 == b as int) by (nonlinear_arith)
                    requires
                        v == b * 100,
                ;
            } else {
                vstd::arithmetic::div_mod::lemma_fundamental_div_mod(
                    b * 100 + (d as int) / 2,
                    d as int,
                );
                assert((d as int) * (v as int) <= b * 100 + (d as int) / 2);
                assert(v <= u64::MAX) by (nonlinear_arith)
                    requires
                        (d as int) * (v as int) <= b * 100 + (d as int) / 2,
                        b <= u64::MAX,
                        1024 <= d <= 0x1000000000000000,
                        v >= 0,
                ;
            }
            assert(v / 100 <= v);
        }
        let whole: u64 = (v / 100) as u64;
        let tens: u64 = ((v / 10) % 10) as u64;
        let ones: u64 = (v % 10) as u64;
        let mut out = String::new();
        push_dec(&mut out, whole);
        proof {
            reveal_strlit(".");
        }
        out.append(".");
        push_digit(&mut out, tens);
        push_digit(&mut out, ones);
        proof {
            reveal_strlit(" ");
        }
        out.append(" ");
        if b >= 0x400 {
            let unit = if b >= 0x1000000000000000 {
                proof {
                    reveal_strlit("EiB");
                }
                "EiB"
            } else if b >= 0x4000000000000 {
                proof {
                    reveal_strlit("PiB");
                }
                "PiB"
            } else if b >= 0x10000000000 {
                proof {
                    reveal_strlit("TiB");
                }
                "TiB"
            } else if b >= 0x40000000 {
                proof {
                    reveal_strlit("GiB");
                }
                "GiB"
            } else if b >= 0x100000 {
                proof {
                    reveal_strlit("MiB");
                }
                "MiB"
            } else {
                proof {
                    reveal_strlit("KiB");
                }
                "KiB"
            };
            out.append(unit);
        } else {
            proof {
                reveal_strlit("B");
            }
            out.append("B");
        }
        proof {
            assert(out@ =~= disk_display(b));
        }
        out
    }

    /// Records `rhs` further bytes, stopping at the largest representable
    /// count instead of overflowing.
    pub fn saturating_add(&mut self, rhs: u64)
        ensures
            final(self).spec_bytes() == if old(self).spec_bytes() + rhs <= u64::MAX {
                (old(self).spec_bytes() + rhs) as u64
            } else {
                u64::MAX
            },
            final(self).spec_bytes() >= old(self).spec_bytes(),
    {
        if self.bytes <= u64::MAX - rhs {
            self.bytes = self.bytes + rhs;
        } else {
            self.bytes = u64::MAX;
        }
    }
}

} // verus!
