//! Validated package names, following the index's naming rules.

use vstd::prelude::*;

use crate::error::Error;
use crate::parse::is_digit_code;
use crate::parse::str_codes;

verus! {

/// A character a package name may hold: ASCII alphanumeric, hyphen or
/// underscore.
pub open spec fn is_name_code(c: u32) -> bool {
    is_digit_code(c) || (65 <= c <= 90) || (97 <= c <= 122) || c == 45 || c == 95
}

/// A character a package name may open with: an ASCII letter or an
/// underscore, never a digit or a hyphen.
pub open spec fn is_name_start_code(c: u32) -> bool {
    (65 <= c <= 90) || (97 <= c <= 122) || c == 95
}

/// The index's naming rules: non-empty, at most 64 characters, allowed
/// characters only, and an allowed opening character.
pub open spec fn valid_name(s: Seq<char>) -> bool {
    let t = str_codes(s);
    &&& 1 <= t.len() <= 64
    &&& is_name_start_code(t[0])
    &&& forall|i: int| 0 <= i < t.len() ==> is_name_code(#[trigger] t[i])
}

/// A package name that passed validation.
#[derive(Debug, Clone, PartialEq, Eq)]
pub struct PackageName {
    text: String,
}

impl PackageName {
    /// The name's characters.
    pub closed spec fn spec_str(self) -> Seq<char> {
        self.text@
    }

    /// Validates `s` as a package name. Only a valid name yields a
    /// value; anything else is refused as `InvalidName`.
    pub fn new(s: String) -> (r: Result<PackageName, Error>)
        ensures
            match r {
                Ok(p) => valid_name(s@) && p.spec_str() == s@,
                Err(e) => e == Error::InvalidName && !valid_name(s@),
            },
    {
        let ghost t = str_codes(s@);
        let n = s.as_str().unicode_len();
        if n == 0 || n > 64 {
            return Err(Error::InvalidName);
        }
        let first = s.as_str().get_char(0) as u32;
        if !((65 <= first && first <= 90) || (97 <= first && first <= 122) || first == 95) {
            proof {
                assert(t[0] == first);
            }
            return Err(Error::InvalidName);
        }
        let mut i: usize = 0;
        while i < n
            invariant
                n == s@.len(),
                t == str_codes(s@),
                i <= n,
                forall|k: int| 0 <= k < i ==> is_name_code(#[trigger] t[k]),
            decreases n - i,
        {
            let c = s.as_str().get_char(i) as u32;
            proof {
                assert(t[i as int] == c);
            }
            if !((48 <= c && c <= 57) || (65 <= c && c <= 90) || (97 <= c && c <= 122) || c == 45
                || c == 95) {
                return Err(Error::InvalidName);
            }
            i = i + 1;
        }
        Ok(PackageName { text: s })
    }

    /// Reads the name back.
    pub fn as_str(&self) -> (r: &str)
        ensures
            r@ == self.spec_str(),
    {
        self.text.as_str()
    }
}

} // verus!
