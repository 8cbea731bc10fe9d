//! A package version: exactly three dot-separated numeric components.
use vstd::prelude::*;
use crate::text::{decimal, decimal_string};

verus! {

/// A decimal digit character.
pub open spec fn is_digit(c: char) -> bool {
    '0' <= c && c <= '9'
}

/// The number of '.' characters in `s`.
pub open spec fn dot_count(s: Seq<char>) -> nat
    decreases s.len(),
{
    if s.len() == 0 {
        0
    } else {
        dot_count(s.drop_last()) + if s.last() == '.' {
            1nat
        } else {
            0nat
        }
    }
}

/// Every '.'-separated component of `s` is a non-empty run of digits.
pub open spec fn components_numeric(s: Seq<char>) -> bool {
    &&& s.len() > 0
    &&& s[0] != '.'
    &&& s.last() != '.'
    &&& forall|i: int| 0 <= i < s.len() ==> is_digit(#[trigger] s[i]) || s[i] == '.'
    &&& forall|i: int| 0 <= i < s.len() - 1 ==> !(#[trigger] s[i] == '.' && s[i + 1] == '.')
}

/// `s` has exactly three dot-separated numeric components.
pub open spec fn is_version(s: Seq<char>) -> bool {
    dot_count(s) == 2 && components_numeric(s)
}

/// The reason given for a string that is not a version.
pub open spec fn version_error(s: Seq<char>) -> Seq<char> {
    if dot_count(s) != 2 {
        "Invalid version format: expected 3 components, got "@ + decimal(dot_count(s) + 1)
            + "."@
    } else {
        "Invalid version format: expected numeric components."@
    }
}

/// A validated three-component version string, e.g. `1.0.0`.
#[derive(PartialEq, Eq, Debug)]
pub struct Version {
    text: String,
}

impl View for Version {
    type V = Seq<char>;

    closed spec fn view(&self) -> Seq<char> {
        self.text@
    }
}

impl Version {
    /// A version always holds exactly three numeric components.
    #[verifier::type_invariant]
    pub closed spec fn inv(&self) -> bool {
        is_version(self.text@)
    }

    /// Validates `value` and keeps it as written.
    pub fn try_from(value: &str) -> (r: Result<Version, String>)
        ensures
            match r {
                Ok(v) => is_version(value@) && v@ == value@,
                Err(e) => !is_version(value@) && e@ == version_error(value@),
            },
    {
        let n = value.unicode_len();
        let mut dots: usize = 0;
        let mut numeric = true;
        let mut i: usize = 0;
        while i < n
            invariant
                n == value@.len(),
                i <= n,
                dots as nat == dot_count(value@.subrange(0, i as int)),
                dots <= i,
                numeric == (
                    (i > 0 ==> value@[0] != '.')
                    && (forall|j: int| 0 <= j < i ==> is_digit(#[trigger] value@[j]) || value@[j] == '.')
                    && (forall|j: int| 0 <= j < i - 1 ==> !(#[trigger] value@[j] == '.' && value@[j + 1] == '.'))),
            decreases n - i,
        {
            let c = value.get_char(i);
            assert(value@.subrange(0, i + 1).drop_last() =~= value@.subrange(0, i as int));
            if c == '.' {
                dots = dots + 1;
                if i == 0 || value.get_char(i - 1) == '.' {
                    numeric = false;
                }
            } else if !('0' <= c && c <= '9') {
                numeric = false;
            }
            i = i + 1;
        }
        assert(value@.subrange(0, n as int) =~= value@);
        if dots != 2 {
            let mut msg = String::from_str("Invalid version format: expected 3 components, got ");
            let count = decimal_string(dots as u128 + 1);
            msg.append(count.as_str());
            msg.append(".");
            return Err(msg);
        }
        if !numeric || n == 0 || value.get_char(n - 1) == '.' {
            return Err(String::from_str("Invalid version format: expected numeric components."));
        }
        Ok(Version { text: String::from_str(value) })
    }

    /// The version as written.
    pub fn as_str(&self) -> (r: &str)
        ensures
            r@ == self@,
            is_version(r@),
    {
        proof {
            use_type_invariant(self);
        }
        self.text.as_str()
    }
}

impl Clone for Version {
    fn clone(&self) -> (r: Self)
        ensures
            r@ == self@,
    {
        proof {
            use_type_invariant(self);
        }
        Version { text: self.text.clone() }
    }
}

} // verus!
