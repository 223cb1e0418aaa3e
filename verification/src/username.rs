//! Username validity: the rule a `JOIN` argument must pass before the
//! directory will accept it.

use vstd::prelude::*;
use crate::chars::is_alnum;
use crate::chars::is_alnum_char;

verus! {

/// A username is 3 to 30 characters, letters and digits only, and
/// not the reserved broadcast keyword `all`.
pub open spec fn valid_username(s: Seq<char>) -> bool {
    &&& 3 <= s.len() <= 30
    &&& forall|i: int| 0 <= i < s.len() ==> is_alnum_char(s[i])
    &&& s != "all"@
}

/// Executable validity test matching `valid_username`.
pub fn is_valid_username(name: &Vec<char>) -> (r: bool)
    ensures
        r == valid_username(name@),
{
    let n: usize = name.len();
    if n < 3 || n > 30 {
        return false;
    }
    let mut i: usize = 0;
    while i < n
        invariant
            i <= n,
            n == name@.len(),
            forall|k: int| 0 <= k < i ==> is_alnum_char(name@[k]),
        decreases n - i,
    {
        if !is_alnum(name[i]) {
            return false;
        }
        i = i + 1;
    }
    !crate::chars::chars_eq_str(name, "all")
}

} // verus!
