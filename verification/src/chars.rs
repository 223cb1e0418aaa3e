//! Character-level helpers shared by the parsing and validation code.
//!
//! The protocol is line-oriented text; frames are handled as
//! `Vec<char>` so that every split, trim and comparison is verified
//! against `Seq<char>` specifications.  Which characters count as
//! whitespace or as alphanumeric is decided by the standard library's
//! Unicode tables, named here and not restated.

use vstd::prelude::*;

verus! {

/// Whether a character is Unicode whitespace, as the standard
/// library's `char::is_whitespace` decides it: a function of the
/// character alone, whose full table is not restated here.
pub uninterp spec fn char_whitespace(c: char) -> bool;

/// Whether a character is a Unicode letter or digit, as the standard
/// library's `char::is_alphanumeric` decides it: a function of the
/// character alone, whose full table is not restated here.
pub uninterp spec fn char_alphanumeric(c: char) -> bool;

/// The characters the protocol treats as whitespace when trimming
/// frames and splitting argument lists.
pub open spec fn is_space_char(c: char) -> bool {
    char_whitespace(c)
}

/// Letters and digits; the only characters a username may hold.
pub open spec fn is_alnum_char(c: char) -> bool {
    char_alphanumeric(c)
}

/// Tests whether a character is whitespace.
///
/// Relies on `char::is_whitespace`: whether a character has the
/// Unicode `White_Space` property depends on the character alone.
#[verifier::external_body]
pub(crate) fn is_space(c: char) -> (r: bool)
    ensures
        r == char_whitespace(c),
{
    c.is_whitespace()
}

/// Tests whether a character is a letter or a digit.
///
/// Relies on `char::is_alphanumeric`: whether a character is a
/// Unicode letter or digit depends on the character alone.
#[verifier::external_body]
pub(crate) fn is_alnum(c: char) -> (r: bool)
    ensures
        r == char_alphanumeric(c),
{
    c.is_alphanumeric()
}

/// Copies the characters of a string into a vector, so that the rest of
/// the parsing code can work on indexed characters.
pub fn str_to_chars(s: &str) -> (r: Vec<char>)
    ensures
        r@ == s@,
{
    let n: usize = s.unicode_len();
    let mut r: Vec<char> = Vec::new();
    let mut i: usize = 0;
    while i < n
        invariant
            i <= n,
            n == s@.len(),
            r@ == s@.take(i as int),
        decreases n - i,
    {
        r.push(s.get_char(i));
        proof {
            assert(r@ =~= s@.take(i + 1));
        }
        i = i + 1;
    }
    proof {
        assert(s@.take(n as int) =~= s@);
    }
    r
}

/// Builds the string holding exactly the given characters.
///
/// Relies on `String`'s `FromIterator` over `char`: collecting the
/// characters of `v` yields the string whose characters are `v`'s,
/// in order.
#[verifier::external_body]
pub(crate) fn chars_to_string(v: &Vec<char>) -> (r: String)
    ensures
        r@ == v@,
{
    v.iter().collect()
}

/// Compares a character vector with a string, character by character.
pub fn chars_eq_str(v: &Vec<char>, s: &str) -> (r: bool)
    ensures
        r == (v@ == s@),
{
    let n: usize = s.unicode_len();
    if v.len() != n {
        return false;
    }
    let mut i: usize = 0;
    while i < n
        invariant
            i <= n,
            n == s@.len(),
            v@.len() == n,
            forall|k: int| 0 <= k < i ==> v@[k] == s@[k],
        decreases n - i,
    {
        if v[i] != s.get_char(i) {
            return false;
        }
        i = i + 1;
    }
    proof {
        assert(v@ =~= s@);
    }
    true
}

/// Copies the elements of `v` between positions `a` and `b`.
pub fn subvec<T: Copy>(v: &Vec<T>, a: usize, b: usize) -> (r: Vec<T>)
    requires
        a <= b <= v@.len(),
    ensures
        r@ == v@.subrange(a as int, b as int),
{
    let mut r: Vec<T> = Vec::new();
    let mut i: usize = a;
    while i < b
        invariant
            a <= i <= b <= v@.len(),
            r@ == v@.subrange(a as int, i as int),
        decreases b - i,
    {
        r.push(v[i]);
        proof {
            assert(r@ =~= v@.subrange(a as int, i + 1));
        }
        i = i + 1;
    }
    r
}

/// The characters of `s` with leading and trailing whitespace removed.
pub open spec fn trim_chars(s: Seq<char>) -> Seq<char>
    decreases s.len(),
{
    if s.len() == 0 {
        s
    } else if is_space_char(s[0]) {
        trim_chars(s.skip(1))
    } else if is_space_char(s[s.len() - 1]) {
        trim_chars(s.take(s.len() - 1))
    } else {
        s
    }
}

/// A sequence of whitespace alone trims to the empty sequence.
proof fn lemma_trim_all_space(s: Seq<char>)
    requires
        forall|k: int| 0 <= k < s.len() ==> is_space_char(s[k]),
    ensures
        trim_chars(s) == Seq::<char>::empty(),
    decreases s.len(),
{
    if s.len() == 0 {
        assert(s =~= Seq::<char>::empty());
    } else {
        lemma_trim_all_space(s.skip(1));
    }
}

/// Characterizes `trim_chars` by the positions of the first and last
/// non-whitespace characters.
proof fn lemma_trim_bounds(s: Seq<char>, a: int, b: int)
    requires
        0 <= a < b <= s.len(),
        forall|k: int| 0 <= k < a ==> is_space_char(s[k]),
        forall|k: int| b <= k < s.len() ==> is_space_char(s[k]),
        !is_space_char(s[a]),
        !is_space_char(s[b - 1]),
    ensures
        trim_chars(s) == s.subrange(a, b),
    decreases s.len(),
{
    if a > 0 {
        lemma_trim_bounds(s.skip(1), a - 1, b - 1);
        assert(s.skip(1).subrange(a - 1, b - 1) =~= s.subrange(a, b));
    } else if b < s.len() {
        lemma_trim_bounds(s.take(s.len() - 1), a, b);
        assert(s.take(s.len() - 1).subrange(a, b) =~= s.subrange(a, b));
    } else {
        assert(s.subrange(0, s.len() as int) =~= s);
    }
}

/// Removes leading and trailing whitespace characters.
pub fn trim(v: &Vec<char>) -> (r: Vec<char>)
    ensures
        r@ == trim_chars(v@),
{
    let n: usize = v.len();
    let mut a: usize = 0;
    while a < n && is_space(v[a])
        invariant
            a <= n,
            n == v@.len(),
            forall|k: int| 0 <= k < a ==> is_space_char(v@[k]),
        decreases n - a,
    {
        a = a + 1;
    }
    if a == n {
        proof {
            lemma_trim_all_space(v@);
        }
        return Vec::new();
    }
    let mut b: usize = n;
    while b > a && is_space(v[b - 1])
        invariant
            a <= b <= n,
            n == v@.len(),
            forall|k: int| b <= k < n ==> is_space_char(v@[k]),
        decreases b,
    {
        b = b - 1;
    }
    proof {
        lemma_trim_bounds(v@, a as int, b as int);
    }
    subvec(v, a, b)
}

/// Splits a frame at the first space into the command token and the
/// remainder; a frame without a space is all command, with an empty
/// remainder.  Scans from position `i`.
pub open spec fn split_cmd_at(s: Seq<char>, i: int) -> (Seq<char>, Seq<char>)
    decreases s.len() - i,
{
    if i < 0 || i >= s.len() {
        (s, Seq::empty())
    } else if s[i] == ' ' {
        (s.take(i), s.skip(i + 1))
    } else {
        split_cmd_at(s, i + 1)
    }
}

/// Splits a frame at the first space into command and remainder.
pub open spec fn split_cmd(s: Seq<char>) -> (Seq<char>, Seq<char>) {
    split_cmd_at(s, 0)
}

/// Executable split matching `split_cmd`.
pub fn split_first_space(v: &Vec<char>) -> (r: (Vec<char>, Vec<char>))
    ensures
        (r.0@, r.1@) == split_cmd(v@),
{
    let n: usize = v.len();
    let mut i: usize = 0;
    while i < n
        invariant
            i <= n,
            n == v@.len(),
            split_cmd(v@) == split_cmd_at(v@, i as int),
        decreases n - i,
    {
        if v[i] == ' ' {
            let cmd = subvec(v, 0, i);
            let rest = subvec(v, i + 1, n);
            proof {
                assert(v@.subrange(0, i as int) =~= v@.take(i as int));
                assert(v@.subrange(i + 1, n as int) =~= v@.skip(i + 1));
            }
            return (cmd, rest);
        }
        i = i + 1;
    }
    let cmd = subvec(v, 0, n);
    proof {
        assert(v@.subrange(0, n as int) =~= v@);
    }
    (cmd, Vec::new())
}

/// The whitespace-separated tokens of `s`, collected by a scan that
/// carries the token being built (`cur`) and the tokens already
/// finished (`out`).
pub open spec fn tokenize_acc(s: Seq<char>, i: int, cur: Seq<char>, out: Seq<Seq<char>>) -> Seq<
    Seq<char>,
>
    decreases s.len() - i,
{
    if i < 0 || i >= s.len() {
        if cur.len() > 0 {
            out.push(cur)
        } else {
            out
        }
    } else if is_space_char(s[i]) {
        if cur.len() > 0 {
            tokenize_acc(s, i + 1, Seq::empty(), out.push(cur))
        } else {
            tokenize_acc(s, i + 1, Seq::empty(), out)
        }
    } else {
        tokenize_acc(s, i + 1, cur.push(s[i]), out)
    }
}

/// The whitespace-separated tokens of `s`, in order.
pub open spec fn tokenize(s: Seq<char>) -> Seq<Seq<char>> {
    tokenize_acc(s, 0, Seq::empty(), Seq::empty())
}

/// Executable tokenizer matching `tokenize`.
pub fn split_tokens(v: &Vec<char>) -> (r: Vec<Vec<char>>)
    ensures
        r.deep_view() == tokenize(v@),
{
    let n: usize = v.len();
    let mut out: Vec<Vec<char>> = Vec::new();
    let mut cur: Vec<char> = Vec::new();
    proof {
        assert(out.deep_view() =~~= Seq::<Seq<char>>::empty());
    }
    let mut i: usize = 0;
    while i < n
        invariant
            i <= n,
            n == v@.len(),
            tokenize(v@) == tokenize_acc(v@, i as int, cur@, out.deep_view()),
        decreases n - i,
    {
        let ghost prev_out = out.deep_view();
        let ghost prev_cur = cur@;
        if is_space(v[i]) {
            if cur.len() > 0 {
                out.push(cur);
                cur = Vec::new();
                proof {
                    assert(out.deep_view() =~~= prev_out.push(prev_cur));
                    assert(tokenize_acc(v@, i as int, prev_cur, prev_out) == tokenize_acc(
                        v@,
                        i + 1,
                        Seq::<char>::empty(),
                        prev_out.push(prev_cur),
                    ));
                }
            } else {
                proof {
                    assert(prev_cur =~= Seq::<char>::empty());
                    assert(tokenize_acc(v@, i as int, prev_cur, prev_out) == tokenize_acc(
                        v@,
                        i + 1,
                        Seq::<char>::empty(),
                        prev_out,
                    ));
                }
            }
        } else {
            cur.push(v[i]);
            proof {
                assert(tokenize_acc(v@, i as int, prev_cur, prev_out) == tokenize_acc(
                    v@,
                    i + 1,
                    prev_cur.push(v@[i as int]),
                    prev_out,
                ));
            }
        }
        i = i + 1;
    }
    if cur.len() > 0 {
        let ghost prev_out = out.deep_view();
        let ghost prev_cur = cur@;
        out.push(cur);
        proof {
            assert(out.deep_view() =~~= prev_out.push(prev_cur));
        }
    }
    out
}

} // verus!
