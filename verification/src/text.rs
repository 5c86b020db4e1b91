//! Case-insensitive text handling.
//!
//! Texts (hints, secret words, rewards, guesses) are sequences of characters.
//! Comparison between a guess or a challenge letter and the stored word is
//! case-insensitive under ASCII upper-casing: the twenty-six lower-case ASCII
//! letters fold to their upper-case forms, every other character is left as
//! it is.

use vstd::prelude::*;

verus! {

/// ASCII upper-casing of a single character: `'a'..='z'` map to
/// `'A'..='Z'`, everything else is unchanged.
pub open spec fn spec_upper_char(c: char) -> char {
    if 'a' <= c && c <= 'z' {
        ((c as u32) - 32) as char
    } else {
        c
    }
}

/// Pointwise ASCII upper-casing of a character sequence.
pub open spec fn upper_seq(s: Seq<char>) -> Seq<char> {
    s.map_values(|c: char| spec_upper_char(c))
}

/// Two texts match case-insensitively when their upper-cased forms agree.
pub open spec fn eq_ignore_ascii_case(a: Seq<char>, b: Seq<char>) -> bool {
    upper_seq(a) == upper_seq(b)
}

/// ASCII upper-casing, executable form.
pub fn upper_char(c: char) -> (r: char)
    ensures
        r == spec_upper_char(c),
{
    let n: u32 = c as u32;
    if 97 <= n && n <= 122 {
        ((n - 32) as u8) as char
    } else {
        c
    }
}

/// Copies a text; the result holds exactly the characters of the input.
pub fn copy_chars(v: &Vec<char>) -> (r: Vec<char>)
    ensures
        r@ == v@,
{
    let mut out: Vec<char> = Vec::new();
    let mut i: usize = 0;
    while i < v.len()
        invariant
            i <= v.len(),
            out@ == v@.subrange(0, i as int),
        decreases v.len() - i,
    {
        out.push(v[i]);
        i = i + 1;
        proof {
            assert(out@ =~= v@.subrange(0, i as int));
        }
    }
    proof {
        assert(out@ =~= v@);
    }
    out
}

/// Decides a case-insensitive match between two texts.
pub fn matches_ignore_ascii_case(a: &Vec<char>, b: &Vec<char>) -> (r: bool)
    ensures
        r == eq_ignore_ascii_case(a@, b@),
{
    if a.len() != b.len() {
        proof {
            assert(upper_seq(a@).len() == a@.len());
            assert(upper_seq(b@).len() == b@.len());
        }
        return false;
    }
    let mut i: usize = 0;
    while i < a.len()
        invariant
            a@.len() == b@.len(),
            i <= a.len(),
            forall|j: int| 0 <= j < i ==> spec_upper_char(a@[j]) == spec_upper_char(b@[j]),
        decreases a.len() - i,
    {
        if upper_char(a[i]) != upper_char(b[i]) {
            proof {
                assert(upper_seq(a@)[i as int] != upper_seq(b@)[i as int]);
            }
            return false;
        }
        i = i + 1;
    }
    proof {
        assert(upper_seq(a@) =~= upper_seq(b@));
    }
    true
}

} // verus!
