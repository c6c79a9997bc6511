//! Letters and words.

use vstd::prelude::*;

verus! {

/// The length of every word of the game.
pub const WORD_LEN: usize = 5;

/// `c` is an ASCII letter, either case.
pub open spec fn is_ascii_letter(c: char) -> bool {
    ('a' <= c && c <= 'z') || ('A' <= c && c <= 'Z')
}

/// `c` is a lowercase ASCII letter.
pub open spec fn is_lower_letter(c: char) -> bool {
    'a' <= c && c <= 'z'
}

/// `c` with an uppercase ASCII letter turned into its lowercase form.
pub open spec fn ascii_lower(c: char) -> char {
    if 'A' <= c && c <= 'Z' {
        ((c as u32) + 32) as char
    } else {
        c
    }
}

/// A word of the game: five lowercase ASCII letters.
pub open spec fn is_word(s: Seq<char>) -> bool {
    s.len() == WORD_LEN && forall|i: int| 0 <= i < s.len() ==> is_lower_letter(#[trigger] s[i])
}

/// Lowering an ASCII letter gives a lowercase ASCII letter.
pub proof fn lemma_lower_letter(c: char)
    requires
        is_ascii_letter(c),
    ensures
        is_lower_letter(ascii_lower(c)),
{
    if 'A' <= c && c <= 'Z' {
        assert(((c as u32) + 32) as char as u32 == (c as u32) + 32);
    }
}

/// Whether `c` is an ASCII letter.
pub fn is_letter(c: char) -> (r: bool)
    ensures
        r == is_ascii_letter(c),
{
    ('a' <= c && c <= 'z') || ('A' <= c && c <= 'Z')
}

/// Relies on `char::to_ascii_lowercase`: 'A' to 'Z' become 'a' to 'z', every
/// other character stays as it is.
#[verifier::external_body]
fn to_lower(c: char) -> (r: char)
    ensures
        r == ascii_lower(c),
{
    c.to_ascii_lowercase()
}

/// The lowercase form of an ASCII letter.
pub fn lower_letter(c: char) -> (r: char)
    requires
        is_ascii_letter(c),
    ensures
        r == ascii_lower(c),
        is_lower_letter(r),
{
    proof {
        lemma_lower_letter(c);
    }
    to_lower(c)
}

/// Whether `a` and `b` hold the same letters.
pub fn same_letters(a: &Vec<char>, b: &Vec<char>) -> (r: bool)
    ensures
        r == (a@ == b@),
{
    if a.len() != b.len() {
        return false;
    }
    let mut i: usize = 0;
    while i < a.len()
        invariant
            a@.len() == b@.len(),
            i <= a@.len(),
            forall|k: int| 0 <= k < i ==> a@[k] == b@[k],
        decreases a@.len() - i,
    {
        if a[i] != b[i] {
            return false;
        }
        i = i + 1;
    }
    assert(a@ =~= b@);
    true
}

/// Whether `w` is a word of the game.
pub fn check_word(w: &Vec<char>) -> (r: bool)
    ensures
        r == is_word(w@),
{
    if w.len() != WORD_LEN {
        return false;
    }
    let mut i: usize = 0;
    while i < w.len()
        invariant
            i <= w@.len(),
            forall|k: int| 0 <= k < i ==> is_lower_letter(#[trigger] w@[k]),
        decreases w@.len() - i,
    {
        if !('a' <= w[i] && w[i] <= 'z') {
            return false;
        }
        i = i + 1;
    }
    true
}

/// A copy of `w`.
pub fn copy_word(w: &Vec<char>) -> (r: Vec<char>)
    ensures
        r@ == w@,
{
    let r = w.clone();
    assert(r@ =~= w@);
    r
}

} // verus!
