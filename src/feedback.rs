//! Per-letter feedback of a guess against the answer.

use vstd::math::min;
use vstd::prelude::*;

verus! {

broadcast use vstd::seq_lib::group_to_multiset_ensures, vstd::multiset::group_multiset_axioms;

/// How one letter of a guess relates to the answer.
#[derive(Clone, Copy, Debug, PartialEq, Eq, Structural)]
pub enum Class {
    /// The answer holds this letter at this position.
    Correct,
    /// The answer holds an occurrence of this letter that no other position
    /// has claimed.
    Present,
    /// Neither of the above.
    Absent,
}

/// Positions `k < n` where the answer holds `c` and the guess does not match.
pub open spec fn answer_left(g: Seq<char>, a: Seq<char>, c: char, n: int) -> nat
    decreases n,
{
    if n <= 0 {
        0
    } else {
        answer_left(g, a, c, n - 1) + if a[n - 1] == c && g[n - 1] != a[n - 1] {
            1nat
        } else {
            0nat
        }
    }
}

/// Positions `j < n` where the guess holds `c` and does not match the answer.
pub open spec fn guess_left(g: Seq<char>, a: Seq<char>, c: char, n: int) -> nat
    decreases n,
{
    if n <= 0 {
        0
    } else {
        guess_left(g, a, c, n - 1) + if g[n - 1] == c && g[n - 1] != a[n - 1] {
            1nat
        } else {
            0nat
        }
    }
}

/// The class of position `i`: an exact match is `Correct`; otherwise the
/// letter is `Present` while earlier unmatched occurrences of it in the guess
/// have not used up the answer's unmatched occurrences of it.
pub open spec fn class_at(g: Seq<char>, a: Seq<char>, i: int) -> Class {
    if g[i] == a[i] {
        Class::Correct
    } else if guess_left(g, a, g[i], i) < answer_left(g, a, g[i], a.len() as int) {
        Class::Present
    } else {
        Class::Absent
    }
}

/// The feedback of guess `g` against answer `a`, one class per position.
pub open spec fn feedback(g: Seq<char>, a: Seq<char>) -> Seq<Class> {
    Seq::new(g.len(), |i: int| class_at(g, a, i))
}

/// The answer's letters at the positions that the guess does not match, in
/// order.
pub open spec fn unmatched(g: Seq<char>, a: Seq<char>, n: int) -> Seq<char>
    decreases n,
{
    if n <= 0 {
        Seq::empty()
    } else if g[n - 1] != a[n - 1] {
        unmatched(g, a, n - 1).push(a[n - 1])
    } else {
        unmatched(g, a, n - 1)
    }
}

proof fn lemma_unmatched_count(g: Seq<char>, a: Seq<char>, n: int)
    requires
        0 <= n <= g.len(),
        g.len() == a.len(),
    ensures
        forall|c: char| #[trigger]
            unmatched(g, a, n).to_multiset().count(c) == answer_left(g, a, c, n),
    decreases n,
{
    if n > 0 {
        lemma_unmatched_count(g, a, n - 1);
        let prev = unmatched(g, a, n - 1);
        assert forall|c: char| #[trigger]
            unmatched(g, a, n).to_multiset().count(c) == answer_left(g, a, c, n) by {
            if g[n - 1] != a[n - 1] {
                assert(unmatched(g, a, n) == prev.push(a[n - 1]));
                assert(prev.push(a[n - 1]).to_multiset() =~= prev.to_multiset().insert(a[n - 1]));
            } else {
                assert(unmatched(g, a, n) == prev);
            }
        }
    } else {
        vstd::multiset::lemma_multiset_empty_len(unmatched(g, a, n).to_multiset());
    }
}

/// Positions `k < n` where `s` holds `c`.
pub open spec fn occurrences(s: Seq<char>, c: char, n: int) -> nat
    decreases n,
{
    if n <= 0 {
        0
    } else {
        occurrences(s, c, n - 1) + if s[n - 1] == c {
            1nat
        } else {
            0nat
        }
    }
}

/// Positions `i < n` where the guess `g` holds `c` and the feedback `f` marks
/// it `Correct` or `Present`.
pub open spec fn claimed(g: Seq<char>, f: Seq<Class>, c: char, n: int) -> nat
    decreases n,
{
    if n <= 0 {
        0
    } else {
        claimed(g, f, c, n - 1) + if g[n - 1] == c && f[n - 1] != Class::Absent {
            1nat
        } else {
            0nat
        }
    }
}

/// Positions `k < n` where guess and answer both hold `c`.
spec fn matched(g: Seq<char>, a: Seq<char>, c: char, n: int) -> nat
    decreases n,
{
    if n <= 0 {
        0
    } else {
        matched(g, a, c, n - 1) + if a[n - 1] == c && g[n - 1] == a[n - 1] {
            1nat
        } else {
            0nat
        }
    }
}

proof fn lemma_claimed_split(g: Seq<char>, a: Seq<char>, c: char, n: int)
    requires
        0 <= n <= g.len(),
        g.len() == a.len(),
    ensures
        claimed(g, feedback(g, a), c, n) == matched(g, a, c, n) + min(
            guess_left(g, a, c, n) as int,
            answer_left(g, a, c, a.len() as int) as int,
        ),
        occurrences(a, c, n) == matched(g, a, c, n) + answer_left(g, a, c, n),
    decreases n,
{
    if n > 0 {
        lemma_claimed_split(g, a, c, n - 1);
    }
}

/// Feedback marks a position `Correct` exactly where guess and answer agree,
/// and for every letter, the positions of the guess holding it that are
/// marked `Correct` or `Present` are no more than its occurrences in the
/// answer.
pub proof fn lemma_feedback_law(g: Seq<char>, a: Seq<char>)
    requires
        g.len() == a.len(),
    ensures
        feedback(g, a).len() == g.len(),
        forall|i: int|
            0 <= i < g.len() ==> (#[trigger] feedback(g, a)[i] == Class::Correct) == (g[i]
                == a[i]),
        forall|c: char| #[trigger]
            claimed(g, feedback(g, a), c, g.len() as int) <= occurrences(a, c, a.len() as int),
{
    assert forall|c: char| #[trigger]
        claimed(g, feedback(g, a), c, g.len() as int) <= occurrences(a, c, a.len() as int) by {
        lemma_claimed_split(g, a, c, g.len() as int);
    }
}

/// Index of the first occurrence of `c` in `v`.
fn position(v: &Vec<char>, c: char) -> (r: Option<usize>)
    ensures
        match r {
            Some(p) => p < v@.len() && v@[p as int] == c,
            None => !v@.contains(c),
        },
{
    let mut i: usize = 0;
    while i < v.len()
        invariant
            i <= v@.len(),
            forall|k: int| 0 <= k < i ==> v@[k] != c,
        decreases v@.len() - i,
    {
        if v[i] == c {
            return Some(i);
        }
        i = i + 1;
    }
    None
}

/// Classifies each letter of `guess` against `answer`. Exact matches come
/// first and take their letter out of the answer's pool; then, left to
/// right, each remaining letter is `Present` if the pool still holds it (and
/// takes one out), `Absent` if not.
pub fn evaluate(guess: &Vec<char>, answer: &Vec<char>) -> (r: Vec<Class>)
    requires
        guess@.len() == answer@.len(),
    ensures
        r@ == feedback(guess@, answer@),
{
    let g = Ghost(guess@);
    let a = Ghost(answer@);
    let n = guess.len();
    let mut marks: Vec<Class> = Vec::new();
    let mut pool: Vec<char> = Vec::new();
    let mut i: usize = 0;
    while i < n
        invariant
            n == g@.len(),
            g@ == guess@,
            a@ == answer@,
            g@.len() == a@.len(),
            i <= n,
            marks@.len() == i,
            forall|k: int|
                0 <= k < i ==> #[trigger] marks@[k] == if g@[k] == a@[k] {
                    Class::Correct
                } else {
                    Class::Absent
                },
            pool@ == unmatched(g@, a@, i as int),
        decreases n - i,
    {
        if guess[i] == answer[i] {
            marks.push(Class::Correct);
        } else {
            marks.push(Class::Absent);
            pool.push(answer[i]);
        }
        i = i + 1;
    }
    proof {
        lemma_unmatched_count(g@, a@, n as int);
    }
    let mut i: usize = 0;
    while i < n
        invariant
            n == g@.len(),
            g@ == guess@,
            a@ == answer@,
            g@.len() == a@.len(),
            i <= n,
            marks@.len() == n,
            forall|k: int| 0 <= k < i ==> #[trigger] marks@[k] == class_at(g@, a@, k),
            forall|k: int|
                i <= k < n ==> #[trigger] marks@[k] == if g@[k] == a@[k] {
                    Class::Correct
                } else {
                    Class::Absent
                },
            forall|c: char|
                #[trigger] pool@.to_multiset().count(c) + min(
                    guess_left(g@, a@, c, i as int) as int,
                    answer_left(g@, a@, c, n as int) as int,
                ) == answer_left(g@, a@, c, n as int),
        decreases n - i,
    {
        if guess[i] != answer[i] {
            let c = guess[i];
            match position(&pool, c) {
                Some(p) => {
                    proof {
                        assert(pool@.remove(p as int).to_multiset() =~= pool@.to_multiset().remove(c));
                    }
                    pool.remove(p);
                    marks.set(i, Class::Present);
                },
                None => {
                    assert(pool@.to_multiset().count(c) == 0);
                },
            }
        }
        i = i + 1;
    }
    assert(marks@ =~= feedback(g@, a@));
    marks
}

} // verus!
