//! Sequence-level helpers for the grammar: whitespace trimming,
//! locating a unique separator, and reading decimal digit tokens.

use vstd::prelude::*;
use crate::chars::{is_ws_char, is_digit_char, digit_val, char_is_ws};

verus! {

/// `s` without its leading whitespace.
pub open spec fn trim_front(s: Seq<char>) -> Seq<char>
    decreases s.len(),
{
    if s.len() > 0 && is_ws_char(s[0]) {
        trim_front(s.drop_first())
    } else {
        s
    }
}

/// `s` without its trailing whitespace.
pub open spec fn trim_back(s: Seq<char>) -> Seq<char>
    decreases s.len(),
{
    if s.len() > 0 && is_ws_char(s[s.len() - 1]) {
        trim_back(s.drop_last())
    } else {
        s
    }
}

/// `s` without leading and trailing whitespace, as `str::trim` leaves it.
pub open spec fn trimmed(s: Seq<char>) -> Seq<char> {
    trim_back(trim_front(s))
}

/// Trimming the front keeps exactly the tail that starts at the first
/// non-whitespace character.
pub proof fn lemma_trim_front_at(s: Seq<char>, i: int)
    requires
        0 <= i <= s.len(),
        forall|k: int| 0 <= k < i ==> is_ws_char(s[k]),
        i == s.len() || !is_ws_char(s[i]),
    ensures
        trim_front(s) == s.subrange(i, s.len() as int),
    decreases i,
{
    if i == 0 {
        if s.len() == 0 || !is_ws_char(s[0]) {
            assert(trim_front(s) == s);
            assert(s.subrange(0, s.len() as int) =~= s);
        }
    } else {
        assert(is_ws_char(s[0]));
        let d = s.drop_first();
        assert(d =~= s.subrange(1, s.len() as int));
        lemma_trim_front_at(d, i - 1);
        assert(d.subrange(i - 1, d.len() as int) =~= s.subrange(i, s.len() as int));
    }
}

/// Trimming the back keeps exactly the head that ends at the last
/// non-whitespace character.
pub proof fn lemma_trim_back_at(s: Seq<char>, j: int)
    requires
        0 <= j <= s.len(),
        forall|k: int| j <= k < s.len() ==> is_ws_char(s[k]),
        j == 0 || !is_ws_char(s[j - 1]),
    ensures
        trim_back(s) == s.subrange(0, j),
    decreases s.len() - j,
{
    if j == s.len() {
        if s.len() == 0 || !is_ws_char(s[s.len() - 1]) {
            assert(trim_back(s) == s);
            assert(s.subrange(0, s.len() as int) =~= s);
        } else {
            let d = s.drop_last();
            assert(d =~= s.subrange(0, s.len() - 1));
            lemma_trim_back_at(d, j - 1);
            assert(d.subrange(0, j - 1) =~= s.subrange(0, j - 1));
            assert(is_ws_char(s[j - 1]));
            assert(false);
        }
    } else {
        assert(is_ws_char(s[s.len() - 1]));
        let d = s.drop_last();
        assert(d =~= s.subrange(0, s.len() - 1));
        lemma_trim_back_at(d, j);
        assert(d.subrange(0, j) =~= s.subrange(0, j));
    }
}

/// A window of `s` whose outside is all whitespace and whose edges are
/// not is exactly what trimming leaves.
pub proof fn lemma_trimmed_at(s: Seq<char>, i: int, j: int)
    requires
        0 <= i <= j <= s.len(),
        forall|k: int| 0 <= k < i ==> is_ws_char(s[k]),
        forall|k: int| j <= k < s.len() ==> is_ws_char(s[k]),
        (i == j && i == s.len()) || (i < j && !is_ws_char(s[i]) && !is_ws_char(s[j - 1])),
    ensures
        trimmed(s) == s.subrange(i, j),
{
    if i == j {
        lemma_trim_front_at(s, i);
        let t = s.subrange(i, s.len() as int);
        lemma_trim_back_at(t, 0);
        assert(t.subrange(0, 0) =~= s.subrange(i, j));
    } else {
        lemma_trim_front_at(s, i);
        let t = s.subrange(i, s.len() as int);
        lemma_trim_back_at(t, j - i);
        assert(t.subrange(0, j - i) =~= s.subrange(i, j));
    }
}

/// `c` occurs in `s` at position `k` and nowhere else.
pub open spec fn only_at(s: Seq<char>, c: char, k: int) -> bool {
    &&& 0 <= k < s.len()
    &&& s[k] == c
    &&& forall|j: int| 0 <= j < s.len() && j != k ==> s[j] != c
}

/// `c` occurs exactly once in `s`.
pub open spec fn occurs_once(s: Seq<char>, c: char) -> bool {
    exists|k: int| only_at(s, c, k)
}

/// The position of the unique occurrence.
pub open spec fn position_of(s: Seq<char>, c: char) -> int {
    choose|k: int| only_at(s, c, k)
}

/// A witnessed unique occurrence fixes `position_of`.
pub proof fn lemma_position_of(s: Seq<char>, c: char, k: int)
    requires
        only_at(s, c, k),
    ensures
        occurs_once(s, c),
        position_of(s, c) == k,
{
    let k2 = position_of(s, c);
    assert(only_at(s, c, k2));
    if k2 != k {
        assert(s[k] != c);
    }
}

/// Narrows the window `[lo, hi)` of `s` to the window that trimming
/// its text leaves.
pub fn trim_window(s: &str, lo: usize, hi: usize) -> (r: (usize, usize))
    requires
        lo <= hi <= s@.len(),
    ensures
        lo <= r.0 <= r.1 <= hi,
        trimmed(s@.subrange(lo as int, hi as int)) == s@.subrange(r.0 as int, r.1 as int),
{
    let ghost w = s@.subrange(lo as int, hi as int);
    let mut a: usize = lo;
    while a < hi && char_is_ws(s.get_char(a))
        invariant
            w == s@.subrange(lo as int, hi as int),
            lo <= a <= hi <= s@.len(),
            forall|k: int| lo <= k < a ==> is_ws_char(s@[k]),
        decreases hi - a,
    {
        a = a + 1;
    }
    let mut b: usize = hi;
    while b > a && char_is_ws(s.get_char(b - 1))
        invariant
            w == s@.subrange(lo as int, hi as int),
            lo <= a <= b <= hi <= s@.len(),
            forall|k: int| b <= k < hi ==> is_ws_char(s@[k]),
        decreases b,
    {
        b = b - 1;
    }
    proof {
        if a == b && a < hi {
            assert(is_ws_char(s@[a as int]));
            assert(false);
        }
        assert forall|k: int| 0 <= k < a - lo implies is_ws_char(w[k]) by {
            assert(w[k] == s@[lo + k]);
        }
        assert forall|k: int| b - lo <= k < w.len() implies is_ws_char(w[k]) by {
            assert(w[k] == s@[lo + k]);
        }
        if a < b {
            assert(w[a - lo] == s@[a as int]);
            assert(w[b - lo - 1] == s@[b - 1]);
        }
        lemma_trimmed_at(w, a - lo, b - lo);
        assert(w.subrange(a - lo, b - lo) =~= s@.subrange(a as int, b as int));
    }
    (a, b)
}

/// Looks for a unique occurrence of `target` in the window `[lo, hi)`
/// of `s`: its position if it occurs exactly once, nothing otherwise.
pub fn find_unique(s: &str, lo: usize, hi: usize, target: char) -> (r: Option<usize>)
    requires
        lo <= hi <= s@.len(),
    ensures
        match r {
            Some(p) => {
                &&& lo <= p < hi
                &&& occurs_once(s@.subrange(lo as int, hi as int), target)
                &&& position_of(s@.subrange(lo as int, hi as int), target) == p - lo
            },
            None => !occurs_once(s@.subrange(lo as int, hi as int), target),
        },
{
    let ghost w = s@.subrange(lo as int, hi as int);
    let mut i: usize = lo;
    let mut cnt: usize = 0;
    let mut pos: usize = 0;
    while i < hi
        invariant
            w == s@.subrange(lo as int, hi as int),
            lo <= i <= hi <= s@.len(),
            cnt <= i - lo,
            cnt == 0 ==> forall|k: int| lo <= k < i ==> s@[k] != target,
            cnt == 1 ==> lo <= pos < i && s@[pos as int] == target && forall|k: int|
                lo <= k < i && k != pos ==> s@[k] != target,
            cnt >= 2 ==> exists|k1: int, k2: int|
                lo <= k1 < k2 < i && s@[k1] == target && s@[k2] == target,
        decreases hi - i,
    {
        if s.get_char(i) == target {
            if cnt == 0 {
                pos = i;
            }
            proof {
                if cnt == 1 {
                    assert(lo <= pos < i + 1 && s@[pos as int] == target && s@[i as int]
                        == target);
                }
            }
            cnt = cnt + 1;
        }
        i = i + 1;
    }
    if cnt == 1 {
        proof {
            assert(only_at(w, target, pos - lo)) by {
                assert(w[pos - lo] == s@[pos as int]);
                assert forall|j: int| 0 <= j < w.len() && j != pos - lo implies w[j] != target by {
                    assert(w[j] == s@[lo + j]);
                }
            }
            lemma_position_of(w, target, pos - lo);
        }
        Some(pos)
    } else if cnt == 0 {
        proof {
            assert forall|k: int| !only_at(w, target, k) by {
                if 0 <= k < w.len() {
                    assert(w[k] == s@[lo + k]);
                }
            }
        }
        None
    } else {
        proof {
            let (k1, k2) = choose|k1: int, k2: int|
                lo <= k1 < k2 < hi && s@[k1] == target && s@[k2] == target;
            assert forall|k: int| !only_at(w, target, k) by {
                if only_at(w, target, k) {
                    assert(w[k1 - lo] == s@[k1]);
                    assert(w[k2 - lo] == s@[k2]);
                    if k1 - lo != k {
                        assert(w[k1 - lo] != target);
                    } else {
                        assert(w[k2 - lo] != target);
                    }
                }
            }
        }
        None
    }
}

/// Every character of `s` is an ASCII decimal digit.
pub open spec fn all_digits(s: Seq<char>) -> bool {
    forall|i: int| 0 <= i < s.len() ==> is_digit_char(s[i])
}

/// The numeric value of a most-significant-first digit token.
pub open spec fn token_val(s: Seq<char>) -> int
    decreases s.len(),
{
    if s.len() == 0 {
        0
    } else {
        token_val(s.drop_last()) * 10 + digit_val(s.last())
    }
}

/// The value of a one-digit token.
pub proof fn lemma_token_val_one(s: Seq<char>)
    requires
        s.len() == 1,
    ensures
        token_val(s) == digit_val(s[0]),
{
    reveal_with_fuel(token_val, 2);
    assert(s.drop_last().len() == 0);
}

/// The value of a two-digit token.
pub proof fn lemma_token_val_two(s: Seq<char>)
    requires
        s.len() == 2,
    ensures
        token_val(s) == digit_val(s[0]) * 10 + digit_val(s[1]),
{
    let d = s.drop_last();
    lemma_token_val_one(d);
}

} // verus!
