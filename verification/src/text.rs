//! Character-level helpers over `&str`, with their specifications.

use vstd::prelude::*;

verus! {

/// Index of the first character satisfying `pred`, if any.
pub open spec fn first_match(s: Seq<char>, pred: spec_fn(char) -> bool) -> Option<int>
    decreases s.len(),
{
    if s.len() == 0 {
        None
    } else if pred(s[0]) {
        Some(0)
    } else {
        match first_match(s.drop_first(), pred) {
            Some(i) => Some(i + 1),
            None => None,
        }
    }
}

/// The predicate recognizing a newline character.
pub open spec fn newline_pred() -> spec_fn(char) -> bool {
    |c: char| c == '\n'
}

/// `first_match` finds the least index satisfying `pred`, or reports that
/// none does.
pub proof fn lemma_first_match(s: Seq<char>, pred: spec_fn(char) -> bool)
    ensures
        match first_match(s, pred) {
            Some(i) => 0 <= i < s.len() && pred(s[i]) && (forall|j: int|
                0 <= j < i ==> !pred(s[j])),
            None => forall|j: int| 0 <= j < s.len() ==> !pred(s[j]),
        },
    decreases s.len(),
{
    if s.len() > 0 && !pred(s[0]) {
        lemma_first_match(s.drop_first(), pred);
        match first_match(s.drop_first(), pred) {
            Some(i) => {
                assert(s.drop_first()[i] == s[i + 1]);
                assert forall|j: int| 0 <= j < i + 1 implies !pred(s[j]) by {
                    if j > 0 {
                        assert(s.drop_first()[j - 1] == s[j]);
                        assert(!pred(s.drop_first()[j - 1]));
                    }
                }
            },
            None => {
                assert forall|j: int| 0 <= j < s.len() implies !pred(s[j]) by {
                    if j > 0 {
                        assert(s.drop_first()[j - 1] == s[j]);
                        assert(!pred(s.drop_first()[j - 1]));
                    }
                }
            },
        }
    }
}

/// The first index satisfying `pred` is unique: an index that satisfies
/// `pred`, while all indices before it do not, is the one `first_match`
/// returns.
pub proof fn lemma_first_match_unique(s: Seq<char>, pred: spec_fn(char) -> bool, i: int)
    requires
        0 <= i < s.len(),
        pred(s[i]),
        forall|j: int| 0 <= j < i ==> !pred(s[j]),
    ensures
        first_match(s, pred) == Some(i),
{
    lemma_first_match(s, pred);
    match first_match(s, pred) {
        Some(k) => {
            if k < i {
                assert(!pred(s[k]));
            }
            if i < k {
                assert(!pred(s[i]));
            }
        },
        None => {
            assert(!pred(s[i]));
        },
    }
}

/// `sub` occurs in `s` starting at index `i`.
pub open spec fn contains_at(s: Seq<char>, i: int, sub: Seq<char>) -> bool {
    0 <= i && i + sub.len() <= s.len() && s.subrange(i, i + sub.len() as int) == sub
}

/// `sub` occurs somewhere in `s`.
pub open spec fn contains_seq(s: Seq<char>, sub: Seq<char>) -> bool {
    exists|i: int| contains_at(s, i, sub)
}

/// Whether `a` and `b` hold the same characters.
pub fn str_eq(a: &str, b: &str) -> (r: bool)
    ensures
        r == (a@ == b@),
{
    let la = a.unicode_len();
    let lb = b.unicode_len();
    if la != lb {
        proof {
            assert(a@ != b@);
        }
        return false;
    }
    let mut i: usize = 0;
    while i < la
        invariant
            la == a@.len(),
            la == b@.len(),
            i <= la,
            forall|j: int| 0 <= j < i ==> a@[j] == b@[j],
        decreases la - i,
    {
        if a.get_char(i) != b.get_char(i) {
            return false;
        }
        i += 1;
    }
    proof {
        assert(a@ =~= b@);
    }
    true
}

/// Whether `sub` occurs in `s` as a contiguous run of characters.
pub fn contains_substr(s: &str, sub: &str) -> (r: bool)
    ensures
        r == contains_seq(s@, sub@),
{
    let n = s.unicode_len();
    let m = sub.unicode_len();
    if m > n {
        return false;
    }
    let mut i: usize = 0;
    while i <= n - m
        invariant
            n == s@.len(),
            m == sub@.len(),
            m <= n,
            i <= n - m + 1,
            forall|p: int| 0 <= p < i ==> !contains_at(s@, p, sub@),
        decreases n - m - i + 1,
    {
        let mut k: usize = 0;
        let mut mismatch = false;
        while k < m
            invariant
                n == s@.len(),
                m == sub@.len(),
                i + m <= n,
                k <= m,
                !mismatch ==> forall|j: int| 0 <= j < k ==> s@[i + j] == sub@[j],
                mismatch ==> !contains_at(s@, i as int, sub@),
                mismatch ==> m >= 1,
            decreases m - k,
        {
            if s.get_char(i + k) != sub.get_char(k) {
                proof {
                    if contains_at(s@, i as int, sub@) {
                        assert(s@.subrange(i as int, i + m as int)[k as int] == sub@[k as int]);
                    }
                }
                mismatch = true;
                k = m;
            } else {
                k += 1;
            }
        }
        if !mismatch {
            proof {
                assert(s@.subrange(i as int, i + m as int) =~= sub@);
                assert(contains_at(s@, i as int, sub@));
            }
            return true;
        }
        i += 1;
    }
    proof {
        assert forall|p: int| !contains_at(s@, p, sub@) by {
            if 0 <= p && p + sub@.len() <= s@.len() {
                assert(p < i);
            }
        }
    }
    false
}

/// Length of the first line of `s`: the characters before the first newline,
/// or all of `s` when it has none.
pub open spec fn header_len(s: Seq<char>) -> int {
    match first_match(s, newline_pred()) {
        Some(i) => i,
        None => s.len() as int,
    }
}

/// The first line of `s`, the header of a commit message.
pub open spec fn header_of(s: Seq<char>) -> Seq<char> {
    s.take(header_len(s))
}

/// Index of the first newline in `s`, if any.
pub fn find_newline(s: &str) -> (r: Option<usize>)
    ensures
        match r {
            Some(i) => first_match(s@, newline_pred()) == Some(i as int),
            None => first_match(s@, newline_pred()) is None,
        },
{
    let n = s.unicode_len();
    let mut i: usize = 0;
    while i < n
        invariant
            n == s@.len(),
            i <= n,
            forall|j: int| 0 <= j < i ==> s@[j] != '\n',
        decreases n - i,
    {
        if s.get_char(i) == '\n' {
            proof {
                lemma_first_match_unique(s@, newline_pred(), i as int);
            }
            return Some(i);
        }
        i += 1;
    }
    proof {
        lemma_first_match(s@, newline_pred());
        if first_match(s@, newline_pred()) is Some {
            let k = first_match(s@, newline_pred()).unwrap();
            assert(s@[k] != '\n');
            assert(!newline_pred()(s@[k]));
        }
    }
    None
}

/// The first line of `s`.
pub fn first_line<'a>(s: &'a str) -> (r: &'a str)
    ensures
        r@ == header_of(s@),
{
    let n = s.unicode_len();
    let hl = match find_newline(s) {
        Some(i) => i,
        None => n,
    };
    proof {
        lemma_first_match(s@, newline_pred());
    }
    let r = s.substring_char(0, hl);
    proof {
        assert(r@ =~= header_of(s@));
    }
    r
}

} // verus!
