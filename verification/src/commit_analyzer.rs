//! Classification of commit messages into change categories.
//!
//! A message is classified from its header (`type(scope): summary`) and from
//! the presence of a breaking marker: a `!` right before the header's colon,
//! or the literal footer text `BREAKING CHANGE:` anywhere in the message.

use vstd::prelude::*;

use crate::text::{
    contains_seq, contains_substr, first_line, first_match, header_of, lemma_first_match,
    lemma_first_match_unique,
};

verus! {

/// Severity class of one change, ordered `Major > Minor > Patch > Unknown`.
#[derive(Clone, Copy, Debug, PartialEq, Eq, Structural)]
pub enum CommitType {
    Unknown,
    Patch,
    Minor,
    Major,
}

/// One commit: an opaque identifier and its message text.
#[derive(Clone, Debug)]
pub struct Commit {
    pub id: String,
    pub message: String,
}

/// Numeric severity: `Major` outweighs `Minor` outweighs `Patch` outweighs
/// `Unknown`.
pub open spec fn severity(t: CommitType) -> int {
    match t {
        CommitType::Unknown => 0,
        CommitType::Patch => 1,
        CommitType::Minor => 2,
        CommitType::Major => 3,
    }
}

/// The more severe of two categories.
pub open spec fn max_type(a: CommitType, b: CommitType) -> CommitType {
    if severity(a) >= severity(b) {
        a
    } else {
        b
    }
}

/// Picks the more severe of two categories.
pub fn more_severe(a: CommitType, b: CommitType) -> (r: CommitType)
    ensures
        r == max_type(a, b),
{
    let sa: u8 = match a {
        CommitType::Unknown => 0,
        CommitType::Patch => 1,
        CommitType::Minor => 2,
        CommitType::Major => 3,
    };
    let sb: u8 = match b {
        CommitType::Unknown => 0,
        CommitType::Patch => 1,
        CommitType::Minor => 2,
        CommitType::Major => 3,
    };
    if sa >= sb {
        a
    } else {
        b
    }
}

/// The literal footer marker that forces a `Major` classification.
pub open spec fn breaking_marker() -> Seq<char> {
    "BREAKING CHANGE:"@
}

/// The predicate recognizing the header's colon.
pub open spec fn colon_pred() -> spec_fn(char) -> bool {
    |c: char| c == ':'
}

/// The predicate recognizing the characters that end the type token: an
/// opening parenthesis, a colon, or the breaking `!`.
pub open spec fn stop_pred() -> spec_fn(char) -> bool {
    |c: char| c == '(' || c == ':' || c == '!'
}

/// The header carries a breaking marker: a `!` right before its first colon.
pub open spec fn header_breaking(h: Seq<char>) -> bool {
    match first_match(h, colon_pred()) {
        Some(i) => i > 0 && h[i - 1] == '!',
        None => false,
    }
}

/// The message carries a breaking marker, in its header or as the literal
/// footer text anywhere in the message.
pub open spec fn is_breaking(msg: Seq<char>) -> bool {
    header_breaking(header_of(msg)) || contains_seq(msg, breaking_marker())
}

/// The type token of a header: the characters before the first `(`, `:` or
/// `!`; absent when the header has none of those.
pub open spec fn token_of(h: Seq<char>) -> Option<Seq<char>> {
    match first_match(h, stop_pred()) {
        Some(i) => Some(h.take(i)),
        None => None,
    }
}

/// The token `feat`, case-insensitively.
pub open spec fn is_feat(t: Seq<char>) -> bool {
    t.len() == 4 && (t[0] == 'f' || t[0] == 'F') && (t[1] == 'e' || t[1] == 'E') && (t[2] == 'a'
        || t[2] == 'A') && (t[3] == 't' || t[3] == 'T')
}

/// The token `fix`, case-insensitively.
pub open spec fn is_fix(t: Seq<char>) -> bool {
    t.len() == 3 && (t[0] == 'f' || t[0] == 'F') && (t[1] == 'i' || t[1] == 'I') && (t[2] == 'x'
        || t[2] == 'X')
}

/// Classification of one commit message. A breaking marker forces `Major`
/// irrespective of the type token; otherwise `feat` maps to `Minor`, `fix`
/// to `Patch`, and everything else - including an absent token - to
/// `Unknown`. Classification never fails.
pub open spec fn classify_spec(msg: Seq<char>) -> CommitType {
    if is_breaking(msg) {
        CommitType::Major
    } else {
        match token_of(header_of(msg)) {
            Some(t) => if is_feat(t) {
                CommitType::Minor
            } else if is_fix(t) {
                CommitType::Patch
            } else {
                CommitType::Unknown
            },
            None => CommitType::Unknown,
        }
    }
}

/// Index of the first colon in `s`, if any.
fn find_colon(s: &str) -> (r: Option<usize>)
    ensures
        match r {
            Some(i) => first_match(s@, colon_pred()) == Some(i as int),
            None => first_match(s@, colon_pred()) is None,
        },
{
    let n = s.unicode_len();
    let mut i: usize = 0;
    while i < n
        invariant
            n == s@.len(),
            i <= n,
            forall|j: int| 0 <= j < i ==> s@[j] != ':',
        decreases n - i,
    {
        if s.get_char(i) == ':' {
            proof {
                lemma_first_match_unique(s@, colon_pred(), i as int);
            }
            return Some(i);
        }
        i += 1;
    }
    proof {
        lemma_first_match(s@, colon_pred());
        if first_match(s@, colon_pred()) is Some {
            let k = first_match(s@, colon_pred()).unwrap();
            assert(s@[k] != ':');
            assert(!colon_pred()(s@[k]));
        }
    }
    None
}

/// Index of the first token-ending character in `s`, if any.
fn find_stop(s: &str) -> (r: Option<usize>)
    ensures
        match r {
            Some(i) => first_match(s@, stop_pred()) == Some(i as int),
            None => first_match(s@, stop_pred()) is None,
        },
{
    let n = s.unicode_len();
    let mut i: usize = 0;
    while i < n
        invariant
            n == s@.len(),
            i <= n,
            forall|j: int| 0 <= j < i ==> s@[j] != '(' && s@[j] != ':' && s@[j] != '!',
        decreases n - i,
    {
        let c = s.get_char(i);
        if c == '(' || c == ':' || c == '!' {
            proof {
                lemma_first_match_unique(s@, stop_pred(), i as int);
            }
            return Some(i);
        }
        i += 1;
    }
    proof {
        lemma_first_match(s@, stop_pred());
        if first_match(s@, stop_pred()) is Some {
            let k = first_match(s@, stop_pred()).unwrap();
            assert(!stop_pred()(s@[k]));
        }
    }
    None
}

/// Classifies one commit message.
pub fn analyze(message: &str) -> (t: CommitType)
    ensures
        t == classify_spec(message@),
{
    let header = first_line(message);
    let first_colon = find_colon(header);
    proof {
        lemma_first_match(header@, colon_pred());
    }
    let head_breaking = match first_colon {
        Some(i) => i > 0 && header.get_char(i - 1) == '!',
        None => false,
    };
    if head_breaking || contains_substr(message, "BREAKING CHANGE:") {
        return CommitType::Major;
    }
    match find_stop(header) {
        None => CommitType::Unknown,
        Some(i) => {
            proof {
                lemma_first_match(header@, stop_pred());
            }
            if i == 4 {
                let c0 = header.get_char(0);
                let c1 = header.get_char(1);
                let c2 = header.get_char(2);
                let c3 = header.get_char(3);
                let feat = (c0 == 'f' || c0 == 'F') && (c1 == 'e' || c1 == 'E') && (c2 == 'a'
                    || c2 == 'A') && (c3 == 't' || c3 == 'T');
                proof {
                    lemma_first_match(header@, stop_pred());
                    assert(header@.take(i as int).len() == 4);
                    assert(header@.take(i as int)[0] == header@[0]);
                    assert(header@.take(i as int)[1] == header@[1]);
                    assert(header@.take(i as int)[2] == header@[2]);
                    assert(header@.take(i as int)[3] == header@[3]);
                }
                if feat {
                    CommitType::Minor
                } else {
                    CommitType::Unknown
                }
            } else if i == 3 {
                let c0 = header.get_char(0);
                let c1 = header.get_char(1);
                let c2 = header.get_char(2);
                let fix = (c0 == 'f' || c0 == 'F') && (c1 == 'i' || c1 == 'I') && (c2 == 'x'
                    || c2 == 'X');
                proof {
                    lemma_first_match(header@, stop_pred());
                    assert(header@.take(i as int).len() == 3);
                    assert(header@.take(i as int)[0] == header@[0]);
                    assert(header@.take(i as int)[1] == header@[1]);
                    assert(header@.take(i as int)[2] == header@[2]);
                }
                if fix {
                    CommitType::Patch
                } else {
                    CommitType::Unknown
                }
            } else {
                proof {
                    lemma_first_match(header@, stop_pred());
                    assert(header@.take(i as int).len() == i);
                }
                CommitType::Unknown
            }
        },
    }
}

/// The messages of a sequence of commits.
pub open spec fn messages_of(commits: Seq<Commit>) -> Seq<Seq<char>> {
    commits.map_values(|c: Commit| c.message@)
}

/// Aggregate category of a sequence of messages: the maximum severity over
/// their individual classifications; `Unknown` for an empty sequence.
pub open spec fn aggregate_spec(msgs: Seq<Seq<char>>) -> CommitType
    decreases msgs.len(),
{
    if msgs.len() == 0 {
        CommitType::Unknown
    } else {
        max_type(aggregate_spec(msgs.drop_last()), classify_spec(msgs.last()))
    }
}

/// Classifies every commit and aggregates to the maximum severity observed.
pub fn analyze_commits(commits: &Vec<Commit>) -> (t: CommitType)
    ensures
        t == aggregate_spec(messages_of(commits@)),
{
    let mut t = CommitType::Unknown;
    let mut i: usize = 0;
    proof {
        assert(commits@.take(0).map_values(|c: Commit| c.message@) =~= Seq::<Seq<char>>::empty());
    }
    while i < commits.len()
        invariant
            i <= commits.len(),
            t == aggregate_spec(messages_of(commits@.take(i as int))),
        decreases commits.len() - i,
    {
        let c = analyze(commits[i].message.as_str());
        proof {
            let prefix = messages_of(commits@.take(i + 1));
            assert(prefix.drop_last() =~= messages_of(commits@.take(i as int)));
            assert(prefix.last() == commits@[i as int].message@);
        }
        t = more_severe(t, c);
        i += 1;
    }
    proof {
        assert(commits@.take(commits@.len() as int) =~= commits@);
    }
    t
}

/// The aggregate category is the maximum severity over the individual
/// classifications: no commit classifies above it, and on a non-empty
/// sequence it is the classification of one of the commits.
pub proof fn lemma_aggregate_is_max(msgs: Seq<Seq<char>>)
    ensures
        forall|i: int|
            0 <= i < msgs.len() ==> severity(classify_spec(msgs[i])) <= severity(
                aggregate_spec(msgs),
            ),
        msgs.len() > 0 ==> exists|i: int|
            0 <= i < msgs.len() && aggregate_spec(msgs) == classify_spec(msgs[i]),
    decreases msgs.len(),
{
    if msgs.len() > 0 {
        lemma_aggregate_is_max(msgs.drop_last());
        assert(forall|i: int|
            0 <= i < msgs.len() - 1 ==> msgs.drop_last()[i] == msgs[i]);
        if msgs.len() > 1 {
            let j = choose|j: int|
                0 <= j < msgs.drop_last().len() && aggregate_spec(msgs.drop_last())
                    == classify_spec(msgs.drop_last()[j]);
            if severity(aggregate_spec(msgs.drop_last())) >= severity(classify_spec(msgs.last())) {
                assert(aggregate_spec(msgs) == classify_spec(msgs[j]));
            } else {
                assert(aggregate_spec(msgs) == classify_spec(msgs[msgs.len() - 1]));
            }
        } else {
            assert(aggregate_spec(msgs) == classify_spec(msgs[0]));
        }
    }
}

/// A single `Major` commit among any number of others forces the aggregate
/// to `Major`.
pub proof fn lemma_major_dominates(msgs: Seq<Seq<char>>, i: int)
    requires
        0 <= i < msgs.len(),
        classify_spec(msgs[i]) == CommitType::Major,
    ensures
        aggregate_spec(msgs) == CommitType::Major,
{
    lemma_aggregate_is_max(msgs);
    assert(severity(aggregate_spec(msgs)) >= 3);
}

/// The classification rules: a breaking marker forces `Major`; otherwise
/// the header's type token decides, `feat` giving `Minor`, `fix` giving
/// `Patch`, and anything else giving `Unknown`.
pub proof fn lemma_classification_rules(msg: Seq<char>)
    ensures
        is_breaking(msg) ==> classify_spec(msg) == CommitType::Major,
        (!is_breaking(msg) && token_of(header_of(msg)) is Some && is_feat(
            token_of(header_of(msg)).unwrap(),
        )) ==> classify_spec(msg) == CommitType::Minor,
        (!is_breaking(msg) && token_of(header_of(msg)) is Some && is_fix(
            token_of(header_of(msg)).unwrap(),
        )) ==> classify_spec(msg) == CommitType::Patch,
        (!is_breaking(msg) && (token_of(header_of(msg)) is None || (!is_feat(
            token_of(header_of(msg)).unwrap(),
        ) && !is_fix(token_of(header_of(msg)).unwrap())))) ==> classify_spec(msg)
            == CommitType::Unknown,
{
}

} // verus!
