//! Semantic versions: the `(major, minor, patch)` triple, its arithmetic,
//! and its textual form `"major.minor.patch"`.

use vstd::prelude::*;

use crate::commit_analyzer::CommitType;
use crate::text::{first_match, lemma_first_match, lemma_first_match_unique};

verus! {

/// A semantic version: three non-negative components.
#[derive(Clone, Copy, Debug, PartialEq, Eq, Structural)]
pub struct Version {
    pub major: u64,
    pub minor: u64,
    pub patch: u64,
}

/// The bump that a change category asks for: `Major` resets minor and patch,
/// `Minor` resets patch, `Patch` increments patch, and `Unknown` asks for no
/// release at all.
pub open spec fn bump_spec(v: Version, bump: CommitType) -> Option<Version> {
    match bump {
        CommitType::Unknown => None,
        CommitType::Patch => Some(Version { major: v.major, minor: v.minor, patch: (v.patch + 1) as u64 }),
        CommitType::Minor => Some(Version { major: v.major, minor: (v.minor + 1) as u64, patch: 0 }),
        CommitType::Major => Some(Version { major: (v.major + 1) as u64, minor: 0, patch: 0 }),
    }
}

/// `a` precedes `b` in version order.
pub open spec fn version_lt(a: Version, b: Version) -> bool {
    a.major < b.major || (a.major == b.major && (a.minor < b.minor || (a.minor == b.minor
        && a.patch < b.patch)))
}

/// Computes the next version for a change category, or `None` when the
/// category asks for no release.
pub fn version_bump(version: &Version, bump: CommitType) -> (r: Option<Version>)
    requires
        bump == CommitType::Patch ==> version.patch < u64::MAX,
        bump == CommitType::Minor ==> version.minor < u64::MAX,
        bump == CommitType::Major ==> version.major < u64::MAX,
    ensures
        r == bump_spec(*version, bump),
{
    match bump {
        CommitType::Unknown => None,
        CommitType::Patch => Some(
            Version { major: version.major, minor: version.minor, patch: version.patch + 1 },
        ),
        CommitType::Minor => Some(Version { major: version.major, minor: version.minor + 1, patch: 0 }),
        CommitType::Major => Some(Version { major: version.major + 1, minor: 0, patch: 0 }),
    }
}

/// A bump never decreases the version: whenever a new version is produced,
/// the old one precedes it.
pub proof fn lemma_bump_increases(v: Version, bump: CommitType)
    requires
        bump_spec(v, bump) is Some,
        bump == CommitType::Patch ==> v.patch < u64::MAX,
        bump == CommitType::Minor ==> v.minor < u64::MAX,
        bump == CommitType::Major ==> v.major < u64::MAX,
    ensures
        version_lt(v, bump_spec(v, bump).unwrap()),
{
}

/// The decimal digit characters.
pub open spec fn is_digit(c: char) -> bool {
    c == '0' || c == '1' || c == '2' || c == '3' || c == '4' || c == '5' || c == '6' || c == '7'
        || c == '8' || c == '9'
}

/// The numeric value of a digit character; zero on any other character.
pub open spec fn digit_val(c: char) -> int {
    if c == '0' {
        0
    } else if c == '1' {
        1
    } else if c == '2' {
        2
    } else if c == '3' {
        3
    } else if c == '4' {
        4
    } else if c == '5' {
        5
    } else if c == '6' {
        6
    } else if c == '7' {
        7
    } else if c == '8' {
        8
    } else if c == '9' {
        9
    } else {
        0
    }
}

/// The digit character for a value below ten.
pub open spec fn digit_char(d: int) -> char {
    if d == 0 {
        '0'
    } else if d == 1 {
        '1'
    } else if d == 2 {
        '2'
    } else if d == 3 {
        '3'
    } else if d == 4 {
        '4'
    } else if d == 5 {
        '5'
    } else if d == 6 {
        '6'
    } else if d == 7 {
        '7'
    } else if d == 8 {
        '8'
    } else {
        '9'
    }
}

/// The value of a run of digit characters, most significant first.
pub open spec fn value_of(s: Seq<char>) -> int
    decreases s.len(),
{
    if s.len() == 0 {
        0
    } else {
        value_of(s.drop_last()) * 10 + digit_val(s.last())
    }
}

/// A non-empty run of digits only.
pub open spec fn all_digits(s: Seq<char>) -> bool {
    s.len() > 0 && forall|i: int| 0 <= i < s.len() ==> is_digit(s[i])
}

/// The canonical decimal form of a version component: digits only, no
/// leading zero, value within `u64`.
pub open spec fn canonical_digits(s: Seq<char>) -> bool {
    all_digits(s) && (s[0] != '0' || s.len() == 1) && value_of(s) <= u64::MAX
}

/// The decimal digits of `n`, most significant first.
pub open spec fn digits_of(n: int) -> Seq<char>
    decreases n,
{
    if n < 10 {
        seq![digit_char(n)]
    } else {
        digits_of(n / 10).push(digit_char(n % 10))
    }
}

/// The textual form of a version: the three components in decimal, separated
/// by dots.
pub open spec fn version_chars(v: Version) -> Seq<char> {
    digits_of(v.major as int) + seq!['.'] + digits_of(v.minor as int) + seq!['.'] + digits_of(
        v.patch as int,
    )
}

/// The predicate recognizing the dot separator.
pub open spec fn dot_pred() -> spec_fn(char) -> bool {
    |c: char| c == '.'
}

/// The version a string denotes: it must be three canonical decimal runs
/// separated by single dots; anything else denotes no version.
pub open spec fn parse_version_spec(s: Seq<char>) -> Option<Version> {
    match first_match(s, dot_pred()) {
        None => None,
        Some(a) => {
            let p1 = s.take(a);
            let rest = s.skip(a + 1);
            match first_match(rest, dot_pred()) {
                None => None,
                Some(b) => {
                    let p2 = rest.take(b);
                    let p3 = rest.skip(b + 1);
                    if canonical_digits(p1) && canonical_digits(p2) && canonical_digits(p3) {
                        Some(
                            Version {
                                major: value_of(p1) as u64,
                                minor: value_of(p2) as u64,
                                patch: value_of(p3) as u64,
                            },
                        )
                    } else {
                        None
                    }
                },
            }
        },
    }
}

/// The value of a run of digits is never negative.
pub proof fn lemma_value_nonneg(s: Seq<char>)
    ensures
        value_of(s) >= 0,
    decreases s.len(),
{
    if s.len() > 0 {
        lemma_value_nonneg(s.drop_last());
    }
}

/// Extending a run of digits to the right never lowers its value.
pub proof fn lemma_value_prefix(s: Seq<char>, j: int)
    requires
        0 <= j <= s.len(),
    ensures
        value_of(s.take(j)) <= value_of(s),
    decreases s.len() - j,
{
    if j < s.len() {
        lemma_value_prefix(s, j + 1);
        let t = s.take(j + 1);
        assert(t.drop_last() =~= s.take(j));
        lemma_value_nonneg(s.take(j));
        assert(value_of(t) == value_of(s.take(j)) * 10 + digit_val(t.last()));
        assert(value_of(s.take(j)) * 10 >= value_of(s.take(j)));
    } else {
        assert(s.take(j) =~= s);
    }
}

/// The digits of a number are never empty.
pub proof fn lemma_digits_len(n: int)
    ensures
        digits_of(n).len() >= 1,
    decreases n,
{
    if n >= 10 {
        lemma_digits_len(n / 10);
    }
}

/// The digits of `n` are digits, carry no leading zero, and have value `n`.
pub proof fn lemma_digits_of_props(n: int)
    requires
        n >= 0,
    ensures
        all_digits(digits_of(n)),
        digits_of(n)[0] != '0' || digits_of(n).len() == 1,
        value_of(digits_of(n)) == n,
        !digits_of(n).contains('.'),
    decreases n,
{
    if n < 10 {
        let s = digits_of(n);
        assert(s == seq![digit_char(n)]);
        assert(s.drop_last() =~= Seq::<char>::empty());
        assert(value_of(s) == value_of(s.drop_last()) * 10 + digit_val(s.last()));
        assert(value_of(Seq::<char>::empty()) == 0);
        assert(s.last() == digit_char(n));
        assert(digit_val(digit_char(n)) == n);
        assert(forall|i: int| 0 <= i < s.len() ==> is_digit(s[i]));
        if s.contains('.') {
            let i = choose|i: int| 0 <= i < s.len() && s[i] == '.';
            assert(is_digit(s[i]));
        }
    } else {
        lemma_digits_of_props(n / 10);
        let p = digits_of(n / 10);
        let s = digits_of(n);
        assert(s == p.push(digit_char(n % 10)));
        assert(s.drop_last() =~= p);
        assert(value_of(s) == value_of(s.drop_last()) * 10 + digit_val(s.last()));
        assert(value_of(s.drop_last()) == value_of(p));
        assert(s.last() == digit_char(n % 10));
        assert(digit_val(digit_char(n % 10)) == n % 10);
        assert(value_of(p) == n / 10);
        assert(value_of(s) == (n / 10) * 10 + n % 10);
        assert((n / 10) * 10 + n % 10 == n);
        assert(forall|i: int| 0 <= i < p.len() ==> s[i] == p[i]);
        assert(s[0] == p[0]);
        assert(n / 10 >= 1);
        if n / 10 < 10 {
            assert(p == seq![digit_char(n / 10)]);
            assert(p[0] == digit_char(n / 10));
            assert(p[0] != '0');
        } else {
            lemma_digits_len(n / 100);
            assert(p == digits_of(n / 100).push(digit_char((n / 10) % 10)));
            assert(p.len() >= 2);
        }
        if s.contains('.') {
            let i = choose|i: int| 0 <= i < s.len() && s[i] == '.';
            assert(is_digit(s[i]));
        }
    }
}

/// `first_match` on `a + [m] + b` where nothing in `a` matches and `m`
/// matches finds exactly the boundary.
proof fn lemma_first_match_boundary(s: Seq<char>, a: Seq<char>, pred: spec_fn(char) -> bool)
    requires
        a.len() < s.len(),
        forall|j: int| 0 <= j < a.len() ==> s[j] == a[j],
        forall|j: int| 0 <= j < a.len() ==> !pred(a[j]),
        pred(s[a.len() as int]),
    ensures
        first_match(s, pred) == Some(a.len() as int),
{
    lemma_first_match_unique(s, pred, a.len() as int);
}

/// Parsing the textual form of a version yields that version back.
pub proof fn lemma_format_then_parse(v: Version)
    ensures
        parse_version_spec(version_chars(v)) == Some(v),
{
    let da = digits_of(v.major as int);
    let db = digits_of(v.minor as int);
    let dp = digits_of(v.patch as int);
    lemma_digits_of_props(v.major as int);
    lemma_digits_of_props(v.minor as int);
    lemma_digits_of_props(v.patch as int);
    let s = version_chars(v);
    assert(s == da + seq!['.'] + db + seq!['.'] + dp);
    assert forall|j: int| 0 <= j < da.len() implies !dot_pred()(da[j]) by {
        assert(da.contains('.') == false);
        if da[j] == '.' {
            assert(da.contains('.'));
        }
    }
    assert(s[da.len() as int] == '.');
    assert(forall|j: int| 0 <= j < da.len() ==> s[j] == da[j]);
    lemma_first_match_boundary(s, da, dot_pred());
    let p1 = s.take(da.len() as int);
    assert(p1 =~= da);
    let rest = s.skip(da.len() as int + 1);
    assert(rest =~= db + seq!['.'] + dp);
    assert forall|j: int| 0 <= j < db.len() implies !dot_pred()(db[j]) by {
        if db[j] == '.' {
            assert(db.contains('.'));
        }
    }
    assert(rest[db.len() as int] == '.');
    assert(forall|j: int| 0 <= j < db.len() ==> rest[j] == db[j]);
    lemma_first_match_boundary(rest, db, dot_pred());
    let p2 = rest.take(db.len() as int);
    assert(p2 =~= db);
    let p3 = rest.skip(db.len() as int + 1);
    assert(p3 =~= dp);
    assert(canonical_digits(p1));
    assert(canonical_digits(p2));
    assert(canonical_digits(p3));
    assert(value_of(p1) == v.major as int);
    assert(value_of(p2) == v.minor as int);
    assert(value_of(p3) == v.patch as int);
}

/// No character of a version's textual form is a newline.
pub proof fn lemma_version_chars_no_newline(v: Version)
    ensures
        forall|j: int| 0 <= j < version_chars(v).len() ==> version_chars(v)[j] != '\n',
{
    let da = digits_of(v.major as int);
    let db = digits_of(v.minor as int);
    let dp = digits_of(v.patch as int);
    lemma_digits_of_props(v.major as int);
    lemma_digits_of_props(v.minor as int);
    lemma_digits_of_props(v.patch as int);
    let s = version_chars(v);
    assert forall|j: int| 0 <= j < s.len() implies s[j] != '\n' by {
        let la = da.len() as int;
        let lb = db.len() as int;
        if j < la {
            assert(s[j] == da[j]);
            assert(is_digit(da[j]));
        } else if j == la {
            assert(s[j] == '.');
        } else if j < la + 1 + lb {
            assert(s[j] == db[j - la - 1]);
            assert(is_digit(db[j - la - 1]));
        } else if j == la + 1 + lb {
            assert(s[j] == '.');
        } else {
            assert(s[j] == dp[j - la - lb - 2]);
            assert(is_digit(dp[j - la - lb - 2]));
        }
    }
}

/// Parses a canonical run of decimal digits into its value; `None` when the
/// run is empty, holds a non-digit, carries a leading zero, or overflows.
fn parse_u64_digits(p: &str) -> (r: Option<u64>)
    ensures
        match r {
            Some(n) => canonical_digits(p@) && n as int == value_of(p@),
            None => !canonical_digits(p@),
        },
{
    let len = p.unicode_len();
    if len == 0 {
        return None;
    }
    if len > 1 && p.get_char(0) == '0' {
        return None;
    }
    let mut acc: u64 = 0;
    let mut i: usize = 0;
    while i < len
        invariant
            len == p@.len(),
            0 < len,
            i <= len,
            len > 1 ==> p@[0] != '0',
            forall|j: int| 0 <= j < i ==> is_digit(p@[j]),
            acc as int == value_of(p@.take(i as int)),
        decreases len - i,
    {
        let c = p.get_char(i);
        let d: u64 = match c {
            '0' => 0,
            '1' => 1,
            '2' => 2,
            '3' => 3,
            '4' => 4,
            '5' => 5,
            '6' => 6,
            '7' => 7,
            '8' => 8,
            '9' => 9,
            _ => {
                proof {
                    assert(!is_digit(p@[i as int]));
                }
                return None;
            },
        };
        proof {
            assert(is_digit(p@[i as int]));
            assert(d as int == digit_val(p@[i as int]));
            assert(p@.take(i + 1).drop_last() =~= p@.take(i as int));
        }
        let next = match acc.checked_mul(10) {
            Some(m) => m.checked_add(d),
            None => None,
        };
        match next {
            Some(n) => {
                acc = n;
            },
            None => {
                proof {
                    assert(value_of(p@.take(i + 1)) > u64::MAX);
                    lemma_value_prefix(p@, i + 1);
                }
                return None;
            },
        }
        i += 1;
    }
    proof {
        assert(p@.take(len as int) =~= p@);
    }
    Some(acc)
}

/// Index of the first dot in `s`, if any.
fn find_dot(s: &str) -> (r: Option<usize>)
    ensures
        match r {
            Some(i) => first_match(s@, dot_pred()) == Some(i as int),
            None => first_match(s@, dot_pred()) is None,
        },
{
    let n = s.unicode_len();
    let mut i: usize = 0;
    while i < n
        invariant
            n == s@.len(),
            i <= n,
            forall|j: int| 0 <= j < i ==> s@[j] != '.',
        decreases n - i,
    {
        if s.get_char(i) == '.' {
            proof {
                lemma_first_match_unique(s@, dot_pred(), i as int);
            }
            return Some(i);
        }
        i += 1;
    }
    proof {
        lemma_first_match(s@, dot_pred());
        if first_match(s@, dot_pred()) is Some {
            let k = first_match(s@, dot_pred()).unwrap();
            assert(!dot_pred()(s@[k]));
        }
    }
    None
}

/// Parses `"major.minor.patch"`; `None` on anything but the canonical form.
pub fn parse_version(s: &str) -> (r: Option<Version>)
    ensures
        r == parse_version_spec(s@),
{
    let n = s.unicode_len();
    let first_dot = find_dot(s);
    proof {
        lemma_first_match(s@, dot_pred());
    }
    let a = match first_dot {
        None => {
            return None;
        },
        Some(a) => a,
    };
    let p1 = s.substring_char(0, a);
    let rest = s.substring_char(a + 1, n);
    proof {
        assert(p1@ =~= s@.take(a as int));
        assert(rest@ =~= s@.skip(a + 1));
    }
    let second_dot = find_dot(rest);
    proof {
        lemma_first_match(rest@, dot_pred());
    }
    let b = match second_dot {
        None => {
            return None;
        },
        Some(b) => b,
    };
    let rn = rest.unicode_len();
    let p2 = rest.substring_char(0, b);
    let p3 = rest.substring_char(b + 1, rn);
    proof {
        assert(p2@ =~= rest@.take(b as int));
        assert(p3@ =~= rest@.skip(b + 1));
    }
    let major = match parse_u64_digits(p1) {
        None => {
            return None;
        },
        Some(x) => x,
    };
    let minor = match parse_u64_digits(p2) {
        None => {
            return None;
        },
        Some(x) => x,
    };
    let patch = match parse_u64_digits(p3) {
        None => {
            return None;
        },
        Some(x) => x,
    };
    proof {
        lemma_value_nonneg(p1@);
        lemma_value_nonneg(p2@);
        lemma_value_nonneg(p3@);
    }
    Some(Version { major, minor, patch })
}

/// The digit string for a value below ten.
fn digit_str(d: u64) -> (r: &'static str)
    requires
        d < 10,
    ensures
        r@ == seq![digit_char(d as int)],
{
    proof {
        reveal_strlit("0");
        reveal_strlit("1");
        reveal_strlit("2");
        reveal_strlit("3");
        reveal_strlit("4");
        reveal_strlit("5");
        reveal_strlit("6");
        reveal_strlit("7");
        reveal_strlit("8");
        reveal_strlit("9");
    }
    let r = match d {
        0 => "0",
        1 => "1",
        2 => "2",
        3 => "3",
        4 => "4",
        5 => "5",
        6 => "6",
        7 => "7",
        8 => "8",
        _ => "9",
    };
    proof {
        assert(r@ =~= seq![digit_char(d as int)]);
    }
    r
}

/// The decimal form of `n`.
fn u64_digits(n: u64) -> (s: String)
    ensures
        s@ == digits_of(n as int),
    decreases n,
{
    if n < 10 {
        let d = digit_str(n);
        d.to_owned()
    } else {
        let mut s = u64_digits(n / 10);
        let d = digit_str(n % 10);
        s.append(d);
        proof {
            assert(s@ =~= digits_of(n as int));
        }
        s
    }
}

/// Formats a version as `"major.minor.patch"`.
pub fn format_version(v: &Version) -> (s: String)
    ensures
        s@ == version_chars(*v),
{
    proof {
        reveal_strlit(".");
    }
    let mut s = u64_digits(v.major);
    s.append(".");
    let minor = u64_digits(v.minor);
    s.append(minor.as_str());
    s.append(".");
    let patch = u64_digits(v.patch);
    s.append(patch.as_str());
    proof {
        assert(s@ =~= version_chars(*v));
    }
    s
}

/// The tag name for a version: `v` followed by the version's textual form.
pub fn tag_name_for(v: &Version) -> (s: String)
    ensures
        s@ == seq!['v'] + version_chars(*v),
{
    proof {
        reveal_strlit("v");
    }
    let mut s = "v".to_owned();
    let rest = format_version(v);
    s.append(rest.as_str());
    proof {
        assert(s@ =~= seq!['v'] + version_chars(*v));
    }
    s
}

} // verus!
