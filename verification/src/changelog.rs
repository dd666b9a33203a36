//! Composition of release notes from classified commits, their textual
//! rendering, and a section-count reader for the rendered text.

use vstd::prelude::*;

use crate::commit_analyzer::{aggregate_spec, analyze, classify_spec, lemma_aggregate_is_max, messages_of, severity, Commit, CommitType};
use crate::text::{find_newline, first_line, first_match, header_of, lemma_first_match, lemma_first_match_unique, newline_pred, str_eq};
use crate::version::{format_version, lemma_version_chars_no_newline, version_chars, Version};

verus! {

/// Release notes: one ordered section per change category, each entry the
/// summary (header line) of one commit.
pub struct Changelog {
    pub breaking: Vec<String>,
    pub features: Vec<String>,
    pub fixes: Vec<String>,
}

/// The summaries, in order, of the messages classified `t`.
pub open spec fn section_spec(msgs: Seq<Seq<char>>, t: CommitType) -> Seq<Seq<char>>
    decreases msgs.len(),
{
    if msgs.len() == 0 {
        Seq::empty()
    } else {
        let init = section_spec(msgs.drop_last(), t);
        if classify_spec(msgs.last()) == t {
            init.push(header_of(msgs.last()))
        } else {
            init
        }
    }
}

/// A changelog holds exactly the summaries of the given messages, grouped
/// by category and in order.
pub open spec fn changelog_matches(c: Changelog, msgs: Seq<Seq<char>>) -> bool {
    &&& c.breaking.deep_view() == section_spec(msgs, CommitType::Major)
    &&& c.features.deep_view() == section_spec(msgs, CommitType::Minor)
    &&& c.fixes.deep_view() == section_spec(msgs, CommitType::Patch)
}

/// Each section holds as many entries as there are messages of its
/// category.
pub proof fn lemma_section_counts(msgs: Seq<Seq<char>>, t: CommitType)
    ensures
        section_spec(msgs, t).len() == msgs.filter(|m: Seq<char>| classify_spec(m) == t).len(),
    decreases msgs.len(),
{
    reveal(Seq::filter);
    if msgs.len() > 0 {
        lemma_section_counts(msgs.drop_last(), t);
    }
}

/// When no commit classifies above `Unknown`, every section is empty: the
/// composer signals no content and the caller falls back to its substitute
/// text.
pub proof fn lemma_all_unqualified_is_empty(msgs: Seq<Seq<char>>)
    requires
        forall|i: int| 0 <= i < msgs.len() ==> classify_spec(msgs[i]) == CommitType::Unknown,
    ensures
        section_spec(msgs, CommitType::Major).len() == 0,
        section_spec(msgs, CommitType::Minor).len() == 0,
        section_spec(msgs, CommitType::Patch).len() == 0,
    decreases msgs.len(),
{
    if msgs.len() > 0 {
        assert forall|i: int| 0 <= i < msgs.drop_last().len() implies classify_spec(
            msgs.drop_last()[i],
        ) == CommitType::Unknown by {
            assert(msgs.drop_last()[i] == msgs[i]);
        }
        lemma_all_unqualified_is_empty(msgs.drop_last());
        assert(classify_spec(msgs.last()) == CommitType::Unknown);
    }
}

/// When the aggregate category asks for no release, the changelog has no
/// content either: nothing would have been written about the range.
pub proof fn lemma_no_release_means_empty_changelog(msgs: Seq<Seq<char>>)
    requires
        aggregate_spec(msgs) == CommitType::Unknown,
    ensures
        section_spec(msgs, CommitType::Major).len() == 0,
        section_spec(msgs, CommitType::Minor).len() == 0,
        section_spec(msgs, CommitType::Patch).len() == 0,
{
    lemma_aggregate_is_max(msgs);
    assert forall|i: int| 0 <= i < msgs.len() implies classify_spec(msgs[i])
        == CommitType::Unknown by {
        assert(severity(classify_spec(msgs[i])) <= severity(aggregate_spec(msgs)));
    }
    lemma_all_unqualified_is_empty(msgs);
}

/// Groups every classified commit into the section of its category; commits
/// classified `Unknown` appear in none. Never fails; an empty input yields
/// an empty changelog.
pub fn compose(commits: &Vec<Commit>) -> (c: Changelog)
    ensures
        changelog_matches(c, messages_of(commits@)),
{
    let mut breaking: Vec<String> = Vec::new();
    let mut features: Vec<String> = Vec::new();
    let mut fixes: Vec<String> = Vec::new();
    let mut i: usize = 0;
    proof {
        assert(messages_of(commits@.take(0)) =~= Seq::<Seq<char>>::empty());
        assert(breaking.deep_view() =~= Seq::<Seq<char>>::empty());
        assert(features.deep_view() =~= Seq::<Seq<char>>::empty());
        assert(fixes.deep_view() =~= Seq::<Seq<char>>::empty());
    }
    while i < commits.len()
        invariant
            i <= commits.len(),
            breaking.deep_view() == section_spec(messages_of(commits@.take(i as int)), CommitType::Major),
            features.deep_view() == section_spec(messages_of(commits@.take(i as int)), CommitType::Minor),
            fixes.deep_view() == section_spec(messages_of(commits@.take(i as int)), CommitType::Patch),
        decreases commits.len() - i,
    {
        let ghost prev = messages_of(commits@.take(i as int));
        let ghost cur = messages_of(commits@.take(i + 1));
        proof {
            assert(cur.drop_last() =~= prev);
            assert(cur.last() == commits@[i as int].message@);
        }
        let message = &commits[i].message;
        let t = analyze(message.as_str());
        let summary = first_line(message.as_str()).to_owned();
        match t {
            CommitType::Major => {
                let ghost old_dv = breaking.deep_view();
                breaking.push(summary);
                proof {
                    assert(breaking.deep_view() =~= old_dv.push(header_of(cur.last())));
                }
            },
            CommitType::Minor => {
                let ghost old_dv = features.deep_view();
                features.push(summary);
                proof {
                    assert(features.deep_view() =~= old_dv.push(header_of(cur.last())));
                }
            },
            CommitType::Patch => {
                let ghost old_dv = fixes.deep_view();
                fixes.push(summary);
                proof {
                    assert(fixes.deep_view() =~= old_dv.push(header_of(cur.last())));
                }
            },
            CommitType::Unknown => {},
        }
        i += 1;
    }
    proof {
        assert(commits@.take(commits@.len() as int) =~= commits@);
    }
    Changelog { breaking, features, fixes }
}

/// Whether the changelog holds any entry at all. When it does not, the
/// caller substitutes its fallback text instead of rendering an empty
/// document.
pub fn has_content(c: &Changelog) -> (r: bool)
    ensures
        r == (c.breaking@.len() + c.features@.len() + c.fixes@.len() > 0),
{
    c.breaking.len() > 0 || c.features.len() > 0 || c.fixes.len() > 0
}

/// One rendered bullet entry per summary, in order.
pub open spec fn bullet_lines(items: Seq<Seq<char>>) -> Seq<char>
    decreases items.len(),
{
    if items.len() == 0 {
        Seq::empty()
    } else {
        bullet_lines(items.drop_last()) + "- "@ + items.last() + "\n"@
    }
}

/// A rendered section: its title and its entries, or nothing when it is
/// empty.
pub open spec fn section_text(title: Seq<char>, items: Seq<Seq<char>>) -> Seq<char> {
    if items.len() == 0 {
        Seq::empty()
    } else {
        title + bullet_lines(items)
    }
}

/// The rendered changelog: a version header, then the non-empty sections in
/// severity order.
pub open spec fn render_spec(c: Changelog, v: Version) -> Seq<char> {
    "## v"@ + version_chars(v) + "\n"@ + section_text(
        "### Breaking Changes\n"@,
        c.breaking.deep_view(),
    ) + section_text("### Features\n"@, c.features.deep_view()) + section_text(
        "### Fixes\n"@,
        c.fixes.deep_view(),
    )
}

/// Appends one bullet entry per item.
fn push_bullets(s: &mut String, items: &Vec<String>)
    ensures
        final(s)@ == old(s)@ + bullet_lines(items.deep_view()),
{
    let mut i: usize = 0;
    proof {
        assert(items.deep_view().take(0) =~= Seq::<Seq<char>>::empty());
        assert(s@ =~= old(s)@ + bullet_lines(items.deep_view().take(0)));
    }
    while i < items.len()
        invariant
            i <= items.len(),
            s@ == old(s)@ + bullet_lines(items.deep_view().take(i as int)),
        decreases items.len() - i,
    {
        s.append("- ");
        s.append(items[i].as_str());
        s.append("\n");
        proof {
            let dv = items.deep_view();
            assert(dv.take(i + 1).drop_last() =~= dv.take(i as int));
            assert(dv.take(i + 1).last() == items@[i as int]@);
            assert(s@ =~= old(s)@ + bullet_lines(dv.take(i + 1)));
        }
        i += 1;
    }
    proof {
        assert(items.deep_view().take(items@.len() as int) =~= items.deep_view());
    }
}

/// Renders the changelog for a version as text: a `## v<version>` header,
/// then each non-empty section as a `###` title with one `- ` entry per
/// commit summary.
pub fn render(c: &Changelog, v: &Version) -> (s: String)
    ensures
        s@ == render_spec(*c, *v),
{
    let mut s = "## v".to_owned();
    let ver = format_version(v);
    s.append(ver.as_str());
    s.append("\n");
    if c.breaking.len() > 0 {
        s.append("### Breaking Changes\n");
        push_bullets(&mut s, &c.breaking);
    } else {
        proof {
            assert(section_text("### Breaking Changes\n"@, c.breaking.deep_view())
                =~= Seq::<char>::empty());
        }
    }
    if c.features.len() > 0 {
        s.append("### Features\n");
        push_bullets(&mut s, &c.features);
    } else {
        proof {
            assert(section_text("### Features\n"@, c.features.deep_view())
                =~= Seq::<char>::empty());
        }
    }
    if c.fixes.len() > 0 {
        s.append("### Fixes\n");
        push_bullets(&mut s, &c.fixes);
    } else {
        proof {
            assert(section_text("### Fixes\n"@, c.fixes.deep_view()) =~= Seq::<char>::empty());
        }
    }
    proof {
        assert(s@ =~= render_spec(*c, *v));
    }
    s
}

/// The text split at newlines; the final fragment only when non-empty.
pub open spec fn lines_of(s: Seq<char>) -> Seq<Seq<char>>
    decreases s.len(),
    via lines_of_decreases
{
    if s.len() == 0 {
        Seq::empty()
    } else {
        match first_match(s, newline_pred()) {
            Some(i) => seq![s.take(i)] + lines_of(s.skip(i + 1)),
            None => seq![s],
        }
    }
}

#[via_fn]
proof fn lines_of_decreases(s: Seq<char>) {
    lemma_first_match(s, newline_pred());
}

/// Reader state while counting section entries: the current section and the
/// entries seen per section.
pub struct SectionCounts {
    pub section: int,
    pub breaking: int,
    pub features: int,
    pub fixes: int,
}

/// One line's effect on the reader state: a `###` title selects its
/// section, a `- ` entry counts toward the current one, anything else is
/// ignored.
pub open spec fn count_step(st: SectionCounts, line: Seq<char>) -> SectionCounts {
    if line == "### Breaking Changes"@ {
        SectionCounts { section: 1, ..st }
    } else if line == "### Features"@ {
        SectionCounts { section: 2, ..st }
    } else if line == "### Fixes"@ {
        SectionCounts { section: 3, ..st }
    } else if line.len() >= 2 && line[0] == '-' && line[1] == ' ' {
        if st.section == 1 {
            SectionCounts { breaking: st.breaking + 1, ..st }
        } else if st.section == 2 {
            SectionCounts { features: st.features + 1, ..st }
        } else if st.section == 3 {
            SectionCounts { fixes: st.fixes + 1, ..st }
        } else {
            st
        }
    } else {
        st
    }
}

/// The reader state after all lines.
pub open spec fn run_counts(lines: Seq<Seq<char>>, st: SectionCounts) -> SectionCounts
    decreases lines.len(),
{
    if lines.len() == 0 {
        st
    } else {
        run_counts(lines.drop_first(), count_step(st, lines.first()))
    }
}

/// The initial reader state: outside any section, nothing counted.
pub open spec fn initial_counts() -> SectionCounts {
    SectionCounts { section: 0, breaking: 0, features: 0, fixes: 0 }
}

/// Reads rendered changelog text back and counts the entries per section:
/// `###` titles switch sections, `- ` lines count toward the current one.
pub fn parse_section_counts(text: &str) -> (r: (usize, usize, usize))
    ensures
        ({
            let st = run_counts(lines_of(text@), initial_counts());
            r.0 == st.breaking && r.1 == st.features && r.2 == st.fixes
        }),
{
    let n = text.unicode_len();
    let mut pos: usize = 0;
    let mut sec: u8 = 0;
    let mut breaking: usize = 0;
    let mut features: usize = 0;
    let mut fixes: usize = 0;
    proof {
        assert(text@.skip(0) =~= text@);
    }
    while pos < n
        invariant
            n == text@.len(),
            pos <= n,
            sec <= 3,
            breaking + features + fixes <= pos,
            run_counts(lines_of(text@), initial_counts()) == run_counts(
                lines_of(text@.skip(pos as int)),
                SectionCounts {
                    section: sec as int,
                    breaking: breaking as int,
                    features: features as int,
                    fixes: fixes as int,
                },
            ),
        decreases n - pos,
    {
        let remaining = text.substring_char(pos, n);
        proof {
            assert(remaining@ =~= text@.skip(pos as int));
        }
        let nl = find_newline(remaining);
        proof {
            lemma_first_match(remaining@, newline_pred());
        }
        let line_len = match nl {
            Some(i) => i,
            None => remaining.unicode_len(),
        };
        let line = remaining.substring_char(0, line_len);
        let ghost st = SectionCounts {
            section: sec as int,
            breaking: breaking as int,
            features: features as int,
            fixes: fixes as int,
        };
        let ghost rem = text@.skip(pos as int);
        proof {
            lemma_first_match(rem, newline_pred());
            match nl {
                Some(i) => {
                    assert(lines_of(rem) =~= seq![rem.take(i as int)] + lines_of(
                        rem.skip(i + 1),
                    ));
                    assert(lines_of(rem).drop_first() =~= lines_of(rem.skip(i + 1)));
                    assert(lines_of(rem).first() == line@);
                },
                None => {
                    assert(lines_of(rem) =~= seq![rem]);
                    assert(lines_of(rem).drop_first() =~= Seq::<Seq<char>>::empty());
                    assert(lines_of(rem).first() == line@);
                },
            }
        }
        if str_eq(line, "### Breaking Changes") {
            sec = 1;
        } else if str_eq(line, "### Features") {
            sec = 2;
        } else if str_eq(line, "### Fixes") {
            sec = 3;
        } else if line_len >= 2 && line.get_char(0) == '-' && line.get_char(1) == ' ' {
            if sec == 1 {
                breaking += 1;
            } else if sec == 2 {
                features += 1;
            } else if sec == 3 {
                fixes += 1;
            }
        }
        match nl {
            Some(i) => {
                pos = pos + i + 1;
                proof {
                    assert(rem.skip(i + 1) =~= text@.skip(pos as int));
                }
            },
            None => {
                pos = n;
                proof {
                    assert(text@.skip(pos as int) =~= Seq::<char>::empty());
                }
            },
        }
    }
    proof {
        assert(text@.skip(pos as int) =~= Seq::<char>::empty());
    }
    (breaking, features, fixes)
}

/// The sequence holds no newline.
pub open spec fn single_line(s: Seq<char>) -> bool {
    forall|j: int| 0 <= j < s.len() ==> s[j] != '\n'
}

/// Every entry is a single line, as every composed summary is: a summary is
/// a commit's header line.
pub open spec fn newline_free(items: Seq<Seq<char>>) -> bool {
    forall|i: int| 0 <= i < items.len() ==> single_line(items[i])
}

/// The rendered line of one entry.
pub open spec fn bullet_text(item: Seq<char>) -> Seq<char> {
    "- "@ + item
}

/// The rendered lines of a section's entries.
pub open spec fn bullet_texts(items: Seq<Seq<char>>) -> Seq<Seq<char>> {
    items.map_values(|it: Seq<char>| bullet_text(it))
}

/// Splitting at newlines distributes over concatenation at a newline
/// boundary.
proof fn lemma_lines_concat(a: Seq<char>, b: Seq<char>)
    requires
        a.len() == 0 || a.last() == '\n',
    ensures
        lines_of(a + b) == lines_of(a) + lines_of(b),
    decreases a.len(),
{
    if a.len() == 0 {
        assert(a + b =~= b);
        assert(lines_of(a) + lines_of(b) =~= lines_of(b));
    } else {
        let s = a + b;
        lemma_first_match(a, newline_pred());
        match first_match(a, newline_pred()) {
            None => {
                assert(a[a.len() - 1] != '\n');
            },
            Some(i) => {
                assert(s[i] == a[i]);
                assert forall|j: int| 0 <= j < i implies !newline_pred()(s[j]) by {
                    assert(s[j] == a[j]);
                }
                lemma_first_match_unique(s, newline_pred(), i);
                assert(lines_of(s) == seq![s.take(i)] + lines_of(s.skip(i + 1)));
                assert(s.take(i) =~= a.take(i));
                let a2 = a.skip(i + 1);
                assert(s.skip(i + 1) =~= a2 + b);
                if a2.len() > 0 {
                    assert(a2.last() == a.last());
                }
                lemma_lines_concat(a2, b);
                assert(lines_of(a) == seq![a.take(i)] + lines_of(a2));
                assert(lines_of(s) =~= lines_of(a) + lines_of(b));
            },
        }
    }
}

/// A single line followed by a newline splits into exactly that line.
proof fn lemma_lines_single(a: Seq<char>)
    requires
        single_line(a),
    ensures
        lines_of(a + "\n"@) == seq![a],
{
    proof_strlit_newline();
    let s = a + "\n"@;
    assert(s[a.len() as int] == '\n');
    assert forall|j: int| 0 <= j < a.len() implies !newline_pred()(s[j]) by {
        assert(s[j] == a[j]);
    }
    lemma_first_match_unique(s, newline_pred(), a.len() as int);
    assert(lines_of(s) == seq![s.take(a.len() as int)] + lines_of(s.skip(a.len() as int + 1)));
    assert(s.take(a.len() as int) =~= a);
    assert(s.skip(a.len() as int + 1) =~= Seq::<char>::empty());
    assert(lines_of(s) =~= seq![a]);
}

/// The newline literal holds exactly one newline character.
proof fn proof_strlit_newline()
    ensures
        "\n"@.len() == 1,
        "\n"@[0] == '\n',
{
    reveal_strlit("\n");
}

/// Reading a single line applies one step.
proof fn lemma_run_single(line: Seq<char>, st: SectionCounts)
    ensures
        run_counts(seq![line], st) == count_step(st, line),
{
    let l = seq![line];
    assert(l.first() == line);
    assert(l.drop_first() =~= Seq::<Seq<char>>::empty());
    assert(run_counts(l, st) == run_counts(l.drop_first(), count_step(st, l.first())));
    assert(run_counts(Seq::<Seq<char>>::empty(), count_step(st, line)) == count_step(st, line));
}

/// Reading concatenated line sequences runs the reader through the first,
/// then the second.
proof fn lemma_run_counts_concat(l1: Seq<Seq<char>>, l2: Seq<Seq<char>>, st: SectionCounts)
    ensures
        run_counts(l1 + l2, st) == run_counts(l2, run_counts(l1, st)),
    decreases l1.len(),
{
    if l1.len() == 0 {
        assert(l1 + l2 =~= l2);
    } else {
        let s = l1 + l2;
        assert(s.len() > 0);
        assert(s.first() == l1.first());
        assert(s.drop_first() =~= l1.drop_first() + l2);
        lemma_run_counts_concat(l1.drop_first(), l2, count_step(st, l1.first()));
    }
}

/// The rendered entries of a section split into one line per entry, and the
/// rendered text ends with a newline.
proof fn lemma_bullet_lines_shape(items: Seq<Seq<char>>)
    requires
        newline_free(items),
    ensures
        lines_of(bullet_lines(items)) == bullet_texts(items),
        items.len() > 0 ==> bullet_lines(items).len() >= 1 && bullet_lines(items).last() == '\n',
    decreases items.len(),
{
    reveal_strlit("- ");
    proof_strlit_newline();
    if items.len() == 0 {
        assert(bullet_lines(items) =~= Seq::<char>::empty());
        assert(bullet_texts(items) =~= Seq::<Seq<char>>::empty());
    } else {
        let init = items.drop_last();
        assert forall|i: int| 0 <= i < init.len() implies single_line(init[i]) by {
            assert(init[i] == items[i]);
        }
        lemma_bullet_lines_shape(init);
        let last_line = bullet_text(items.last());
        assert(single_line(items.last()));
        assert forall|j: int| 0 <= j < last_line.len() implies last_line[j] != '\n' by {
            if j < 2 {
                assert(last_line[j] == "- "@[j]);
            } else {
                assert(last_line[j] == items.last()[j - 2]);
            }
        }
        let bl = bullet_lines(items);
        assert(bl == bullet_lines(init) + "- "@ + items.last() + "\n"@);
        assert(bl =~= bullet_lines(init) + (last_line + "\n"@));
        lemma_lines_single(last_line);
        lemma_lines_concat(bullet_lines(init), last_line + "\n"@);
        assert(lines_of(bl) == lines_of(bullet_lines(init)) + lines_of(last_line + "\n"@));
        assert(lines_of(bl) =~= bullet_texts(items));
        assert(bl.last() == (last_line + "\n"@).last());
        assert(bl.last() == '\n');
    }
}

/// A rendered section splits into its title line and one line per entry,
/// and ends with a newline when it is not empty.
proof fn lemma_section_lines(title_line: Seq<char>, title: Seq<char>, items: Seq<Seq<char>>)
    requires
        title == title_line + "\n"@,
        single_line(title_line),
        newline_free(items),
    ensures
        lines_of(section_text(title, items)) == (if items.len() == 0 {
            Seq::<Seq<char>>::empty()
        } else {
            seq![title_line] + bullet_texts(items)
        }),
        section_text(title, items).len() == 0 || section_text(title, items).last() == '\n',
{
    proof_strlit_newline();
    if items.len() == 0 {
        assert(section_text(title, items) =~= Seq::<char>::empty());
        assert(lines_of(section_text(title, items)) =~= Seq::<Seq<char>>::empty());
    } else {
        let s = section_text(title, items);
        assert(s == title + bullet_lines(items));
        lemma_lines_single(title_line);
        lemma_bullet_lines_shape(items);
        assert(title.last() == '\n');
        lemma_lines_concat(title, bullet_lines(items));
        assert(lines_of(s) == lines_of(title) + lines_of(bullet_lines(items)));
        assert(lines_of(s) =~= seq![title_line] + bullet_texts(items));
        assert(s.last() == bullet_lines(items).last());
    }
}

/// Reading a section's rendered entry lines adds their number to the
/// current section's count and touches nothing else.
proof fn lemma_run_bullets(items: Seq<Seq<char>>, st: SectionCounts)
    requires
        st.section == 1 || st.section == 2 || st.section == 3,
    ensures
        ({
            let r = run_counts(bullet_texts(items), st);
            &&& r.section == st.section
            &&& r.breaking == st.breaking + (if st.section == 1 {
                items.len() as int
            } else {
                0
            })
            &&& r.features == st.features + (if st.section == 2 {
                items.len() as int
            } else {
                0
            })
            &&& r.fixes == st.fixes + (if st.section == 3 {
                items.len() as int
            } else {
                0
            })
        }),
    decreases items.len(),
{
    reveal_strlit("- ");
    reveal_strlit("### Breaking Changes");
    reveal_strlit("### Features");
    reveal_strlit("### Fixes");
    let lines = bullet_texts(items);
    if items.len() == 0 {
        assert(lines =~= Seq::<Seq<char>>::empty());
    } else {
        let line = lines.first();
        assert(line == bullet_text(items[0]));
        assert(line[0] == "- "@[0]);
        assert(line[1] == "- "@[1]);
        assert(line.len() >= 2 && line[0] == '-' && line[1] == ' ');
        assert(line != "### Breaking Changes"@) by {
            if line == "### Breaking Changes"@ {
                assert(line[0] == '#');
            }
        }
        assert(line != "### Features"@) by {
            if line == "### Features"@ {
                assert(line[0] == '#');
            }
        }
        assert(line != "### Fixes"@) by {
            if line == "### Fixes"@ {
                assert(line[0] == '#');
            }
        }
        let st1 = count_step(st, line);
        assert(st1.section == st.section);
        assert(lines.drop_first() =~= bullet_texts(items.drop_first()));
        lemma_run_bullets(items.drop_first(), st1);
        assert(run_counts(lines, st) == run_counts(lines.drop_first(), st1));
    }
}

/// Composing and rendering a changelog, then reading the text back, recovers
/// each section's entry count — for every changelog whose entries are single
/// lines, as every composed changelog's are: an entry is a commit's header
/// line.
pub proof fn lemma_render_then_parse(c: Changelog, v: Version)
    requires
        newline_free(c.breaking.deep_view()),
        newline_free(c.features.deep_view()),
        newline_free(c.fixes.deep_view()),
    ensures
        ({
            let st = run_counts(lines_of(render_spec(c, v)), initial_counts());
            &&& st.breaking == c.breaking.deep_view().len()
            &&& st.features == c.features.deep_view().len()
            &&& st.fixes == c.fixes.deep_view().len()
        }),
{
    reveal_strlit("## v");
    reveal_strlit("### Breaking Changes");
    reveal_strlit("### Features");
    reveal_strlit("### Fixes");
    reveal_strlit("### Breaking Changes\n");
    reveal_strlit("### Features\n");
    reveal_strlit("### Fixes\n");
    proof_strlit_newline();
    let b = c.breaking.deep_view();
    let f = c.features.deep_view();
    let x = c.fixes.deep_view();
    let header_line = "## v"@ + version_chars(v);
    let header = header_line + "\n"@;
    let s1 = section_text("### Breaking Changes\n"@, b);
    let s2 = section_text("### Features\n"@, f);
    let s3 = section_text("### Fixes\n"@, x);
    assert(render_spec(c, v) =~= header + (s1 + (s2 + s3)));

    lemma_version_chars_no_newline(v);
    assert forall|j: int| 0 <= j < header_line.len() implies header_line[j] != '\n' by {
        if j < 4 {
            assert(header_line[j] == "## v"@[j]);
        } else {
            assert(header_line[j] == version_chars(v)[j - 4]);
        }
    }
    lemma_lines_single(header_line);
    assert(header.last() == '\n');

    assert("### Breaking Changes\n"@ =~= "### Breaking Changes"@ + "\n"@);
    assert("### Features\n"@ =~= "### Features"@ + "\n"@);
    assert("### Fixes\n"@ =~= "### Fixes"@ + "\n"@);
    lemma_section_lines("### Breaking Changes"@, "### Breaking Changes\n"@, b);
    lemma_section_lines("### Features"@, "### Features\n"@, f);
    lemma_section_lines("### Fixes"@, "### Fixes\n"@, x);

    lemma_lines_concat(header, s1 + (s2 + s3));
    lemma_lines_concat(s1, s2 + s3);
    lemma_lines_concat(s2, s3);
    let l0 = lines_of(header);
    let l1 = lines_of(s1);
    let l2 = lines_of(s2);
    let l3 = lines_of(s3);
    assert(lines_of(render_spec(c, v)) =~= l0 + (l1 + (l2 + l3)));
    assert(l0 == seq![header_line]);

    let st0 = initial_counts();
    lemma_run_counts_concat(l0, l1 + (l2 + l3), st0);
    let sth = run_counts(l0, st0);
    lemma_run_single(header_line, st0);
    assert(sth == count_step(st0, header_line));
    assert(header_line != "### Breaking Changes"@) by {
        if header_line == "### Breaking Changes"@ {
            assert(header_line[2] == "## v"@[2]);
            assert(header_line[2] == '#');
        }
    }
    assert(header_line != "### Features"@) by {
        if header_line == "### Features"@ {
            assert(header_line[2] == "## v"@[2]);
            assert(header_line[2] == '#');
        }
    }
    assert(header_line != "### Fixes"@) by {
        if header_line == "### Fixes"@ {
            assert(header_line[2] == "## v"@[2]);
            assert(header_line[2] == '#');
        }
    }
    assert(header_line[0] == '#');
    assert(sth == st0);

    lemma_run_counts_concat(l1, l2 + l3, sth);
    let st1 = run_counts(l1, sth);
    if b.len() == 0 {
        assert(st1 == sth);
    } else {
        assert(l1 == seq!["### Breaking Changes"@] + bullet_texts(b));
        let stt = count_step(sth, "### Breaking Changes"@);
        assert(stt.section == 1 && stt.breaking == sth.breaking && stt.features == sth.features
            && stt.fixes == sth.fixes);
        lemma_run_counts_concat(seq!["### Breaking Changes"@], bullet_texts(b), sth);
        lemma_run_single("### Breaking Changes"@, sth);
        assert(run_counts(seq!["### Breaking Changes"@], sth) == stt);
        lemma_run_bullets(b, stt);
    }
    assert(st1.breaking == b.len() && st1.features == 0 && st1.fixes == 0);

    lemma_run_counts_concat(l2, l3, st1);
    let st2 = run_counts(l2, st1);
    if f.len() == 0 {
        assert(st2 == st1);
    } else {
        assert(l2 == seq!["### Features"@] + bullet_texts(f));
        let stt = count_step(st1, "### Features"@);
        assert(stt.section == 2 && stt.breaking == st1.breaking && stt.features == st1.features
            && stt.fixes == st1.fixes);
        lemma_run_counts_concat(seq!["### Features"@], bullet_texts(f), st1);
        lemma_run_single("### Features"@, st1);
        assert(run_counts(seq!["### Features"@], st1) == stt);
        lemma_run_bullets(f, stt);
    }
    assert(st2.breaking == b.len() && st2.features == f.len() && st2.fixes == 0);

    let st3 = run_counts(l3, st2);
    if x.len() == 0 {
        assert(st3 == st2);
    } else {
        assert(l3 == seq!["### Fixes"@] + bullet_texts(x));
        let stt = count_step(st2, "### Fixes"@);
        assert(stt.section == 3 && stt.breaking == st2.breaking && stt.features == st2.features
            && stt.fixes == st2.fixes);
        lemma_run_counts_concat(seq!["### Fixes"@], bullet_texts(x), st2);
        lemma_run_single("### Fixes"@, st2);
        assert(run_counts(seq!["### Fixes"@], st2) == stt);
        lemma_run_bullets(x, stt);
    }
    assert(st3.breaking == b.len() && st3.features == f.len() && st3.fixes == x.len());
    assert(run_counts(lines_of(render_spec(c, v)), st0) == st3);
}

} // verus!
