//! Extraction of the GitHub user and repository name from the `origin`
//! remote's URL.

use vstd::prelude::*;

use crate::text::{contains_seq, contains_substr, str_eq};

verus! {

/// What `url::Url::parse` followed by `url::Url::path_segments` yields for
/// a URL string: the path split at `/`, absent when the string is not a
/// valid URL or the URL cannot have segments.
pub uninterp spec fn url_path_segments(s: Seq<char>) -> Option<Seq<Seq<char>>>;

/// Relies on `url::Url::parse` and `url::Url::path_segments` from the url
/// crate: parses the string and hands back the path segments, `None` when
/// parsing fails or the URL is cannot-be-a-base.
#[verifier::external_body]
fn parse_path_segments(s: &str) -> (r: Option<Vec<String>>)
    ensures
        match url_path_segments(s@) {
            Some(segs) => r is Some && r.unwrap().deep_view() == segs,
            None => r is None,
        },
{
    match url::Url::parse(s) {
        Ok(u) => match u.path_segments() {
            Some(it) => Some(it.map(|p| p.to_string()).collect()),
            None => None,
        },
        Err(_) => None,
    }
}

/// The repository segment ends with `.git`.
pub open spec fn ends_with_git(seg: Seq<char>) -> bool {
    seg.len() >= 4 && seg.skip(seg.len() - 4) == ".git"@
}

/// The repository name a path segment denotes: a trailing `.git` is
/// stripped; `.git` anywhere else is rejected; anything else is taken as
/// it stands.
pub open spec fn repo_name_spec(seg: Seq<char>) -> Option<Seq<char>> {
    if ends_with_git(seg) {
        Some(seg.take(seg.len() - 4))
    } else if contains_seq(seg, ".git"@) {
        None
    } else {
        Some(seg)
    }
}

/// The user and repository a URL's path denotes: its first two segments,
/// the second cleansed of its `.git` suffix.
pub open spec fn user_repo_spec(segs: Seq<Seq<char>>) -> Option<(Seq<char>, Seq<char>)> {
    if segs.len() < 2 {
        None
    } else {
        match repo_name_spec(segs[1]) {
            None => None,
            Some(name) => Some((segs[0], name)),
        }
    }
}

/// Extracts the user and repository name from a remote URL: the first two
/// path segments, with a trailing `.git` stripped from the repository.
/// Errors: an unparsable URL, a path of fewer than two segments, and a
/// repository segment holding `.git` anywhere but at its end.
pub fn user_repo_from_url(url: &str) -> (r: Result<(String, String), String>)
    ensures
        match url_path_segments(url@) {
            None => r is Err && (r->Err_0)@ == "Remote URL can't be parsed"@,
            Some(segs) => match user_repo_spec(segs) {
                Some(pair) => r is Ok && (r->Ok_0).0@ == pair.0 && (r->Ok_0).1@ == pair.1,
                None => r is Err && (if segs.len() < 2 {
                    (r->Err_0)@ == "URL should contain user and repository"@
                } else {
                    (r->Err_0)@ == "URL does not point to a git repository"@
                }),
            },
        },
{
    let segs = match parse_path_segments(url) {
        None => {
            return Err("Remote URL can't be parsed".to_owned());
        },
        Some(segs) => segs,
    };
    if segs.len() < 2 {
        proof {
            let ghost dv = url_path_segments(url@).unwrap();
            assert(dv.len() == segs.deep_view().len());
        }
        return Err("URL should contain user and repository".to_owned());
    }
    let ghost dv = url_path_segments(url@).unwrap();
    proof {
        assert(dv[0] == segs.deep_view()[0]);
        assert(dv[1] == segs.deep_view()[1]);
    }
    let user = segs[0].clone();
    let seg = &segs[1];
    let n = seg.as_str().unicode_len();
    if n >= 4 {
        let tail = seg.as_str().substring_char(n - 4, n);
        if str_eq(tail, ".git") {
            let name = seg.as_str().substring_char(0, n - 4).to_owned();
            proof {
                assert(tail@ =~= dv[1].skip(dv[1].len() - 4));
                assert(ends_with_git(dv[1]));
                assert(name@ =~= dv[1].take(dv[1].len() - 4));
            }
            return Ok((user, name));
        }
        proof {
            assert(tail@ =~= dv[1].skip(dv[1].len() - 4));
            assert(!ends_with_git(dv[1]));
        }
    } else {
        proof {
            assert(!ends_with_git(dv[1]));
        }
    }
    if contains_substr(seg.as_str(), ".git") {
        return Err("URL does not point to a git repository".to_owned());
    }
    Ok((user, seg.clone()))
}

} // verus!
