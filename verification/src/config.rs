//! The validated, immutable pipeline configuration, and the reading of the
//! yes/no command-line switches.

use vstd::prelude::*;

use crate::text::str_eq;

verus! {

/// A required setting that was missing when the configuration was built.
#[derive(Clone, Copy, Debug, PartialEq, Eq, Structural)]
pub enum ConfigError {
    MissingUser,
    MissingRepositoryName,
    MissingGhToken,
    MissingCargoToken,
}

/// The pipeline's configuration: validated once, never mutated afterwards.
/// The remote settings are present only when write-and-release mode
/// requires them.
pub struct PipelineConfig {
    pub repository_path: String,
    pub branch: String,
    pub dry_run: bool,
    pub release_mode: bool,
    pub committer_name: String,
    pub committer_email: String,
    pub user: Option<String>,
    pub repository_name: Option<String>,
    pub gh_token: Option<String>,
    pub cargo_token: Option<String>,
}

/// Remote settings are required exactly when the pipeline both writes and
/// releases.
pub open spec fn needs_remote(dry_run: bool, release_mode: bool) -> bool {
    !dry_run && release_mode
}

/// The first missing remote setting, in the order they are gathered.
pub open spec fn first_missing(
    user: Option<String>,
    repository_name: Option<String>,
    gh_token: Option<String>,
    cargo_token: Option<String>,
) -> Option<ConfigError> {
    if user is None {
        Some(ConfigError::MissingUser)
    } else if repository_name is None {
        Some(ConfigError::MissingRepositoryName)
    } else if gh_token is None {
        Some(ConfigError::MissingGhToken)
    } else if cargo_token is None {
        Some(ConfigError::MissingCargoToken)
    } else {
        None
    }
}

/// Assembles and validates the configuration: in write-and-release mode
/// every remote setting must be present; otherwise the remote settings are
/// carried along as given. No field is mutated after assembly.
pub fn build_config(
    repository_path: String,
    branch: String,
    dry_run: bool,
    release_mode: bool,
    committer_name: String,
    committer_email: String,
    user: Option<String>,
    repository_name: Option<String>,
    gh_token: Option<String>,
    cargo_token: Option<String>,
) -> (r: Result<PipelineConfig, ConfigError>)
    ensures
        match r {
            Ok(c) => {
                &&& (needs_remote(dry_run, release_mode) ==> first_missing(
                    user,
                    repository_name,
                    gh_token,
                    cargo_token,
                ) is None)
                &&& c.repository_path == repository_path
                &&& c.branch == branch
                &&& c.dry_run == dry_run
                &&& c.release_mode == release_mode
                &&& c.committer_name == committer_name
                &&& c.committer_email == committer_email
                &&& c.user == user
                &&& c.repository_name == repository_name
                &&& c.gh_token == gh_token
                &&& c.cargo_token == cargo_token
            },
            Err(e) => needs_remote(dry_run, release_mode) && Some(e) == first_missing(
                user,
                repository_name,
                gh_token,
                cargo_token,
            ),
        },
{
    if !dry_run && release_mode {
        if user.is_none() {
            return Err(ConfigError::MissingUser);
        }
        if repository_name.is_none() {
            return Err(ConfigError::MissingRepositoryName);
        }
        if gh_token.is_none() {
            return Err(ConfigError::MissingGhToken);
        }
        if cargo_token.is_none() {
            return Err(ConfigError::MissingCargoToken);
        }
    }
    Ok(
        PipelineConfig {
            repository_path,
            branch,
            dry_run,
            release_mode,
            committer_name,
            committer_email,
            user,
            repository_name,
            gh_token,
            cargo_token,
        },
    )
}

/// Whether a run is a dry run: never inside CI, and otherwise exactly when
/// writing was not asked for.
pub fn dry_run_for(in_ci: bool, write: bool) -> (r: bool)
    ensures
        r == (!in_ci && !write),
{
    if in_ci {
        false
    } else {
        !write
    }
}

/// What `str::to_lowercase` returns: the lowercase form of a string, a
/// function of its characters alone.
pub uninterp spec fn lower_of(s: Seq<char>) -> Seq<char>;

/// Relies on `str::to_lowercase` from std: the result depends on the
/// characters of `s` alone.
#[verifier::external_body]
fn lowercase(s: &str) -> (r: String)
    ensures
        r@ == lower_of(s@),
{
    s.to_lowercase()
}

/// An answer means yes exactly when it lowercases to `yes`, `true` or `1`;
/// everything else, `no` and `false` and `0` among them, means no.
pub open spec fn string_to_bool_spec(answer: Seq<char>) -> bool {
    lower_of(answer) == "yes"@ || lower_of(answer) == "true"@ || lower_of(answer) == "1"@
}

/// Reads a yes/no command-line answer.
pub fn string_to_bool(answer: &str) -> (r: bool)
    ensures
        r == string_to_bool_spec(answer@),
{
    let lower = lowercase(answer);
    str_eq(lower.as_str(), "yes") || str_eq(lower.as_str(), "true") || str_eq(lower.as_str(), "1")
}

} // verus!
