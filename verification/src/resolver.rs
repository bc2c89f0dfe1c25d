//! The plugin resolver's decisions: locator validation, cache-directory
//! naming, reuse of an existing materialization, artifact classification,
//! and repository-URL recognition.  The fetching, cloning and unpacking
//! around these decisions is input/output and stays with the application.

use vstd::prelude::*;

use crate::metadata::{PluginLocator, PluginManifest};
use crate::text::{ends_with, split, split_string, str_ends_with, str_eq};

verus! {

/// What can go wrong while resolving or building a plugin.
#[derive(Debug, Clone)]
pub enum ResolveError {
    /// The materialized plugin carries no `Plugin.toml`.
    ManifestMissing,
    /// The manifest could not be parsed or lacks a field.
    ManifestMalformed { detail: String },
    /// A download failed.
    NetworkFailure { detail: String },
    /// A repository operation failed.
    VersionControlFailure { detail: String },
    /// A downloaded artifact is of no supported kind.
    UnsupportedArtifact { url: String },
    /// The guest toolchain lacks the component target.
    ToolchainMissing { target: String },
    /// The guest build exited with a failure.
    BuildFailed { status: i32 },
    /// No built component could be found.
    ArtifactMissing,
    /// The locator itself is contradictory or unusable.
    InvalidLocator { detail: String },
}

/// The invalid-locator law: a repository locator may pin a revision or
/// follow a branch, never both.
pub open spec fn locator_valid(l: PluginLocator) -> bool {
    match l {
        PluginLocator::Git { url: _, rev, branch } => !(rev is Some && branch is Some),
        _ => true,
    }
}

/// Checks a locator: rejected exactly when it sets both `rev` and
/// `branch`.
pub fn validate_locator(locator: &PluginLocator) -> (r: Result<(), ResolveError>)
    ensures
        r is Ok <==> locator_valid(*locator),
        r matches Err(e) ==> e is InvalidLocator,
{
    match locator {
        PluginLocator::Git { url: _, rev: Some(_), branch: Some(_) } => Err(
            ResolveError::InvalidLocator {
                detail: rev_and_branch_message(),
            },
        ),
        _ => Ok(()),
    }
}

fn rev_and_branch_message() -> (r: String)
    ensures
        r@ == "rev and branch cannot be set simultaneously"@,
{
    let mut s = String::new();
    s.append("rev and branch cannot be set simultaneously");
    s
}

/// The cache-directory character of a name character: path separators and
/// drive colons become dashes.
pub open spec fn norm_char(c: char) -> char {
    if c == '/' || c == '\\' || c == ':' {
        '-'
    } else {
        c
    }
}

/// The cache-directory name of a plugin name.
pub open spec fn normalized(s: Seq<char>) -> Seq<char> {
    Seq::new(s.len(), |i: int| norm_char(s[i]))
}

/// Maps a plugin name to its cache-directory name: separators and colons
/// become dashes, everything else stands.
pub fn normalize_name(name: &str) -> (r: String)
    ensures
        r@ == normalized(name@),
{
    let n = name.unicode_len();
    let mut out = String::new();
    let mut i: usize = 0;
    while i < n
        invariant
            n == name@.len(),
            i <= n,
            out@ == normalized(name@).take(i as int),
        decreases n - i,
    {
        let c = name.get_char(i);
        let m = if c == '/' || c == '\\' || c == ':' {
            '-'
        } else {
            c
        };
        crate::text::push_char(&mut out, m);
        proof {
            assert(out@ =~= normalized(name@).take(i + 1));
        }
        i = i + 1;
    }
    proof {
        assert(normalized(name@).take(n as int) =~= normalized(name@));
    }
    out
}

/// The kinds of plugin artifact a direct download may carry.
#[derive(Debug, Clone, PartialEq, Eq, Structural)]
pub enum ArtifactKind {
    /// A ready component binary, stored as `main.wasm`.
    Wasm,
    /// A gzipped tar archive, unpacked and flattened.
    TarGz,
    /// A zip archive, unpacked and flattened.
    Zip,
}

/// Classifies an artifact URL by suffix: `.wasm` is a component,
/// `.tar.gz` or `.tgz` a tarball, `.zip` a zip; anything else is
/// unsupported.
pub fn classify_artifact_url(url: &str) -> (r: Result<ArtifactKind, ResolveError>)
    ensures
        r == Ok::<ArtifactKind, ResolveError>(ArtifactKind::Wasm) <==> ends_with(url@, ".wasm"@),
        r == Ok::<ArtifactKind, ResolveError>(ArtifactKind::TarGz) <==> !ends_with(url@, ".wasm"@)
            && (ends_with(url@, ".tar.gz"@) || ends_with(url@, ".tgz"@)),
        r == Ok::<ArtifactKind, ResolveError>(ArtifactKind::Zip) <==> !ends_with(url@, ".wasm"@)
            && !(ends_with(url@, ".tar.gz"@) || ends_with(url@, ".tgz"@)) && ends_with(
            url@,
            ".zip"@,
        ),
        r matches Err(e) ==> e is UnsupportedArtifact && !ends_with(url@, ".wasm"@) && !ends_with(
            url@,
            ".tar.gz"@,
        ) && !ends_with(url@, ".tgz"@) && !ends_with(url@, ".zip"@),
{
    if str_ends_with(url, ".wasm") {
        Ok(ArtifactKind::Wasm)
    } else if str_ends_with(url, ".tar.gz") || str_ends_with(url, ".tgz") {
        Ok(ArtifactKind::TarGz)
    } else if str_ends_with(url, ".zip") {
        Ok(ArtifactKind::Zip)
    } else {
        Err(ResolveError::UnsupportedArtifact { url: url.to_owned() })
    }
}

/// The scheme of a URL: everything before the first `:`, when a `:` is
/// there at all.
pub open spec fn scheme_of(s: Seq<char>) -> Option<Seq<char>> {
    if split(s, ':').len() >= 2 {
        Some(split(s, ':')[0])
    } else {
        None
    }
}

/// Reads the scheme off a URL.
pub fn url_scheme(url: &str) -> (r: Option<String>)
    ensures
        match r {
            Some(s) => scheme_of(url@) == Some(s@),
            None => scheme_of(url@) is None,
        },
{
    let mut parts = split_string(url, ':');
    proof {
        crate::text::lemma_split_len(url@, ':', Seq::empty());
        assert(parts.deep_view().len() >= 1);
        assert(parts.deep_view()[0] == parts@[0]@);
    }
    if parts.len() >= 2 {
        let first = parts.remove(0);
        Some(first)
    } else {
        None
    }
}

/// Whether an existing materialization may be reused: never for a local
/// plugin, else exactly when the recorded locator stamp matches the
/// current one.
pub fn should_reuse(recorded: Option<&String>, stamp: &str, is_local: bool) -> (r: bool)
    ensures
        r == (!is_local && (recorded matches Some(s) && s@ == stamp@)),
{
    if is_local {
        return false;
    }
    match recorded {
        Some(s) => str_eq(s.as_str(), stamp),
        None => false,
    }
}

/// The canonical stamp of a locator, recorded beside a materialized
/// plugin so a later run can tell whether the declaration changed.
pub open spec fn locator_stamp_spec(l: PluginLocator) -> Seq<char> {
    match l {
        PluginLocator::Registry { version } => "{\"registry\":"@ + crate::text::quoted(version@)
            + seq!['}'],
        PluginLocator::Git { url, rev, branch } => "{\"git\":"@ + crate::text::quoted(url@)
            + ",\"rev\":"@ + crate::article::opt_json(crate::metadata::opt_view(rev))
            + ",\"branch\":"@ + crate::article::opt_json(crate::metadata::opt_view(branch))
            + seq!['}'],
        PluginLocator::Local { path } => "{\"path\":"@ + crate::text::quoted(path@) + seq!['}'],
        PluginLocator::ArtifactUrl { url } => "{\"url\":"@ + crate::text::quoted(url@)
            + seq!['}'],
    }
}

/// Writes the canonical stamp of a locator.
pub fn locator_stamp(locator: &PluginLocator) -> (r: String)
    ensures
        r@ == locator_stamp_spec(*locator),
{
    let mut out = String::new();
    match locator {
        PluginLocator::Registry { version } => {
            out.append("{\"registry\":");
            crate::text::append_quoted(&mut out, version.as_str());
            crate::text::push_char(&mut out, '}');
        },
        PluginLocator::Git { url, rev, branch } => {
            out.append("{\"git\":");
            crate::text::append_quoted(&mut out, url.as_str());
            out.append(",\"rev\":");
            append_opt_json(&mut out, rev);
            out.append(",\"branch\":");
            append_opt_json(&mut out, branch);
            crate::text::push_char(&mut out, '}');
        },
        PluginLocator::Local { path } => {
            out.append("{\"path\":");
            crate::text::append_quoted(&mut out, path.as_str());
            crate::text::push_char(&mut out, '}');
        },
        PluginLocator::ArtifactUrl { url } => {
            out.append("{\"url\":");
            crate::text::append_quoted(&mut out, url.as_str());
            crate::text::push_char(&mut out, '}');
        },
    }
    proof {
        assert(out@ =~= locator_stamp_spec(*locator));
    }
    out
}

fn append_opt_json(out: &mut String, v: &Option<String>)
    ensures
        final(out)@ == old(out)@ + crate::article::opt_json(crate::metadata::opt_view(*v)),
{
    match v {
        Some(s) => crate::text::append_quoted(out, s.as_str()),
        None => out.append("null"),
    }
}

/// Recognition of repository URLs whose releases are probed first: the
/// host must be exactly `github.com`, and the first two path segments name
/// the owner and the repository, a `.git` suffix dropped.
pub open spec fn github_coords(s: Seq<char>) -> Option<(Seq<char>, Seq<char>)> {
    let parts = split(s, '/');
    if parts.len() >= 5 && parts[1].len() == 0 && parts[2] == "github.com"@ && scheme_of(s)
        is Some {
        Some((parts[3], strip_git_suffix(parts[4])))
    } else {
        None
    }
}

pub open spec fn strip_git_suffix(s: Seq<char>) -> Seq<char> {
    if ends_with(s, ".git"@) {
        s.take(s.len() - 4)
    } else {
        s
    }
}

/// Reads the owner and repository off a repository URL when its host is
/// `github.com`.
pub fn parse_github(url: &str) -> (r: Option<(String, String)>)
    ensures
        match r {
            Some(p) => github_coords(url@) == Some((p.0@, p.1@)),
            None => github_coords(url@) is None,
        },
{
    let parts = split_string(url, '/');
    let ghost dv = parts.deep_view();
    proof {
        assert(dv.len() == parts@.len());
    }
    if parts.len() < 5 {
        return None;
    }
    proof {
        assert(dv[1] == parts@[1]@);
        assert(dv[2] == parts@[2]@);
        assert(dv[3] == parts@[3]@);
        assert(dv[4] == parts@[4]@);
    }
    if parts[1].as_str().unicode_len() != 0 {
        return None;
    }
    if !str_eq(parts[2].as_str(), "github.com") {
        return None;
    }
    if url_scheme(url).is_none() {
        return None;
    }
    let author = parts[3].clone();
    let repo_raw = parts[4].as_str();
    let repo = if str_ends_with(repo_raw, ".git") {
        proof {
            reveal_strlit(".git");
        }
        let n = repo_raw.unicode_len();
        repo_raw.substring_char(0, n - 4).to_owned()
    } else {
        repo_raw.to_owned()
    };
    proof {
        assert(repo@ == strip_git_suffix(dv[4]));
    }
    Some((author, repo))
}

/// A resolved plugin: its cache directory, its manifest, and whether a
/// built component already sits there.
#[derive(Debug, Clone)]
pub struct ResolvedPlugin {
    pub dir: String,
    pub manifest: PluginManifest,
    pub built: bool,
    pub force_build: bool,
}

impl ResolvedPlugin {
    pub fn manifest(&self) -> (r: &PluginManifest)
        ensures
            r == &self.manifest,
    {
        &self.manifest
    }

    pub fn dir(&self) -> (r: &str)
        ensures
            r@ == self.dir@,
    {
        self.dir.as_str()
    }

    /// The component binary inside the plugin directory.
    pub fn wasm_path(&self) -> (r: String)
        ensures
            r@ == self.dir@ + "/main.wasm"@,
    {
        let mut out = String::new();
        out.append(self.dir.as_str());
        out.append("/main.wasm");
        out
    }

    pub fn is_built(&self) -> (r: bool)
        ensures
            r == self.built,
    {
        self.built
    }

    /// Whether a build must run: always for a local plugin, else only
    /// when no component is there yet.
    pub fn needs_build(&self) -> (r: bool)
        ensures
            r == (!self.built || self.force_build),
    {
        !self.built || self.force_build
    }
}

} // verus!
