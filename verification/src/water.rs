//! The workspace-level plugin configuration of the `Water.toml` format:
//! raw entries as the file carries them, and their resolution into
//! concrete plugin specifications with the untagged first-match rule.

use vstd::prelude::*;

use crate::metadata::PluginKind;

verus! {

/// Preferred build workflow for resolving a plugin.
#[derive(Debug, Clone, Copy, PartialEq, Eq, Structural)]
pub enum BuildMode {
    /// Expect a precompiled component.
    Precompiled,
    /// Build the plugin from its own project.
    Cargo,
}

/// Where a plugin of this configuration is fetched from.
#[derive(Debug, Clone)]
pub enum PluginLocator {
    Registry { version: String },
    Git { repo: String, rev: Option<String>, is_github: bool },
    Local { path: String },
}

/// A raw entry as the configuration file carries it: either a bare
/// version string, or a detailed table.
#[derive(Debug, Clone)]
pub enum PluginEntryRaw {
    Simple { version: String },
    Detailed {
        declared_kind: Option<PluginKind>,
        mode: Option<BuildMode>,
        version: Option<String>,
        github: Option<String>,
        repo: Option<String>,
        rev: Option<String>,
        path: Option<String>,
    },
}

/// A concrete plugin specification.
#[derive(Debug, Clone)]
pub struct PluginSpec {
    pub name: String,
    pub declared_kind: Option<PluginKind>,
    pub mode: BuildMode,
    pub locator: PluginLocator,
}

/// A field a configuration entry is missing.
#[derive(Debug, Clone, PartialEq, Eq, Structural)]
pub enum WaterField {
    /// A version was named but blank.
    BlankVersion,
    /// No source at all was named.
    NoSource,
}

/// The workspace plugin configuration: named entries in file order.
#[derive(Debug, Clone)]
pub struct WaterToml {
    pub entries: Vec<(String, PluginEntryRaw)>,
}

impl PluginSpec {
    /// A specification from a bare version string: a registry plugin with
    /// the default build mode; a blank version is rejected.
    pub fn from_version(name: String, version: String) -> (r: Result<PluginSpec, WaterField>)
        ensures
            match r {
                Ok(spec) => !crate::metadata::is_blank(version@) && spec.name == name
                    && spec.declared_kind is None && spec.mode == BuildMode::Precompiled && (
                spec.locator matches PluginLocator::Registry { version: v } && v == version),
                Err(_) => crate::metadata::is_blank(version@),
            },
    {
        if crate::metadata::str_is_blank(version.as_str()) {
            return Err(WaterField::BlankVersion);
        }
        Ok(
            PluginSpec {
                name,
                declared_kind: None,
                mode: BuildMode::Precompiled,
                locator: PluginLocator::Registry { version },
            },
        )
    }

    /// A specification from a detailed entry, by first match: a version
    /// names the registry, a path the local tree, a `github` coordinate or
    /// a plain repository a repository; an entry naming none is rejected.
    pub fn try_from_entry(
        name: String,
        declared_kind: Option<PluginKind>,
        mode: Option<BuildMode>,
        version: Option<String>,
        github: Option<String>,
        repo: Option<String>,
        rev: Option<String>,
        path: Option<String>,
    ) -> (r: Result<PluginSpec, WaterField>)
        ensures
            r matches Ok(spec) ==> spec.name == name && spec.declared_kind == declared_kind
                && spec.mode == (match mode {
                Some(m) => m,
                None => BuildMode::Precompiled,
            }),
            match version {
                Some(v) => if crate::metadata::is_blank(v@) {
                    r == Err::<PluginSpec, WaterField>(WaterField::BlankVersion)
                } else {
                    r matches Ok(spec) && (spec.locator matches PluginLocator::Registry {
                        version: v2,
                    } && v2 == v)
                },
                None => match path {
                    Some(p) => r matches Ok(spec) && (spec.locator matches PluginLocator::Local {
                        path: p2,
                    } && p2 == p),
                    None => match github {
                        Some(g) => r matches Ok(spec) && (spec.locator
                            matches PluginLocator::Git { repo: g2, rev: rv, is_github: ig } && g2
                            == g && rv == rev && ig == true),
                        None => match repo {
                            Some(rp) => r matches Ok(spec) && (spec.locator
                                matches PluginLocator::Git { repo: rp2, rev: rv, is_github: ig }
                                && rp2 == rp && rv == rev && ig == false),
                            None => r == Err::<PluginSpec, WaterField>(WaterField::NoSource),
                        },
                    },
                },
            },
    {
        let mode = match mode {
            Some(m) => m,
            None => BuildMode::Precompiled,
        };
        let locator = match (version, path, github, repo) {
            (Some(v), _, _, _) => {
                if crate::metadata::str_is_blank(v.as_str()) {
                    return Err(WaterField::BlankVersion);
                }
                PluginLocator::Registry { version: v }
            },
            (None, Some(p), _, _) => PluginLocator::Local { path: p },
            (None, None, Some(g), _) => PluginLocator::Git { repo: g, rev, is_github: true },
            (None, None, None, Some(rp)) => PluginLocator::Git {
                repo: rp,
                rev,
                is_github: false,
            },
            (None, None, None, None) => {
                return Err(WaterField::NoSource);
            },
        };
        Ok(PluginSpec { name, declared_kind, mode, locator })
    }
}

impl WaterToml {
    /// Resolves every declared entry, in order; the first invalid entry
    /// rejects the whole configuration, as the file format demands.
    pub fn plugins(self) -> (r: Result<Vec<PluginSpec>, WaterField>)
        ensures
            r matches Ok(specs) ==> specs@.len() == self.entries@.len(),
    {
        let ghost n = self.entries@.len();
        let mut specs: Vec<PluginSpec> = Vec::new();
        let mut entries = self.entries;
        let total: usize = entries.len();
        let mut consumed: usize = 0;
        loop
            invariant_except_break
                specs@.len() == consumed,
                consumed + entries@.len() == total,
                total == n,
            ensures
                specs@.len() == n,
            decreases entries@.len(),
        {
            if entries.len() == 0 {
                break ;
            }
            let (name, entry) = entries.remove(0);
            let spec = match entry {
                PluginEntryRaw::Simple { version } => PluginSpec::from_version(name, version),
                PluginEntryRaw::Detailed {
                    declared_kind,
                    mode,
                    version,
                    github,
                    repo,
                    rev,
                    path,
                } => PluginSpec::try_from_entry(
                    name,
                    declared_kind,
                    mode,
                    version,
                    github,
                    repo,
                    rev,
                    path,
                ),
            };
            match spec {
                Ok(s) => specs.push(s),
                Err(e) => {
                    return Err(e);
                },
            }
            consumed = consumed + 1;
        }
        Ok(specs)
    }
}

} // verus!
