//! The shapes a manifest's dependency entries reduce to, and the rules
//! that read and rewrite them.
//!
//! The host parses the manifest with its TOML editor and hands each
//! dependency entry here as a plain shape; the decisions — what a shape
//! means, and what key and value a new source writes back — are made and
//! proved here.

use vstd::prelude::*;

verus! {

/// Where a dependency comes from: a released version, or a local path.
#[derive(Clone, PartialEq, Debug)]
pub enum DepSource {
    Crates { version: String },
    Local { path: String },
}

impl DepSource {
    /// Whether the source is a released version.
    pub fn is_crate(&self) -> (r: bool)
        ensures
            r == (self is Crates),
    {
        match self {
            DepSource::Crates { .. } => true,
            _ => false,
        }
    }

    /// Whether the source is a local path.
    pub fn is_local(&self) -> (r: bool)
        ensures
            r == (self is Local),
    {
        match self {
            DepSource::Local { .. } => true,
            _ => false,
        }
    }

    /// The released version, if that is what the source is.
    pub fn crate_version(&self) -> (r: Option<&str>)
        ensures
            match r {
                Some(v) => self matches DepSource::Crates { version } && v@ == version@,
                None => self is Local,
            },
    {
        match self {
            DepSource::Crates { version } => Some(version.as_str()),
            _ => None,
        }
    }

    /// The local path, if that is what the source is.
    pub fn local_path(&self) -> (r: Option<&str>)
        ensures
            match r {
                Some(p) => self matches DepSource::Local { path } && p@ == path@,
                None => self is Crates,
            },
    {
        match self {
            DepSource::Local { path } => Some(path.as_str()),
            _ => None,
        }
    }
}

/// Identifying key of a manifest dependency.
#[derive(Clone, PartialEq, Eq, Debug, Hash)]
pub struct DepKey {
    pub key: String,
}

/// One dependency as read from the manifest: the entry's key, the
/// package name it resolves to, and its source.
#[derive(Clone, PartialEq, Debug)]
pub struct Dep {
    pub key: String,
    pub package: String,
    pub source: DepSource,
}

impl Dep {
    /// The package name.
    pub fn package(&self) -> (p: &str)
        ensures
            p@ == self.package@,
    {
        self.package.as_str()
    }

    /// The dependency key.
    pub fn key(&self) -> (k: DepKey)
        ensures
            k.key@ == self.key@,
    {
        DepKey { key: self.key.clone() }
    }

    /// The package source.
    pub fn source(&self) -> (s: &DepSource)
        ensures
            s == &self.source,
    {
        &self.source
    }
}

/// The shape of one dependency entry in the manifest: a bare version
/// string, a table with its relevant fields, or something else entirely.
#[derive(Clone, PartialEq, Debug)]
#[allow(inconsistent_fields)]
pub enum DepEntry {
    Version { version: String },
    Table { package: Option<String>, version: Option<String>, path: Option<String> },
    Other,
}

/// What a dependency entry means. A bare string is a released version
/// under the entry's own key. A table names its package (the key where
/// it does not), and a `version` wins over a `path`; a table with
/// neither is no dependency this tool understands, nor is any other
/// shape.
pub fn parse_dep(key: &str, entry: &DepEntry) -> (r: Option<Dep>)
    ensures
        match entry {
            DepEntry::Version { version } => r matches Some(d) && d.key@ == key@ && d.package@
                == key@ && d.source == (DepSource::Crates { version: *version }),
            DepEntry::Table { package, version, path } => {
                let pkg = match package {
                    Some(p) => p@,
                    None => key@,
                };
                match version {
                    Some(v) => r matches Some(d) && d.key@ == key@ && d.package@ == pkg
                        && d.source == (DepSource::Crates { version: *v }),
                    None => match path {
                        Some(p) => r matches Some(d) && d.key@ == key@ && d.package@ == pkg
                            && d.source == (DepSource::Local { path: *p }),
                        None => r is None,
                    },
                }
            },
            DepEntry::Other => r is None,
        },
{
    match entry {
        DepEntry::Version { version } => Some(
            Dep {
                key: key.to_owned(),
                package: key.to_owned(),
                source: DepSource::Crates { version: version.clone() },
            },
        ),
        DepEntry::Table { package, version, path } => {
            let pkg = match package {
                Some(p) => p.clone(),
                None => key.to_owned(),
            };
            match version {
                Some(v) => Some(
                    Dep {
                        key: key.to_owned(),
                        package: pkg,
                        source: DepSource::Crates { version: v.clone() },
                    },
                ),
                None => match path {
                    Some(p) => Some(
                        Dep {
                            key: key.to_owned(),
                            package: pkg,
                            source: DepSource::Local { path: p.clone() },
                        },
                    ),
                    None => None,
                },
            }
        },
        DepEntry::Other => None,
    }
}

/// The manifest key and value a source writes back into its entry:
/// `version` for a released version, `path` for a local path.
pub fn source_entry(source: &DepSource) -> (kv: (String, String))
    ensures
        match source {
            DepSource::Crates { version } => kv.0@ == "version"@ && kv.1@ == version@,
            DepSource::Local { path } => kv.0@ == "path"@ && kv.1@ == path@,
        },
{
    match source {
        DepSource::Crates { version } => ("version".to_owned(), version.clone()),
        DepSource::Local { path } => ("path".to_owned(), path.clone()),
    }
}

} // verus!
