use vstd::prelude::*;
use vstd::string::StringExecFns;

use crate::error::Error;

verus! {

/// The two symbolic version names of the remote manifest.
pub struct Latest {
    pub snapshot: String,
    pub release: String,
}

/// The resolved content of the remote version manifest:
/// `{ "latest": { "release": ..., "snapshot": ... } }`.
///
/// The manifest is fetched fresh on every resolution that needs it; nothing
/// here is cached, so it may differ between two calls of the same process.
pub struct Manifest {
    pub latest: Latest,
}

/// Whether a requested version string is symbolic, i.e. must be substituted
/// from the remote manifest rather than used as a concrete version.
pub open spec fn spec_is_symbolic(requested: Seq<char>) -> bool {
    requested == "release"@ || requested == "snapshot"@
}

/// What `resolve` returns for a requested version, given whether a manifest
/// was available and what it held.
pub open spec fn spec_resolve(
    requested: Seq<char>,
    manifest: Option<Manifest>,
) -> Result<Seq<char>, Error> {
    if requested == "release"@ {
        match manifest {
            Some(m) => Ok(m.latest.release@),
            None => Err(Error::ManifestUnavailable),
        }
    } else if requested == "snapshot"@ {
        match manifest {
            Some(m) => Ok(m.latest.snapshot@),
            None => Err(Error::ManifestUnavailable),
        }
    } else {
        Ok(requested)
    }
}

/// True when resolving `requested` requires the remote manifest.
///
/// The caller fetches the manifest only when this returns true; any other
/// string is already concrete and is resolved without a network transfer.
pub fn needs_manifest(requested: &String) -> (r: bool)
    ensures
        r == spec_is_symbolic(requested@),
{
    *requested == String::from_str("release") || *requested == String::from_str("snapshot")
}

/// Resolve a symbolic or concrete version string to a concrete version.
///
/// `"release"` and `"snapshot"` are substituted from the manifest; any other
/// string is returned unchanged, with no validation against the manifest.
/// A symbolic request without a manifest fails with `ManifestUnavailable`,
/// and that is the only failure.
pub fn resolve(requested: &String, manifest: Option<&Manifest>) -> (r: Result<String, Error>)
    ensures
        match spec_resolve(requested@, match manifest {
            Some(m) => Some(*m),
            None => None,
        }) {
            Ok(v) => r matches Ok(s) && s@ == v,
            Err(e) => r matches Err(a) && a == e,
        },
{
    if *requested == String::from_str("release") {
        match manifest {
            Some(m) => Ok(m.latest.release.clone()),
            None => Err(Error::ManifestUnavailable),
        }
    } else if *requested == String::from_str("snapshot") {
        match manifest {
            Some(m) => Ok(m.latest.snapshot.clone()),
            None => Err(Error::ManifestUnavailable),
        }
    } else {
        Ok(requested.clone())
    }
}

} // verus!
