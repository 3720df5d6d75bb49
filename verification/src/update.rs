use vstd::prelude::*;
use vstd::string::StringExecFns;

use crate::error::Error;
use crate::version::{resolve, spec_is_symbolic, spec_resolve, Manifest};

verus! {

/// The view of an optional installed-version marker.
pub open spec fn spec_installed(installed: Option<String>) -> Option<Seq<char>> {
    match installed {
        Some(v) => Some(v@),
        None => None,
    }
}

/// Whether a run with this resolved version must download the binary:
/// exactly when no marker is present or the marker names another version.
pub open spec fn spec_needs_download(resolved: Seq<char>, installed: Option<Seq<char>>) -> bool {
    match installed {
        Some(v) => v != resolved,
        None => true,
    }
}

/// The marker a run persists once it reaches `Synced`: always the resolved
/// version, whether or not a download happened.
pub open spec fn spec_marker_after(resolved: Seq<char>) -> Seq<char> {
    resolved
}

/// Idempotent update: a run that resolves to `resolved` leaves a marker
/// equal to `resolved`; a second run resolving to the same version finds
/// that marker, performs zero downloads, and persists the same marker.
pub proof fn lemma_update_idempotent(resolved: Seq<char>, installed: Option<Seq<char>>)
    ensures
        !spec_needs_download(resolved, Some(spec_marker_after(resolved))),
        spec_marker_after(spec_marker_after(resolved)) == spec_marker_after(resolved),
{
}

/// The phases of one update run.
#[derive(Clone, Copy, PartialEq, Eq, Structural, Debug)]
pub enum UpdatePhase {
    /// The requested version has not been resolved yet.
    Unresolved,
    /// A concrete version is known; the binary may still be missing.
    Resolved,
    /// Binary and marker agree with the resolved version.
    Synced,
}

/// One update run: resolve, compare with the installed marker, download
/// only on a mismatch, then persist the resolved version as the new marker.
///
/// The caller performs the fetches this run asks for and reports back;
/// every decision in between is made here.
pub struct UpdatePipeline {
    requested: String,
    resolved: Option<String>,
    phase: UpdatePhase,
}

impl UpdatePipeline {
    /// The version string the run was asked for, symbolic or concrete.
    pub closed spec fn requested(&self) -> Seq<char> {
        self.requested@
    }

    /// The concrete version, once resolved.
    pub closed spec fn resolved(&self) -> Seq<char> {
        self.resolved->Some_0@
    }

    pub closed spec fn phase(&self) -> UpdatePhase {
        self.phase
    }

    /// A run past `Unresolved` always carries its concrete version.
    pub closed spec fn wf(&self) -> bool {
        self.phase != UpdatePhase::Unresolved ==> self.resolved is Some
    }

    /// Start a run for a requested version.
    pub fn new(requested: String) -> (r: UpdatePipeline)
        ensures
            r.requested() == requested@,
            r.phase() == UpdatePhase::Unresolved,
            r.wf(),
    {
        UpdatePipeline { requested, resolved: None, phase: UpdatePhase::Unresolved }
    }

    /// Whether resolving the requested version needs the remote manifest.
    pub fn wants_manifest(&self) -> (r: bool)
        ensures
            r == spec_is_symbolic(self.requested()),
    {
        crate::version::needs_manifest(&self.requested)
    }

    /// Resolve the requested version against the manifest the caller
    /// fetched (or none). On success the run is `Resolved`; a symbolic
    /// request without a manifest fails with `ManifestUnavailable` and
    /// leaves the run `Unresolved`.
    pub fn resolve_version(&mut self, manifest: Option<&Manifest>) -> (r: Result<(), Error>)
        requires
            old(self).wf(),
            old(self).phase() == UpdatePhase::Unresolved,
        ensures
            final(self).wf(),
            final(self).requested() == old(self).requested(),
            match spec_resolve(old(self).requested(), match manifest {
                Some(m) => Some(*m),
                None => None,
            }) {
                Ok(v) => {
                    &&& r matches Ok(())
                    &&& final(self).phase() == UpdatePhase::Resolved
                    &&& final(self).resolved() == v
                },
                Err(e) => {
                    &&& r matches Err(a) && a == e
                    &&& final(self).phase() == UpdatePhase::Unresolved
                },
            },
    {
        match resolve(&self.requested, manifest) {
            Ok(v) => {
                self.resolved = Some(v);
                self.phase = UpdatePhase::Resolved;
                Ok(())
            },
            Err(e) => Err(e),
        }
    }

    /// The idempotency gate: download exactly when the installed marker
    /// does not already name the resolved version.
    pub fn needs_download(&self, installed: &Option<String>) -> (r: bool)
        requires
            self.wf(),
            self.phase() == UpdatePhase::Resolved,
        ensures
            r == spec_needs_download(self.resolved(), spec_installed(*installed)),
    {
        match installed {
            Some(v) => {
                let res = self.resolved.as_ref().unwrap();
                !(*v == *res)
            },
            None => true,
        }
    }

    /// Finish the run: it is `Synced`, and the returned marker value — the
    /// resolved version — is what the caller persists, only after the
    /// binary is durably in place.
    pub fn into_marker(&mut self) -> (r: String)
        requires
            old(self).wf(),
            old(self).phase() == UpdatePhase::Resolved,
        ensures
            final(self).wf(),
            final(self).phase() == UpdatePhase::Synced,
            final(self).requested() == old(self).requested(),
            final(self).resolved() == old(self).resolved(),
            r@ == spec_marker_after(old(self).resolved()),
    {
        self.phase = UpdatePhase::Synced;
        self.resolved.as_ref().unwrap().clone()
    }
}

/// The deterministic download URL for a concrete version's server binary.
pub fn download_url(version: &String) -> (r: String)
    ensures
        r@ == "https://s3.amazonaws.com/Minecraft.Download/versions/"@ + version@
            + "/minecraft_server."@ + version@ + ".jar"@,
{
    let mut url = String::from_str("https://s3.amazonaws.com/Minecraft.Download/versions/");
    url.append(version.as_str());
    url.append("/minecraft_server.");
    url.append(version.as_str());
    url.append(".jar");
    url
}

} // verus!
