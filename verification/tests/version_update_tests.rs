use mc_manager::error::Error;
use mc_manager::update::{download_url, UpdatePhase, UpdatePipeline};
use mc_manager::version::{needs_manifest, resolve, Latest, Manifest};

fn manifest() -> Manifest {
    Manifest {
        latest: Latest {
            snapshot: "23w10a".to_string(),
            release: "1.20.1".to_string(),
        },
    }
}

#[test]
fn resolve_release_substitutes_manifest_field() {
    let r = resolve(&"release".to_string(), Some(&manifest())).unwrap();
    assert_eq!(r, "1.20.1".to_string());
}

#[test]
fn resolve_snapshot_substitutes_manifest_field() {
    let r = resolve(&"snapshot".to_string(), Some(&manifest())).unwrap();
    assert_eq!(r, "23w10a".to_string());
}

#[test]
fn resolve_concrete_returns_it_unchanged() {
    let r = resolve(&"1.16.5".to_string(), Some(&manifest())).unwrap();
    assert_eq!(r, "1.16.5".to_string());
    let r = resolve(&"1.16.5".to_string(), None).unwrap();
    assert_eq!(r, "1.16.5".to_string());
}

#[test]
fn resolve_symbolic_without_manifest_fails() {
    assert_eq!(
        resolve(&"release".to_string(), None).err(),
        Some(Error::ManifestUnavailable)
    );
    assert_eq!(
        resolve(&"snapshot".to_string(), None).err(),
        Some(Error::ManifestUnavailable)
    );
}

#[test]
fn manifest_wanted_only_for_symbolic_names() {
    assert!(needs_manifest(&"release".to_string()));
    assert!(needs_manifest(&"snapshot".to_string()));
    assert!(!needs_manifest(&"1.20.1".to_string()));
}

#[test]
fn update_is_idempotent() {
    // First run: nothing installed, so the binary is downloaded, and the
    // marker records the resolved version.
    let mut first = UpdatePipeline::new("1.20.1".to_string());
    assert!(!first.wants_manifest());
    first.resolve_version(None).unwrap();
    let installed: Option<String> = None;
    assert!(first.needs_download(&installed));
    let marker = first.into_marker();
    assert_eq!(marker, "1.20.1".to_string());

    // Second run with the same resolved version: zero downloads, marker
    // unchanged.
    let mut second = UpdatePipeline::new("1.20.1".to_string());
    second.resolve_version(None).unwrap();
    let installed = Some(marker.clone());
    assert!(!second.needs_download(&installed));
    let marker_again = second.into_marker();
    assert_eq!(marker_again, marker);
}

#[test]
fn update_downloads_on_version_change() {
    let mut run = UpdatePipeline::new("1.20.1".to_string());
    run.resolve_version(None).unwrap();
    assert!(run.needs_download(&Some("1.16.5".to_string())));
}

#[test]
fn symbolic_update_run_uses_the_manifest() {
    let mut run = UpdatePipeline::new("release".to_string());
    assert!(run.wants_manifest());
    let m = manifest();
    run.resolve_version(Some(&m)).unwrap();
    assert!(!run.needs_download(&Some("1.20.1".to_string())));
    assert_eq!(run.into_marker(), "1.20.1".to_string());
}

#[test]
fn unresolvable_symbolic_run_reports_manifest_unavailable() {
    let mut run = UpdatePipeline::new("release".to_string());
    assert_eq!(run.resolve_version(None).err(), Some(Error::ManifestUnavailable));
}

#[test]
fn update_phases_are_distinct() {
    assert_ne!(UpdatePhase::Unresolved, UpdatePhase::Resolved);
    assert_ne!(UpdatePhase::Resolved, UpdatePhase::Synced);
}

#[test]
fn download_url_is_templated_by_the_version() {
    assert_eq!(
        download_url(&"1.12".to_string()),
        "https://s3.amazonaws.com/Minecraft.Download/versions/1.12/minecraft_server.1.12.jar"
            .to_string()
    );
}
