use std::io::Read;

use mc_manager::archive::{build_archive, ArchiveEntry, ArchiveJob, FsStep};
use mc_manager::compression::CompressionAlgorithm;

fn entry(path: &str, data: &[u8]) -> ArchiveEntry {
    ArchiveEntry {
        path: path.to_string(),
        data: data.to_vec(),
        is_dir: false,
    }
}

fn dir_entry(path: &str) -> ArchiveEntry {
    ArchiveEntry {
        path: path.to_string(),
        data: Vec::new(),
        is_dir: true,
    }
}

fn unpack(tar_bytes: &[u8]) -> Vec<(String, Vec<u8>)> {
    let mut archive = tar::Archive::new(tar_bytes);
    let mut out = Vec::new();
    for entry in archive.entries().unwrap() {
        let mut entry = entry.unwrap();
        let path = entry.path().unwrap().to_str().unwrap().to_string();
        let mut data = Vec::new();
        entry.read_to_end(&mut data).unwrap();
        out.push((path, data));
    }
    out
}

#[test]
fn gzip_archive_round_trip_reproduces_every_file() {
    let entries = vec![
        entry("world/level.dat", b"level data"),
        entry("world/region/r.0.0.mca", &[0u8, 1, 2, 3, 255]),
        entry("world/session.lock", b""),
    ];
    let archive = build_archive(&entries, CompressionAlgorithm::Gzip).unwrap();

    let mut decoder = flate2::read::GzDecoder::new(archive.as_slice());
    let mut tar_bytes = Vec::new();
    decoder.read_to_end(&mut tar_bytes).unwrap();

    let unpacked = unpack(&tar_bytes);
    assert_eq!(unpacked.len(), 3);
    assert_eq!(unpacked[0], ("world/level.dat".to_string(), b"level data".to_vec()));
    assert_eq!(
        unpacked[1],
        ("world/region/r.0.0.mca".to_string(), vec![0u8, 1, 2, 3, 255])
    );
    assert_eq!(unpacked[2], ("world/session.lock".to_string(), Vec::new()));
}

#[test]
fn lzma_archive_round_trip_reproduces_every_file() {
    let entries = vec![entry("world/level.dat", b"level data")];
    let archive = build_archive(&entries, CompressionAlgorithm::Lzma).unwrap();

    let mut decoder = xz2::read::XzDecoder::new(archive.as_slice());
    let mut tar_bytes = Vec::new();
    decoder.read_to_end(&mut tar_bytes).unwrap();

    let unpacked = unpack(&tar_bytes);
    assert_eq!(unpacked, vec![("world/level.dat".to_string(), b"level data".to_vec())]);
}

#[test]
fn archive_bytes_are_a_compressed_container_not_the_input() {
    let entries = vec![entry("world/level.dat", b"level data")];
    let archive = build_archive(&entries, CompressionAlgorithm::Gzip).unwrap();
    // A gzip stream starts with its two magic bytes, so the builder cannot
    // have handed back the raw file content.
    assert_eq!(&archive[0..2], &[0x1f, 0x8b]);
    assert_ne!(archive, b"level data".to_vec());
}

#[test]
fn directory_entries_survive_the_round_trip() {
    // Directories, empty ones included, are archived alongside files.
    let entries = vec![
        dir_entry("world"),
        dir_entry("world/region"),
        entry("world/level.dat", b"level data"),
    ];
    let archive = build_archive(&entries, CompressionAlgorithm::Gzip).unwrap();

    let mut decoder = flate2::read::GzDecoder::new(archive.as_slice());
    let mut tar_bytes = Vec::new();
    decoder.read_to_end(&mut tar_bytes).unwrap();

    let mut archive = tar::Archive::new(tar_bytes.as_slice());
    let mut seen: Vec<(String, bool)> = Vec::new();
    for entry in archive.entries().unwrap() {
        let entry = entry.unwrap();
        let path = entry.path().unwrap().to_str().unwrap().trim_end_matches('/').to_string();
        seen.push((path, entry.header().entry_type().is_dir()));
    }
    assert_eq!(
        seen,
        vec![
            ("world".to_string(), true),
            ("world/region".to_string(), true),
            ("world/level.dat".to_string(), false),
        ]
    );
}

#[test]
fn archive_build_rejects_a_parent_dir_path() {
    // The tar container refuses a `..` component; the build surfaces it
    // as the I/O error and nothing else fails.
    let entries = vec![entry("../escape", b"data")];
    assert_eq!(
        build_archive(&entries, CompressionAlgorithm::Gzip).err(),
        Some(mc_manager::error::Error::Io)
    );
}

#[test]
fn rooted_entries_carry_the_archive_internal_root() {
    let e = ArchiveEntry::rooted(&"region/r.0.0.mca".to_string(), vec![7u8]);
    assert_eq!(e.path, "world/region/r.0.0.mca".to_string());
    assert_eq!(e.data, vec![7u8]);
    assert!(!e.is_dir);
    let d = ArchiveEntry::rooted_dir(&"region".to_string());
    assert_eq!(d.path, "world/region".to_string());
    assert!(d.is_dir);
}

#[test]
fn empty_archive_still_decodes() {
    let entries: Vec<ArchiveEntry> = Vec::new();
    let archive = build_archive(&entries, CompressionAlgorithm::Gzip).unwrap();
    let mut decoder = flate2::read::GzDecoder::new(archive.as_slice());
    let mut tar_bytes = Vec::new();
    decoder.read_to_end(&mut tar_bytes).unwrap();
    assert!(unpack(&tar_bytes).is_empty());
}

#[test]
fn failed_temp_write_never_places_the_destination() {
    // Atomic failure: when the temporary write fails, the concluding steps
    // remove the partial file and never rename onto the destination.
    let job = ArchiveJob::new("backups/2023-01-01_00-00-00.tar.gz".to_string());
    assert_eq!(
        job.temp_path(),
        &"backups/2023-01-01_00-00-00.tar.gz.part".to_string()
    );
    assert_eq!(job.dest_path(), &"backups/2023-01-01_00-00-00.tar.gz".to_string());

    let failure = job.conclusion(false);
    assert_eq!(failure, vec![FsStep::RemoveTemp]);
    assert!(!failure.contains(&FsStep::RenameTempToDest));

    let success = job.conclusion(true);
    assert_eq!(success, vec![FsStep::RenameTempToDest]);
}
