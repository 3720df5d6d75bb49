use vstd::prelude::*;
use vstd::string::StringExecFns;

use crate::compression::{spec_encoded, CompressionAlgorithm, Encoder};
use crate::error::Error;

verus! {

/// One entry of a snapshot archive: a relative path under the archive's
/// internal root, and either a file's content or a directory marker.
pub struct ArchiveEntry {
    pub path: String,
    pub data: Vec<u8>,
    pub is_dir: bool,
}

/// The model of an entry: its path, its content (a directory carries
/// none) and whether it is a directory.
pub open spec fn entry_model(e: ArchiveEntry) -> (Seq<char>, Seq<u8>, bool) {
    (e.path@, if e.is_dir { Seq::<u8>::empty() } else { e.data@ }, e.is_dir)
}

/// The model of an entry listing, in order.
pub open spec fn entries_model(entries: Seq<ArchiveEntry>) -> Seq<(Seq<char>, Seq<u8>, bool)> {
    entries.map_values(|e: ArchiveEntry| entry_model(e))
}

impl ArchiveEntry {
    /// A file entry rooted under the archive-internal `world/` name, so
    /// that extraction reproduces the source tree under one fixed
    /// directory.
    pub fn rooted(relative_path: &String, data: Vec<u8>) -> (r: ArchiveEntry)
        ensures
            r.path@ == "world/"@ + relative_path@,
            r.data@ == data@,
            !r.is_dir,
    {
        let mut path = String::from_str("world/");
        path.append(relative_path.as_str());
        ArchiveEntry { path, data, is_dir: false }
    }

    /// A directory entry rooted under the archive-internal `world/` name,
    /// so that empty directories survive the snapshot too.
    pub fn rooted_dir(relative_path: &String) -> (r: ArchiveEntry)
        ensures
            r.path@ == "world/"@ + relative_path@,
            r.is_dir,
    {
        let mut path = String::from_str("world/");
        path.append(relative_path.as_str());
        ArchiveEntry { path, data: Vec::new(), is_dir: true }
    }
}

/// tar's streaming archive builder over an in-memory sink, opaque to the
/// verifier; its visible state is `tar_entries`, the entries appended so
/// far. (Verus refuses a declaration of the builder type itself, whose
/// `Write` bound it does not know.)
#[verifier::external_body]
pub struct TarStream {
    inner: tar::Builder<Vec<u8>>,
}

/// The entries a tar builder has appended so far, in order: path,
/// content and whether the entry is a directory.
pub uninterp spec fn tar_entries(b: TarStream) -> Seq<(Seq<char>, Seq<u8>, bool)>;

/// A `..` path component starts at position `i` of `p`.
pub open spec fn dotdot_component_at(p: Seq<char>, i: int) -> bool {
    &&& 0 <= i && i + 2 <= p.len()
    &&& p[i] == '.' && p[i + 1] == '.'
    &&& (i == 0 || p[i - 1] == '/')
    &&& (i + 2 == p.len() || p[i + 2] == '/')
}

/// A path the tar crate accepts for a new entry on every platform:
/// nonempty and relative, with no `..` component, and free of the bytes
/// its header encoding rejects (NUL) or that some platform reads as a
/// separator or drive prefix (backslash, colon).
pub open spec fn appendable_path(p: Seq<char>) -> bool {
    &&& p.len() > 0
    &&& p[0] != '/'
    &&& (forall|i: int| 0 <= i < p.len() ==> #[trigger] p[i] != '\0' && p[i] != '\\' && p[i]
        != ':')
    &&& (forall|i: int| !dotdot_component_at(p, i))
}

/// The tar stream the tar crate produces for the given entries, appended
/// with fully fixed headers (size from the data, mode 0o644 for files and
/// 0o755 for directories, zero mtime, owner and group zero): a function
/// of the entries alone.
pub uninterp spec fn tar_of(entries: Seq<(Seq<char>, Seq<u8>, bool)>) -> Seq<u8>;

/// Relies on tar::Builder::new: a fresh builder over an empty in-memory
/// sink holds no entries.
#[verifier::external_body]
fn tar_new() -> (r: TarStream)
    ensures
        tar_entries(r) == Seq::<(Seq<char>, Seq<u8>, bool)>::empty(),
{
    TarStream { inner: tar::Builder::new(Vec::new()) }
}

/// Relies on tar::Builder::append_data with a fully specified GNU file
/// header: on success the file entry stands appended after the ones
/// already there, and an appendable path always succeeds, since the
/// header validation admits it and every write lands in the in-memory
/// sink, which cannot fail.
#[verifier::external_body]
fn tar_append_file(b: &mut TarStream, path: &String, data: &[u8]) -> (r: Result<
    (),
    std::io::Error,
>)
    ensures
        appendable_path(path@) ==> r is Ok,
        r matches Ok(_) ==> tar_entries(*final(b)) == tar_entries(*old(b)).push(
            (path@, data@, false),
        ),
{
    let mut header = tar::Header::new_gnu();
    header.set_size(data.len() as u64);
    header.set_mode(0o644);
    header.set_mtime(0);
    header.set_cksum();
    b.inner.append_data(&mut header, path.as_str(), data)
}

/// Relies on tar::Builder::append_data with a fully specified GNU
/// directory header (no content): same grounds as the file form.
#[verifier::external_body]
fn tar_append_dir(b: &mut TarStream, path: &String) -> (r: Result<(), std::io::Error>)
    ensures
        appendable_path(path@) ==> r is Ok,
        r matches Ok(_) ==> tar_entries(*final(b)) == tar_entries(*old(b)).push(
            (path@, Seq::<u8>::empty(), true),
        ),
{
    let mut header = tar::Header::new_gnu();
    header.set_entry_type(tar::EntryType::dir());
    header.set_size(0);
    header.set_mode(0o755);
    header.set_mtime(0);
    header.set_cksum();
    let no_data: &[u8] = &[];
    b.inner.append_data(&mut header, path.as_str(), no_data)
}

/// Relies on tar::Builder::into_inner: it finishes the archive (writing
/// the terminating blocks into the in-memory sink, which cannot fail) and
/// hands back the sink, which then holds the complete tar stream of the
/// appended entries.
#[verifier::external_body]
fn tar_finish(b: TarStream) -> (r: Result<Vec<u8>, std::io::Error>)
    ensures
        r is Ok,
        r matches Ok(out) ==> out@ == tar_of(tar_entries(b)),
{
    b.inner.into_inner()
}

/// The complete archive bytes for an entry listing and an algorithm: the
/// tar stream of the entries, compressed.
pub open spec fn spec_archive(
    entries: Seq<ArchiveEntry>,
    algorithm: CompressionAlgorithm,
) -> Seq<u8> {
    spec_encoded(algorithm, tar_of(entries_model(entries)))
}

/// Build one full snapshot archive in memory: every entry, in order, goes
/// into a tar stream that the chosen algorithm compresses. Nothing is
/// skipped and nothing else is added. When every entry path is
/// appendable, the build succeeds; the only failure is an entry path the
/// tar container rejects, reported as an I/O error.
pub fn build_archive(entries: &Vec<ArchiveEntry>, algorithm: CompressionAlgorithm) -> (r: Result<
    Vec<u8>,
    Error,
>)
    ensures
        match r {
            Ok(out) => out@ == spec_archive(entries@, algorithm),
            Err(e) => e == Error::Io,
        },
        (forall|i: int|
            0 <= i < entries@.len() ==> #[trigger] appendable_path(entries@[i].path@)) ==> r is Ok,
{
    let mut builder = tar_new();
    let n = entries.len();
    let mut i: usize = 0;
    proof {
        assert(entries_model(entries@.take(0)) =~= Seq::<(Seq<char>, Seq<u8>, bool)>::empty());
    }
    while i < n
        invariant
            i <= n,
            n == entries@.len(),
            tar_entries(builder) == entries_model(entries@.take(i as int)),
        decreases n - i,
    {
        let entry = &entries[i];
        let appended = if entry.is_dir {
            tar_append_dir(&mut builder, &entry.path)
        } else {
            tar_append_file(&mut builder, &entry.path, entry.data.as_slice())
        };
        match appended {
            Ok(_) => {},
            Err(_) => {
                proof {
                    assert(!appendable_path(entries@[i as int].path@));
                }
                return Err(Error::Io);
            },
        }
        proof {
            assert(entries_model(entries@.take(i + 1)) =~= entries_model(
                entries@.take(i as int),
            ).push(entry_model(entries@[i as int])));
        }
        i = i + 1;
    }
    proof {
        assert(entries@.take(n as int) =~= entries@);
    }
    let tar_bytes = match tar_finish(builder) {
        Ok(v) => v,
        Err(_) => {
            return Err(Error::Io);
        },
    };
    let mut encoder = Encoder::new(algorithm);
    match encoder.write_all(tar_bytes.as_slice()) {
        Ok(_) => {},
        Err(e) => {
            return Err(e);
        },
    }
    encoder.finish()
}

/// The filesystem steps of placing one finished archive durably.
#[derive(Clone, Copy, PartialEq, Eq, Structural, Debug)]
pub enum FsStep {
    /// Write the archive bytes to the temporary path.
    WriteTemp,
    /// Atomically rename the temporary file onto the destination path.
    RenameTempToDest,
    /// Delete the temporary file.
    RemoveTemp,
}

/// Whether a file exists at the destination path after the steps ran,
/// starting from a state where it does not: only the rename places it,
/// and no step removes it.
pub open spec fn spec_dest_present(steps: Seq<FsStep>) -> bool {
    exists|i: int| 0 <= i < steps.len() && steps[i] == FsStep::RenameTempToDest
}

/// The steps that conclude an archive write, given whether writing the
/// bytes to the temporary path succeeded.
pub open spec fn spec_conclusion(write_ok: bool) -> Seq<FsStep> {
    if write_ok {
        seq![FsStep::RenameTempToDest]
    } else {
        seq![FsStep::RemoveTemp]
    }
}

/// One durable archive placement: the archive bytes go to a temporary
/// path in the destination directory, and only a fully written file is
/// renamed onto the destination. The caller carries the steps out in
/// order and stops at the first failure.
pub struct ArchiveJob {
    temp: String,
    dest: String,
}

impl ArchiveJob {
    pub closed spec fn temp(&self) -> Seq<char> {
        self.temp@
    }

    pub closed spec fn dest(&self) -> Seq<char> {
        self.dest@
    }

    /// Plan a placement: the temporary path is the destination path with
    /// `.part` appended, so the two never collide.
    pub fn new(dest: String) -> (r: ArchiveJob)
        ensures
            r.dest() == dest@,
            r.temp() == dest@ + ".part"@,
            r.temp() != r.dest(),
    {
        let mut temp = dest.clone();
        temp.append(".part");
        proof {
            reveal_strlit(".part");
            assert((dest@ + ".part"@).len() == dest@.len() + 5);
        }
        ArchiveJob { temp, dest }
    }

    /// The temporary path the archive bytes are written to.
    pub fn temp_path(&self) -> (r: &String)
        ensures
            r@ == self.temp(),
    {
        &self.temp
    }

    /// The destination path of the finished archive.
    pub fn dest_path(&self) -> (r: &String)
        ensures
            r@ == self.dest(),
    {
        &self.dest
    }

    /// The steps that conclude the placement once the temporary write
    /// finished or failed: rename into place on success, delete the
    /// partial file on failure.
    pub fn conclusion(&self, write_ok: bool) -> (steps: Vec<FsStep>)
        ensures
            steps@ == spec_conclusion(write_ok),
    {
        let mut steps: Vec<FsStep> = Vec::new();
        if write_ok {
            steps.push(FsStep::RenameTempToDest);
            proof {
                assert(steps@ =~= spec_conclusion(write_ok));
            }
        } else {
            steps.push(FsStep::RemoveTemp);
            proof {
                assert(steps@ =~= spec_conclusion(write_ok));
            }
        }
        steps
    }
}

/// Atomic failure: when the temporary write fails, the whole run —
/// writing the temporary file and concluding — contains no rename, so no
/// file ever appears at the destination path.
pub proof fn lemma_failed_write_leaves_no_destination(write_ok: bool)
    requires
        !write_ok,
    ensures
        !spec_dest_present(seq![FsStep::WriteTemp] + spec_conclusion(write_ok)),
{
    let steps = seq![FsStep::WriteTemp] + spec_conclusion(write_ok);
    assert forall|i: int| 0 <= i < steps.len() implies steps[i] != FsStep::RenameTempToDest by {
        if i == 0 {
            assert(steps[0] == FsStep::WriteTemp);
        } else {
            assert(steps[i] == FsStep::RemoveTemp);
        }
    }
}

} // verus!
