use vstd::prelude::*;
use vstd::string::StringExecFns;

verus! {

/// The standard library's I/O error, opaque here: trusted wrappers hand it
/// back and verified code maps it to `Error::Io` without reading it.
#[verifier::external_type_specification]
#[verifier::external_body]
pub struct ExIoError(std::io::Error);

/// Typed failures of the backup and update engine.
///
/// Every operation of the library stops at its first failure and surfaces
/// one of these values; nothing retries and nothing terminates the process.
#[derive(Clone, Copy, PartialEq, Eq, Structural, Debug)]
pub enum Error {
    /// A configuration or marker file is missing, unreadable or malformed.
    Config,
    /// The backup source tree does not exist.
    SourceMissing,
    /// A filesystem read, write, delete or rename failed.
    Io,
    /// The requested compression algorithm is not one of the supported set.
    UnsupportedAlgorithm,
    /// The requested retention strategy is declared but not implemented.
    UnsupportedStrategy,
    /// The remote version manifest could not be fetched.
    ManifestUnavailable,
    /// The remote version manifest could not be parsed.
    ManifestMalformed,
    /// The versioned binary artifact could not be downloaded.
    DownloadFailed,
    /// Another operation holds the same server directory.
    ConcurrentOperation,
}

/// The text that `Error::describe` returns for each variant.
pub open spec fn spec_describe(e: Error) -> Seq<char> {
    match e {
        Error::Config => "configuration or marker file missing or malformed"@,
        Error::SourceMissing => "backup source tree does not exist"@,
        Error::Io => "filesystem operation failed"@,
        Error::UnsupportedAlgorithm => "unsupported compression algorithm"@,
        Error::UnsupportedStrategy => "unsupported retention strategy"@,
        Error::ManifestUnavailable => "version manifest could not be fetched"@,
        Error::ManifestMalformed => "version manifest could not be parsed"@,
        Error::DownloadFailed => "server binary download failed"@,
        Error::ConcurrentOperation => "another operation is in progress"@,
    }
}

impl Error {
    /// A human-readable account of the failure, for the caller to present.
    pub fn describe(&self) -> (r: String)
        ensures
            r@ == spec_describe(*self),
    {
        match self {
            Error::Config => String::from_str("configuration or marker file missing or malformed"),
            Error::SourceMissing => String::from_str("backup source tree does not exist"),
            Error::Io => String::from_str("filesystem operation failed"),
            Error::UnsupportedAlgorithm => String::from_str("unsupported compression algorithm"),
            Error::UnsupportedStrategy => String::from_str("unsupported retention strategy"),
            Error::ManifestUnavailable => String::from_str("version manifest could not be fetched"),
            Error::ManifestMalformed => String::from_str("version manifest could not be parsed"),
            Error::DownloadFailed => String::from_str("server binary download failed"),
            Error::ConcurrentOperation => String::from_str("another operation is in progress"),
        }
    }
}

} // verus!
