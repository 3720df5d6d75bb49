use std::io::Read;

use mc_manager::compression::{CompressionAlgorithm, Encoder};
use mc_manager::error::Error;

#[test]
fn algorithm_names_parse_and_unknown_ones_fail_fast() {
    assert_eq!(
        CompressionAlgorithm::from_name(&"gzip".to_string()),
        Ok(CompressionAlgorithm::Gzip)
    );
    assert_eq!(
        CompressionAlgorithm::from_name(&"lzma".to_string()),
        Ok(CompressionAlgorithm::Lzma)
    );
    assert_eq!(
        CompressionAlgorithm::from_name(&"zstd".to_string()),
        Err(Error::UnsupportedAlgorithm)
    );
    assert_eq!(
        CompressionAlgorithm::from_name(&"".to_string()),
        Err(Error::UnsupportedAlgorithm)
    );
}

#[test]
fn extensions_match_the_algorithm() {
    assert_eq!(CompressionAlgorithm::Gzip.extension(), ".tar.gz".to_string());
    assert_eq!(CompressionAlgorithm::Lzma.extension(), ".tar.xz".to_string());
}

#[test]
fn gzip_encoder_round_trips_its_input() {
    let mut enc = Encoder::new(CompressionAlgorithm::Gzip);
    enc.write_all(b"the quick brown fox").unwrap();
    enc.write_all(b" jumps over the lazy dog").unwrap();
    let compressed = enc.finish().unwrap();

    let mut decoder = flate2::read::GzDecoder::new(compressed.as_slice());
    let mut plain = Vec::new();
    decoder.read_to_end(&mut plain).unwrap();
    assert_eq!(plain, b"the quick brown fox jumps over the lazy dog".to_vec());
}

#[test]
fn lzma_encoder_round_trips_its_input() {
    let mut enc = Encoder::new(CompressionAlgorithm::Lzma);
    enc.write_all(b"snapshot of a world").unwrap();
    let compressed = enc.finish().unwrap();

    let mut decoder = xz2::read::XzDecoder::new(compressed.as_slice());
    let mut plain = Vec::new();
    decoder.read_to_end(&mut plain).unwrap();
    assert_eq!(plain, b"snapshot of a world".to_vec());
}

#[test]
fn partial_write_reports_what_was_consumed() {
    let mut enc = Encoder::new(CompressionAlgorithm::Gzip);
    let mut written: usize = 0;
    let data = b"0123456789";
    while written < data.len() {
        let n = enc.write(&data[written..]).unwrap();
        assert!(n <= data.len() - written);
        if n == 0 {
            break;
        }
        written += n;
    }
    enc.flush().unwrap();
    assert_eq!(written, data.len());
    let compressed = enc.finish().unwrap();
    let mut decoder = flate2::read::GzDecoder::new(compressed.as_slice());
    let mut plain = Vec::new();
    decoder.read_to_end(&mut plain).unwrap();
    assert_eq!(plain, data.to_vec());
}

#[test]
fn error_descriptions_name_the_failure() {
    assert_eq!(
        Error::UnsupportedAlgorithm.describe(),
        "unsupported compression algorithm".to_string()
    );
    assert_eq!(
        Error::UnsupportedStrategy.describe(),
        "unsupported retention strategy".to_string()
    );
    assert_eq!(Error::Io.describe(), "filesystem operation failed".to_string());
    assert_eq!(
        Error::ManifestUnavailable.describe(),
        "version manifest could not be fetched".to_string()
    );
    assert_eq!(
        Error::ManifestMalformed.describe(),
        "version manifest could not be parsed".to_string()
    );
    assert_eq!(
        Error::DownloadFailed.describe(),
        "server binary download failed".to_string()
    );
    assert_eq!(
        Error::SourceMissing.describe(),
        "backup source tree does not exist".to_string()
    );
    assert_eq!(
        Error::Config.describe(),
        "configuration or marker file missing or malformed".to_string()
    );
    assert_eq!(
        Error::ConcurrentOperation.describe(),
        "another operation is in progress".to_string()
    );
}
