use vstd::prelude::*;

use crate::error::Error;

verus! {

/// The closed set of supported compression algorithms.
///
/// `Gzip` is the default; an unknown name is rejected at construction with
/// `UnsupportedAlgorithm`, never at first write.
#[derive(Clone, Copy, PartialEq, Eq, Structural, Debug)]
pub enum CompressionAlgorithm {
    Gzip,
    Lzma,
}

/// The archive file extension each algorithm produces, dot included.
pub open spec fn spec_extension(alg: CompressionAlgorithm) -> Seq<char> {
    match alg {
        CompressionAlgorithm::Gzip => ".tar.gz"@,
        CompressionAlgorithm::Lzma => ".tar.xz"@,
    }
}

impl CompressionAlgorithm {
    /// Parse an algorithm name; only `"gzip"` and `"lzma"` are accepted.
    pub fn from_name(name: &String) -> (r: Result<CompressionAlgorithm, Error>)
        ensures
            name@ == "gzip"@ ==> r == Ok::<CompressionAlgorithm, Error>(
                CompressionAlgorithm::Gzip,
            ),
            name@ == "lzma"@ ==> r == Ok::<CompressionAlgorithm, Error>(
                CompressionAlgorithm::Lzma,
            ),
            name@ != "gzip"@ && name@ != "lzma"@ ==> r == Err::<CompressionAlgorithm, Error>(
                Error::UnsupportedAlgorithm,
            ),
    {
        proof {
            reveal_strlit("gzip");
            reveal_strlit("lzma");
            assert("gzip"@[0] != "lzma"@[0]);
            assert("gzip"@ != "lzma"@);
        }
        if *name == String::from_str("gzip") {
            Ok(CompressionAlgorithm::Gzip)
        } else if *name == String::from_str("lzma") {
            Ok(CompressionAlgorithm::Lzma)
        } else {
            Err(Error::UnsupportedAlgorithm)
        }
    }

    /// The archive file extension for this algorithm, dot included.
    pub fn extension(&self) -> (r: String)
        ensures
            r@ == spec_extension(*self),
    {
        match self {
            CompressionAlgorithm::Gzip => String::from_str(".tar.gz"),
            CompressionAlgorithm::Lzma => String::from_str(".tar.xz"),
        }
    }
}

/// flate2's streaming gzip encoder over an in-memory sink, opaque to the
/// verifier; its visible state is `gz_fed`, the bytes it has accepted.
/// (Verus refuses a declaration of the encoder type itself, whose `Write`
/// bound it does not know.)
#[verifier::external_body]
pub struct GzStream {
    inner: flate2::write::GzEncoder<Vec<u8>>,
}

/// xz2's streaming encoder over an in-memory sink, opaque to the verifier;
/// its visible state is `xz_fed`, the bytes it has accepted.
#[verifier::external_body]
pub struct XzStream {
    inner: xz2::write::XzEncoder<Vec<u8>>,
}

/// The bytes a gzip encoder over an in-memory sink has accepted so far.
pub uninterp spec fn gz_fed(e: GzStream) -> Seq<u8>;

/// Whether no mid-stream flush point was ever inserted into a gzip
/// encoder. A sync flush writes a flush point into the deflate stream,
/// after which the container bytes are no longer a function of the
/// accepted bytes alone.
pub uninterp spec fn gz_unflushed(e: GzStream) -> bool;

/// The bytes an xz encoder over an in-memory sink has accepted so far.
pub uninterp spec fn xz_fed(e: XzStream) -> Seq<u8>;

/// Whether no mid-stream flush point was ever inserted into an xz
/// encoder. A full flush ends the current block, after which the
/// container bytes are no longer a function of the accepted bytes alone.
pub uninterp spec fn xz_unflushed(e: XzStream) -> bool;

/// The gzip stream flate2 produces for the given input at the default
/// level: a function of the input alone, since flate2 writes a fixed
/// header (zero mtime, operating-system byte 255) for reproducibility.
pub uninterp spec fn gzip_of(data: Seq<u8>) -> Seq<u8>;

/// The xz stream liblzma produces for the given input at preset 6:
/// a function of the input alone.
pub uninterp spec fn lzma_of(data: Seq<u8>) -> Seq<u8>;

/// Relies on flate2::write::GzEncoder::new: a fresh encoder over an empty
/// in-memory sink has accepted nothing.
#[verifier::external_body]
fn gz_new() -> (r: GzStream)
    ensures
        gz_fed(r) == Seq::<u8>::empty(),
        gz_unflushed(r),
{
    GzStream { inner: flate2::write::GzEncoder::new(Vec::new(), flate2::Compression::default()) }
}

/// Relies on std::io::Write::write for flate2::write::GzEncoder: the call
/// consumes a prefix of the buffer, no more than its length, and reports
/// how much it consumed. Every write lands in the in-memory sink, which
/// cannot fail, so the call succeeds.
#[verifier::external_body]
fn gz_write(e: &mut GzStream, buf: &[u8]) -> (r: Result<
    usize,
    std::io::Error,
>)
    ensures
        r is Ok,
        r matches Ok(n) ==> n <= buf@.len() && gz_fed(*final(e)) == gz_fed(*old(e)) + buf@.take(
            n as int,
        ),
        gz_unflushed(*final(e)) == gz_unflushed(*old(e)),
{
    std::io::Write::write(&mut e.inner, buf)
}

/// Relies on std::io::Write::write_all for flate2::write::GzEncoder: the
/// whole buffer is consumed, and since every write lands in the in-memory
/// sink, which cannot fail, the call succeeds.
#[verifier::external_body]
fn gz_write_all(e: &mut GzStream, buf: &[u8]) -> (r: Result<
    (),
    std::io::Error,
>)
    ensures
        r is Ok,
        gz_fed(*final(e)) == gz_fed(*old(e)) + buf@,
        gz_unflushed(*final(e)) == gz_unflushed(*old(e)),
{
    std::io::Write::write_all(&mut e.inner, buf)
}

/// Relies on std::io::Write::flush for flate2::write::GzEncoder: flushing
/// feeds the encoder nothing, and over the in-memory sink it succeeds.
/// It compresses with a sync flush, writing a flush point into the
/// stream, so the plain-stream claim is forfeited from here on.
#[verifier::external_body]
fn gz_flush(e: &mut GzStream) -> (r: Result<(), std::io::Error>)
    ensures
        r is Ok,
        gz_fed(*final(e)) == gz_fed(*old(e)),
        !gz_unflushed(*final(e)),
{
    std::io::Write::flush(&mut e.inner)
}

/// Relies on flate2::write::GzEncoder::finish: it succeeds over the
/// in-memory sink, which then holds the complete gzip stream of
/// everything the encoder accepted — provided no mid-stream flush point
/// made the bytes depend on more than the accepted input.
#[verifier::external_body]
fn gz_finish(e: GzStream) -> (r: Result<Vec<u8>, std::io::Error>)
    ensures
        r is Ok,
        r matches Ok(out) ==> gz_unflushed(e) ==> out@ == gzip_of(gz_fed(e)),
{
    e.inner.finish()
}

/// Relies on xz2::write::XzEncoder::new at preset 6 (as the archive engine
/// always uses): a fresh encoder over an empty sink has accepted nothing.
#[verifier::external_body]
fn xz_new() -> (r: XzStream)
    ensures
        xz_fed(r) == Seq::<u8>::empty(),
        xz_unflushed(r),
{
    XzStream { inner: xz2::write::XzEncoder::new(Vec::new(), 6) }
}

/// Relies on std::io::Write::write for xz2::write::XzEncoder: the call
/// consumes a prefix of the buffer and reports how much. Every write
/// lands in the in-memory sink, which cannot fail, so the call succeeds.
#[verifier::external_body]
fn xz_write(e: &mut XzStream, buf: &[u8]) -> (r: Result<
    usize,
    std::io::Error,
>)
    ensures
        r is Ok,
        r matches Ok(n) ==> n <= buf@.len() && xz_fed(*final(e)) == xz_fed(*old(e)) + buf@.take(
            n as int,
        ),
        xz_unflushed(*final(e)) == xz_unflushed(*old(e)),
{
    std::io::Write::write(&mut e.inner, buf)
}

/// Relies on std::io::Write::write_all for xz2::write::XzEncoder: the
/// whole buffer is consumed, and since every write lands in the in-memory
/// sink, which cannot fail, the call succeeds.
#[verifier::external_body]
fn xz_write_all(e: &mut XzStream, buf: &[u8]) -> (r: Result<
    (),
    std::io::Error,
>)
    ensures
        r is Ok,
        xz_fed(*final(e)) == xz_fed(*old(e)) + buf@,
        xz_unflushed(*final(e)) == xz_unflushed(*old(e)),
{
    std::io::Write::write_all(&mut e.inner, buf)
}

/// Relies on std::io::Write::flush for xz2::write::XzEncoder: flushing
/// feeds the encoder nothing, and over the in-memory sink it succeeds.
/// It runs a full flush, ending the current block, so the plain-stream
/// claim is forfeited from here on.
#[verifier::external_body]
fn xz_flush(e: &mut XzStream) -> (r: Result<(), std::io::Error>)
    ensures
        r is Ok,
        xz_fed(*final(e)) == xz_fed(*old(e)),
        !xz_unflushed(*final(e)),
{
    std::io::Write::flush(&mut e.inner)
}

/// Relies on xz2::write::XzEncoder::finish: it succeeds over the
/// in-memory sink, which then holds the complete xz stream of everything
/// the encoder accepted — provided no mid-stream flush point made the
/// bytes depend on more than the accepted input.
#[verifier::external_body]
fn xz_finish(e: XzStream) -> (r: Result<Vec<u8>, std::io::Error>)
    ensures
        r is Ok,
        r matches Ok(out) ==> xz_unflushed(e) ==> out@ == lzma_of(xz_fed(e)),
{
    e.inner.finish()
}

/// The compressed stream an algorithm produces for the given input.
pub open spec fn spec_encoded(alg: CompressionAlgorithm, data: Seq<u8>) -> Seq<u8> {
    match alg {
        CompressionAlgorithm::Gzip => gzip_of(data),
        CompressionAlgorithm::Lzma => lzma_of(data),
    }
}

enum EncoderInner {
    Gzip(GzStream),
    Lzma(XzStream),
}

/// A streaming compressor over an in-memory sink: one write interface for
/// the closed algorithm set, chosen once at construction.
///
/// `finish` consumes the encoder, so it is called exactly once and no
/// write can follow it. The bytes `finish` returns are pinned only for a
/// stream without a mid-stream `flush`: a flush writes a flush point into
/// the container, and the bytes then depend on where it was called, not
/// on the accepted input alone.
pub struct Encoder {
    inner: EncoderInner,
}

impl Encoder {
    /// The algorithm this encoder was constructed with.
    pub closed spec fn algorithm(&self) -> CompressionAlgorithm {
        match self.inner {
            EncoderInner::Gzip(_) => CompressionAlgorithm::Gzip,
            EncoderInner::Lzma(_) => CompressionAlgorithm::Lzma,
        }
    }

    /// The bytes accepted so far.
    pub closed spec fn fed(&self) -> Seq<u8> {
        match self.inner {
            EncoderInner::Gzip(e) => gz_fed(e),
            EncoderInner::Lzma(e) => xz_fed(e),
        }
    }

    /// Whether no mid-stream flush point was ever inserted.
    pub closed spec fn unflushed(&self) -> bool {
        match self.inner {
            EncoderInner::Gzip(e) => gz_unflushed(e),
            EncoderInner::Lzma(e) => xz_unflushed(e),
        }
    }

    /// Open a fresh encoder for the given algorithm.
    pub fn new(algorithm: CompressionAlgorithm) -> (r: Encoder)
        ensures
            r.algorithm() == algorithm,
            r.fed() == Seq::<u8>::empty(),
            r.unflushed(),
    {
        match algorithm {
            CompressionAlgorithm::Gzip => Encoder { inner: EncoderInner::Gzip(gz_new()) },
            CompressionAlgorithm::Lzma => Encoder { inner: EncoderInner::Lzma(xz_new()) },
        }
    }

    /// Feed bytes to the encoder; the call succeeds, accepting a prefix
    /// of the buffer and returning its length.
    pub fn write(&mut self, buf: &[u8]) -> (r: Result<usize, Error>)
        ensures
            final(self).algorithm() == old(self).algorithm(),
            final(self).unflushed() == old(self).unflushed(),
            r matches Ok(n) && n <= buf@.len() && final(self).fed() == old(self).fed()
                + buf@.take(n as int),
    {
        let out = match &mut self.inner {
            EncoderInner::Gzip(e) => gz_write(e, buf),
            EncoderInner::Lzma(e) => xz_write(e, buf),
        };
        match out {
            Ok(n) => Ok(n),
            Err(_) => Err(Error::Io),
        }
    }

    /// Feed the whole buffer to the encoder; the call succeeds.
    pub fn write_all(&mut self, buf: &[u8]) -> (r: Result<(), Error>)
        ensures
            final(self).algorithm() == old(self).algorithm(),
            final(self).unflushed() == old(self).unflushed(),
            r is Ok,
            final(self).fed() == old(self).fed() + buf@,
    {
        let out = match &mut self.inner {
            EncoderInner::Gzip(e) => gz_write_all(e, buf),
            EncoderInner::Lzma(e) => xz_write_all(e, buf),
        };
        match out {
            Ok(_) => Ok(()),
            Err(_) => Err(Error::Io),
        }
    }

    /// Flush buffered output towards the sink; nothing new is accepted
    /// and the call succeeds. Flushing writes a flush point into the
    /// container, so the exact bytes of `finish` are no longer pinned.
    pub fn flush(&mut self) -> (r: Result<(), Error>)
        ensures
            final(self).algorithm() == old(self).algorithm(),
            final(self).fed() == old(self).fed(),
            !final(self).unflushed(),
            r is Ok,
    {
        let out = match &mut self.inner {
            EncoderInner::Gzip(e) => gz_flush(e),
            EncoderInner::Lzma(e) => xz_flush(e),
        };
        match out {
            Ok(_) => Ok(()),
            Err(_) => Err(Error::Io),
        }
    }

    /// Finalize the stream, writing container-level trailers, and hand
    /// back the complete compressed bytes; the call succeeds, and for a
    /// stream without a mid-stream flush the bytes are exactly the
    /// algorithm's stream of the accepted input. Consumes the encoder:
    /// exactly one `finish`, and no write after it.
    pub fn finish(self) -> (r: Result<Vec<u8>, Error>)
        ensures
            r is Ok,
            self.unflushed() ==> (r matches Ok(out) && out@ == spec_encoded(
                self.algorithm(),
                self.fed(),
            )),
    {
        let out = match self.inner {
            EncoderInner::Gzip(e) => gz_finish(e),
            EncoderInner::Lzma(e) => xz_finish(e),
        };
        match out {
            Ok(v) => Ok(v),
            Err(_) => Err(Error::Io),
        }
    }
}

} // verus!
