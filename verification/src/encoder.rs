//! The three-way stream encoder over an in-memory output buffer.
//!
//! The two compressed variants wrap the deflate crate's stream encoders,
//! always constructed with that crate's default compression options; the
//! third variant passes bytes through so no caller has to special-case
//! the identity path.

use crate::encoding::Encoding;
use deflate::write::DeflateEncoder;
use deflate::write::GzEncoder;
use vstd::prelude::*;

verus! {

/// Holds the deflate crate's DEFLATE stream encoder over an in-memory
/// buffer.  The verifier sees nothing inside; what it knows of a value
/// is said through `deflate_fed` and `deflate_clean`.
#[verifier::external_body]
pub struct DeflateSink {
    inner: DeflateEncoder<Vec<u8>>,
}

/// Holds the deflate crate's gzip stream encoder over an in-memory
/// buffer, spoken of through `gzip_fed` and `gzip_clean`.
#[verifier::external_body]
pub struct GzipSink {
    inner: GzEncoder<Vec<u8>>,
}

/// The raw DEFLATE stream the deflate crate produces, with its default
/// options, for a complete input.
pub uninterp spec fn deflate_of(input: Seq<u8>) -> Seq<u8>;

/// The CRC-32 checksum the gzip trailer carries for an input.
pub uninterp spec fn crc32_of(input: Seq<u8>) -> u32;

/// The bytes fed to a DEFLATE encoder since its construction.
pub uninterp spec fn deflate_fed(e: DeflateSink) -> Seq<u8>;

/// Whether a DEFLATE encoder has never been sync-flushed; only then is
/// its final stream determined by the bytes fed alone.
pub uninterp spec fn deflate_clean(e: DeflateSink) -> bool;

/// The bytes fed to a gzip encoder since its construction.
pub uninterp spec fn gzip_fed(e: GzipSink) -> Seq<u8>;

/// Whether a gzip encoder has never been sync-flushed.
pub uninterp spec fn gzip_clean(e: GzipSink) -> bool;

/// Four little-endian bytes of a 32-bit value.
pub open spec fn le32(x: u32) -> Seq<u8> {
    seq![
        (x & 0xff) as u8,
        ((x >> 8) & 0xff) as u8,
        ((x >> 16) & 0xff) as u8,
        ((x >> 24) & 0xff) as u8,
    ]
}

/// A blank gzip header: magic bytes, the DEFLATE method byte, no flags,
/// a zero modification time, default extra flags, and the byte naming
/// the producing system, which is the one detail that varies by build.
pub open spec fn gzip_header(os: u8) -> Seq<u8> {
    seq![0x1fu8, 0x8b, 8, 0, 0, 0, 0, 0, 0, os]
}

/// A whole gzip member for an input: header, raw DEFLATE stream, then
/// the CRC-32 of the input and the input length modulo 2^32, both
/// little-endian.
pub open spec fn gzip_wrap(os: u8, input: Seq<u8>) -> Seq<u8> {
    gzip_header(os) + deflate_of(input) + le32(crc32_of(input)) + le32(
        (input.len() % 0x100000000) as u32,
    )
}

/// Whether `out` is the encoded form of `input` under `enc`.  For gzip
/// the system byte of the header is left open.
pub open spec fn matches_encoded(enc: Encoding, input: Seq<u8>, out: Seq<u8>) -> bool {
    match enc {
        Encoding::Deflate => out == deflate_of(input),
        Encoding::Gzip => exists|os: u8| out == #[trigger] gzip_wrap(os, input),
        Encoding::Uncompressed => out == input,
    }
}

/// Relies on deflate::write::DeflateEncoder::new with the crate's
/// default compression options: a fresh encoder over the given buffer,
/// fed nothing and never flushed.
#[verifier::external_body]
fn new_deflate_encoder(writer: Vec<u8>) -> (e: DeflateSink)
    requires
        writer@ == Seq::<u8>::empty(),
    ensures
        deflate_fed(e) == Seq::<u8>::empty(),
        deflate_clean(e),
{
    DeflateSink { inner: DeflateEncoder::new(writer, deflate::CompressionOptions::default()) }
}

/// Relies on deflate::write::gzip::GzEncoder::new with the crate's
/// default compression options and a blank header.
#[verifier::external_body]
fn new_gzip_encoder(writer: Vec<u8>) -> (e: GzipSink)
    requires
        writer@ == Seq::<u8>::empty(),
    ensures
        gzip_fed(e) == Seq::<u8>::empty(),
        gzip_clean(e),
{
    GzipSink { inner: GzEncoder::new(writer, deflate::CompressionOptions::default()) }
}

/// Relies on the DEFLATE encoder's std::io::Write::write: over an
/// in-memory buffer it cannot fail, it takes at least one byte of a
/// nonempty input, and it consumes the prefix whose length it returns.
#[verifier::external_body]
fn write_deflate_encoder(e: &mut DeflateSink, buf: &[u8]) -> (r: Result<
    usize,
    std::io::Error,
>)
    ensures
        r is Ok,
        r matches Ok(n) ==> n <= buf@.len() && (buf@.len() > 0 ==> n >= 1) && deflate_fed(
            *final(e),
        ) == deflate_fed(*old(e)) + buf@.subrange(0, n as int) && deflate_clean(*final(e))
            == deflate_clean(*old(e)),
{
    std::io::Write::write(&mut e.inner, buf)
}

/// Relies on the gzip encoder's std::io::Write::write: over an
/// in-memory buffer it cannot fail, it takes at least one byte of a
/// nonempty input, and it consumes the prefix whose length it returns.
#[verifier::external_body]
fn write_gzip_encoder(e: &mut GzipSink, buf: &[u8]) -> (r: Result<usize, std::io::Error>)
    ensures
        r is Ok,
        r matches Ok(n) ==> n <= buf@.len() && (buf@.len() > 0 ==> n >= 1) && gzip_fed(*final(e))
            == gzip_fed(*old(e)) + buf@.subrange(0, n as int) && gzip_clean(*final(e))
            == gzip_clean(*old(e)),
{
    std::io::Write::write(&mut e.inner, buf)
}

/// Relies on the DEFLATE encoder's std::io::Write::flush, a zlib-style
/// sync flush: over an in-memory buffer it cannot fail, and the bytes
/// fed so far stay as they were.
#[verifier::external_body]
fn flush_deflate_encoder(e: &mut DeflateSink) -> (r: Result<(), std::io::Error>)
    ensures
        r is Ok,
        deflate_fed(*final(e)) == deflate_fed(*old(e)),
{
    std::io::Write::flush(&mut e.inner)
}

/// Relies on the gzip encoder's std::io::Write::flush, a zlib-style
/// sync flush: over an in-memory buffer it cannot fail, and the bytes
/// fed so far stay as they were.
#[verifier::external_body]
fn flush_gzip_encoder(e: &mut GzipSink) -> (r: Result<(), std::io::Error>)
    ensures
        r is Ok,
        gzip_fed(*final(e)) == gzip_fed(*old(e)),
{
    std::io::Write::flush(&mut e.inner)
}

/// Relies on deflate::write::DeflateEncoder::finish: over an in-memory
/// buffer it cannot fail; it encodes all pending data and returns the
/// output buffer, which for a never-flushed encoder holds exactly the
/// DEFLATE stream of the bytes fed.
#[verifier::external_body]
fn finish_deflate_encoder(e: DeflateSink) -> (r: Result<Vec<u8>, std::io::Error>)
    ensures
        r is Ok,
        r matches Ok(v) ==> (deflate_clean(e) ==> v@ == deflate_of(deflate_fed(e))),
{
    e.inner.finish()
}

/// Relies on deflate::write::gzip::GzEncoder::finish: over an
/// in-memory buffer it cannot fail; it writes the blank header, the
/// DEFLATE stream of the bytes fed, and a trailer of their CRC-32 and
/// length; only the header's system byte is open.
#[verifier::external_body]
fn finish_gzip_encoder(e: GzipSink) -> (r: Result<Vec<u8>, std::io::Error>)
    ensures
        r is Ok,
        r matches Ok(v) ==> (gzip_clean(e) ==> exists|os: u8|
            v@ == #[trigger] gzip_header(os) + deflate_of(gzip_fed(e)) + le32(
                crc32_of(gzip_fed(e)),
            ) + le32((gzip_fed(e).len() % 0x100000000) as u32)),
{
    e.inner.finish()
}

/// A stream encoder: one variant per encoding, each owning its output
/// buffer, with uniform write, flush and finish operations.
pub enum Encoder {
    Deflate(DeflateSink),
    Gzip(GzipSink),
    Uncompressed(Vec<u8>),
}

impl Encoder {
    /// A fresh encoder for the given encoding, over an output buffer
    /// with the given initial capacity.
    pub fn new(encoding: Encoding, capacity: usize) -> (r: Encoder)
        ensures
            r.spec_encoding() == encoding,
            r.fed() == Seq::<u8>::empty(),
            r.clean(),
    {
        let writer = Vec::<u8>::with_capacity(capacity);
        match encoding {
            Encoding::Gzip => Encoder::Gzip(new_gzip_encoder(writer)),
            Encoding::Deflate => Encoder::Deflate(new_deflate_encoder(writer)),
            Encoding::Uncompressed => Encoder::Uncompressed(writer),
        }
    }

    /// Which encoding this encoder produces.
    pub open spec fn spec_encoding(self) -> Encoding {
        match self {
            Encoder::Deflate(_) => Encoding::Deflate,
            Encoder::Gzip(_) => Encoding::Gzip,
            Encoder::Uncompressed(_) => Encoding::Uncompressed,
        }
    }

    /// The bytes fed to this encoder so far.
    pub open spec fn fed(self) -> Seq<u8> {
        match self {
            Encoder::Deflate(e) => deflate_fed(e),
            Encoder::Gzip(e) => gzip_fed(e),
            Encoder::Uncompressed(w) => w@,
        }
    }

    /// Whether this encoder has never been flushed mid-stream, so that
    /// finishing it yields the encoding of the bytes fed alone.
    pub open spec fn clean(self) -> bool {
        match self {
            Encoder::Deflate(e) => deflate_clean(e),
            Encoder::Gzip(e) => gzip_clean(e),
            Encoder::Uncompressed(_) => true,
        }
    }

    /// Feeds bytes to the encoder.  Writing into an in-memory buffer
    /// cannot fail: a nonempty prefix of `buf` is taken and its length
    /// returned; the identity path always takes everything.
    pub fn write(&mut self, buf: &[u8]) -> (r: Result<usize, std::io::Error>)
        ensures
            r is Ok,
            r matches Ok(n) ==> n <= buf@.len() && (buf@.len() > 0 ==> n >= 1) && final(self).fed()
                == old(self).fed() + buf@.subrange(0, n as int) && final(self).spec_encoding()
                == old(self).spec_encoding() && final(self).clean() == old(self).clean(),
            old(self).spec_encoding() is Uncompressed ==> (r matches Ok(n) && n == buf@.len()),
    {
        match self {
            Encoder::Deflate(e) => write_deflate_encoder(e, buf),
            Encoder::Gzip(e) => write_gzip_encoder(e, buf),
            Encoder::Uncompressed(w) => {
                let n = buf.len();
                let mut i: usize = 0;
                proof {
                    assert(old(self).fed() + buf@.subrange(0, 0) =~= old(self).fed());
                }
                while i < n
                    invariant
                        n == buf@.len(),
                        i <= n,
                        w@ == old(self).fed() + buf@.subrange(0, i as int),
                    decreases n - i,
                {
                    w.push(buf[i]);
                    proof {
                        assert(w@ =~= old(self).fed() + buf@.subrange(0, i + 1));
                    }
                    i += 1;
                }
                Ok(n)
            },
        }
    }

    /// Flushes the encoder, which over an in-memory buffer cannot
    /// fail.  The bytes fed stay as they were; for a compressed variant
    /// a mid-stream flush may change what the final stream looks like,
    /// so no more is promised of it afterwards.
    pub fn flush(&mut self) -> (r: Result<(), std::io::Error>)
        ensures
            r is Ok,
            final(self).fed() == old(self).fed(),
            final(self).spec_encoding() == old(self).spec_encoding(),
            old(self).spec_encoding() is Uncompressed ==> *final(self) == *old(self),
    {
        match self {
            Encoder::Deflate(e) => flush_deflate_encoder(e),
            Encoder::Gzip(e) => flush_gzip_encoder(e),
            Encoder::Uncompressed(_) => Ok(()),
        }
    }

    /// Consumes the encoder, finalizes any trailer and checksum, and
    /// returns the completed output buffer; over an in-memory buffer
    /// this cannot fail.  For a never-flushed encoder the buffer is
    /// exactly the encoding of the bytes fed; the identity path returns
    /// its buffer verbatim.
    pub fn finish(self) -> (r: Result<Vec<u8>, std::io::Error>)
        ensures
            r is Ok,
            r matches Ok(v) ==> (self.clean() ==> matches_encoded(
                self.spec_encoding(),
                self.fed(),
                v@,
            )),
            self.spec_encoding() is Uncompressed ==> (r matches Ok(v) && v@ == self.fed()),
    {
        match self {
            Encoder::Deflate(e) => finish_deflate_encoder(e),
            Encoder::Gzip(e) => {
                let ghost fed0 = gzip_fed(e);
                let ghost clean0 = gzip_clean(e);
                let r = finish_gzip_encoder(e);
                proof {
                    match r {
                        Ok(ref v) => {
                            if clean0 {
                                let os = choose|os: u8|
                                    v@ == #[trigger] gzip_header(os) + deflate_of(fed0) + le32(
                                        crc32_of(fed0),
                                    ) + le32((fed0.len() % 0x100000000) as u32);
                                assert(v@ == gzip_wrap(os, fed0));
                            }
                        },
                        Err(_) => {},
                    }
                }
                r
            },
            Encoder::Uncompressed(w) => Ok(w),
        }
    }

    /// Feeds the whole of `buf` to the encoder, writing until every
    /// byte has been taken; each write takes at least one byte, so this
    /// always succeeds.
    pub fn write_all(&mut self, buf: &[u8]) -> (r: Result<(), std::io::Error>)
        ensures
            r is Ok,
            final(self).fed() == old(self).fed() + buf@,
            final(self).spec_encoding() == old(self).spec_encoding(),
            final(self).clean() == old(self).clean(),
    {
        let n = buf.len();
        let mut done: usize = 0;
        proof {
            assert(old(self).fed() + buf@.subrange(0, 0) =~= old(self).fed());
        }
        while done < n
            invariant
                n == buf@.len(),
                done <= n,
                self.fed() == old(self).fed() + buf@.subrange(0, done as int),
                self.spec_encoding() == old(self).spec_encoding(),
                self.clean() == old(self).clean(),
            decreases n - done,
        {
            let ghost fed0 = self.fed();
            let taken = match self.write(slice_tail(buf, done)) {
                Ok(t) => t,
                Err(e) => {
                    return Err(e);
                },
            };
            proof {
                assert(self.fed() =~= old(self).fed() + buf@.subrange(0, done + taken));
            }
            done = done + taken;
        }
        proof {
            assert(old(self).fed() + buf@.subrange(0, n as int) =~= old(self).fed() + buf@);
        }
        Ok(())
    }
}

/// The tail of a slice from a given start.
fn slice_tail(buf: &[u8], from: usize) -> (r: &[u8])
    requires
        from <= buf@.len(),
    ensures
        r@ == buf@.subrange(from as int, buf@.len() as int),
{
    &buf[from..buf.len()]
}

} // verus!
