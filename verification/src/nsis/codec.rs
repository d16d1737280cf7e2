//! The compression kinds of NSIS and their decoders.
use bzip2::read::BzDecoder;
use flate2::read::DeflateDecoder;
use liblzma::read::XzDecoder;
use liblzma::stream::Stream;
use std::io::Read;
use vstd::prelude::*;

verus! {

/// How a blob is compressed.
#[derive(Debug, Clone, Copy, PartialEq, Eq, Structural)]
pub enum Compression {
    /// LZMA; `true` where the data went through the byte filter first.
    Lzma(bool),
    BZip2,
    Zlib,
    /// Not compressed.
    Stored,
}

/// The bytes of the properties that start an LZMA stream.
pub const LZMA_PROPERTIES_LEN: usize = 5;

/// The most bytes that one call decodes: what a vector can hold.
pub const MAX_DECODED_LEN: usize = isize::MAX as usize;

/// The first `n` bytes that `flate2` inflates the raw Deflate stream `input`
/// to, if the stream is sound and holds that many.
pub uninterp spec fn inflated(input: Seq<u8>, n: nat) -> Option<Seq<u8>>;

/// The first `n` bytes that `bzip2` decodes the stream `input` to, if the
/// stream is sound and holds that many.
pub uninterp spec fn bunzipped(input: Seq<u8>, n: nat) -> Option<Seq<u8>>;

/// The first `n` bytes that `liblzma` decodes the `.lzma` stream `input` to,
/// if the stream is sound and holds that many.
pub uninterp spec fn unlzmad(input: Seq<u8>, n: nat) -> Option<Seq<u8>>;

/// Calls `flate2::read::DeflateDecoder::new` and reads `n` bytes from the
/// decoder with `Read::read_exact`. Trusted: what comes back is `inflated` of
/// the input and `n`, and where bytes come back, there are `n` of them. The
/// buffer of `n` bytes must be one that a vector can hold.
#[verifier::external_body]
fn inflate_exact(input: &[u8], n: usize) -> (decoded: Option<Vec<u8>>)
    requires
        n <= MAX_DECODED_LEN,
    ensures
        bytes_view(decoded) == inflated(input@, n as nat),
        decoded is Some ==> decoded.unwrap()@.len() == n,
{
    let mut out = vec![0u8; n];
    DeflateDecoder::new(input).read_exact(&mut out).ok()?;
    Some(out)
}

/// Calls `bzip2::read::BzDecoder::new` and reads `n` bytes from the decoder
/// with `Read::read_exact`. Trusted: what comes back is `bunzipped` of the
/// input and `n`, and where bytes come back, there are `n` of them.
#[verifier::external_body]
fn bunzip_exact(input: &[u8], n: usize) -> (decoded: Option<Vec<u8>>)
    requires
        n <= MAX_DECODED_LEN,
    ensures
        bytes_view(decoded) == bunzipped(input@, n as nat),
        decoded is Some ==> decoded.unwrap()@.len() == n,
{
    let mut out = vec![0u8; n];
    BzDecoder::new(input).read_exact(&mut out).ok()?;
    Some(out)
}

/// Calls `liblzma::stream::Stream::new_lzma_decoder` without a memory limit
/// and `liblzma::read::XzDecoder::new_stream` on it, and reads `n` bytes from
/// the decoder with `Read::read_exact`. Trusted: what comes back is `unlzmad`
/// of the input and `n`, and where bytes come back, there are `n` of them.
#[verifier::external_body]
fn unlzma_exact(input: &[u8], n: usize) -> (decoded: Option<Vec<u8>>)
    requires
        n <= MAX_DECODED_LEN,
    ensures
        bytes_view(decoded) == unlzmad(input@, n as nat),
        decoded is Some ==> decoded.unwrap()@.len() == n,
{
    let mut out = vec![0u8; n];
    let stream = Stream::new_lzma_decoder(u64::MAX).ok()?;
    XzDecoder::new_stream(input, stream).read_exact(&mut out).ok()?;
    Some(out)
}

/// `n` bytes of ones.
pub open spec fn ones(n: nat) -> Seq<u8> {
    Seq::new(n, |i: int| 0xFFu8)
}

/// The stream that the LZMA decoder is given: the five bytes of properties,
/// eight bytes of ones for a length that is not known, and the rest.
pub open spec fn lzma_stream(input: Seq<u8>) -> Seq<u8> {
    input.subrange(0, 5) + ones(8) + input.skip(5)
}

/// Builds the stream that the LZMA decoder is given.
pub fn make_lzma_stream(input: &[u8]) -> (stream: Vec<u8>)
    requires
        input@.len() >= LZMA_PROPERTIES_LEN,
    ensures
        stream@ == lzma_stream(input@),
{
    let mut stream: Vec<u8> = Vec::new();
    let mut i: usize = 0;
    while i < 5
        invariant
            input@.len() >= 5,
            i <= 5,
            stream@ == input@.subrange(0, i as int),
        decreases 5 - i,
    {
        stream.push(input[i]);
        i = i + 1;
        assert(stream@ =~= input@.subrange(0, i as int));
    }
    let mut k: usize = 0;
    while k < 8
        invariant
            k <= 8,
            input@.len() >= 5,
            stream@ == input@.subrange(0, 5) + ones(k as nat),
        decreases 8 - k,
    {
        stream.push(0xFF);
        k = k + 1;
        assert(stream@ =~= input@.subrange(0, 5) + ones(k as nat));
    }
    while i < input.len()
        invariant
            input@.len() >= 5,
            5 <= i <= input@.len(),
            stream@ == input@.subrange(0, 5) + ones(8) + input@.subrange(5, i as int),
        decreases input.len() - i,
    {
        stream.push(input[i]);
        i = i + 1;
        assert(stream@ =~= input@.subrange(0, 5) + ones(8) + input@.subrange(5, i as int));
    }
    assert(input@.subrange(5, i as int) =~= input@.skip(5));
    stream
}

/// What copying `n` bytes out of data that is not compressed gives.
pub open spec fn stored_prefix(input: Seq<u8>, n: int) -> Option<Seq<u8>> {
    if n <= input.len() {
        Some(input.subrange(0, n))
    } else {
        None
    }
}

/// The first `n` bytes that `input` holds under `compression`, or nothing
/// where the stream is refused, ends before, or `n` is more than a vector
/// holds. Data that is not compressed is copied. An LZMA stream starts with
/// five bytes of properties and goes to the decoder with a length field of
/// ones behind them.
pub open spec fn decode_spec(compression: Compression, input: Seq<u8>, n: int) -> Option<Seq<u8>> {
    match compression {
        Compression::Stored => stored_prefix(input, n),
        Compression::Lzma(_) => if input.len() < LZMA_PROPERTIES_LEN || n > MAX_DECODED_LEN {
            None
        } else {
            unlzmad(lzma_stream(input), n as nat)
        },
        Compression::BZip2 => if n > MAX_DECODED_LEN {
            None
        } else {
            bunzipped(input, n as nat)
        },
        Compression::Zlib => if n > MAX_DECODED_LEN {
            None
        } else {
            inflated(input, n as nat)
        },
    }
}

/// The view of an optional vector.
pub open spec fn bytes_view(decoded: Option<Vec<u8>>) -> Option<Seq<u8>> {
    match decoded {
        Some(bytes) => Some(bytes@),
        None => None,
    }
}

/// Decodes the first `n` bytes that `input` holds under `compression`, or
/// nothing where the stream is refused or ends before.
pub fn decode_exact(compression: Compression, input: &[u8], n: usize) -> (decoded: Option<Vec<u8>>)
    ensures
        bytes_view(decoded) == decode_spec(compression, input@, n as int),
        decoded is Some ==> decoded.unwrap()@.len() == n,
{
    match compression {
        Compression::Lzma(_) => {
            if input.len() < LZMA_PROPERTIES_LEN || n > MAX_DECODED_LEN {
                None
            } else {
                let stream = make_lzma_stream(input);
                unlzma_exact(stream.as_slice(), n)
            }
        },
        Compression::BZip2 => {
            if n > MAX_DECODED_LEN {
                None
            } else {
                bunzip_exact(input, n)
            }
        },
        Compression::Zlib => {
            if n > MAX_DECODED_LEN {
                None
            } else {
                inflate_exact(input, n)
            }
        },
        Compression::Stored => {
            if n <= input.len() {
                let mut out: Vec<u8> = Vec::new();
                let mut i: usize = 0;
                while i < n
                    invariant
                        i <= n <= input@.len(),
                        out@ == input@.subrange(0, i as int),
                    decreases n - i,
                {
                    out.push(input[i]);
                    i = i + 1;
                    assert(out@ =~= input@.subrange(0, i as int));
                }
                Some(out)
            } else {
                None
            }
        },
    }
}

} // verus!
