//! Checksums: a running SHA-256 over the chunks of a file, written in
//! hexadecimal.

use vstd::prelude::*;
use crate::text::join2;
use sha2::Digest;

verus! {

/// The name of the one algorithm that checksums are computed with.
pub const SHA256: &'static str = "sha256";

/// A SHA-256 computation under way, as the `sha2` crate runs it.
#[verifier::external_body]
pub struct Sha256Stream {
    inner: sha2::Sha256,
}

/// The bytes that a computation has taken in so far, in their order.
pub uninterp spec fn taken(stream: Sha256Stream) -> Seq<u8>;

/// The SHA-256 digest of a sequence of bytes.
pub uninterp spec fn sha256(data: Seq<u8>) -> Seq<u8>;

/// `Sha256::new`: a computation that has taken in nothing.
#[verifier::external_body]
fn stream_new() -> (r: Sha256Stream)
    ensures
        taken(r) == Seq::<u8>::empty(),
{
    Sha256Stream { inner: sha2::Sha256::new() }
}

/// `Digest::update`: the computation takes in the bytes of the chunk after
/// those that it has.
#[verifier::external_body]
fn stream_update(stream: &mut Sha256Stream, chunk: &[u8])
    ensures
        taken(*final(stream)) == taken(*old(stream)) + chunk@,
{
    stream.inner.update(chunk);
}

/// `Digest::finalize`: the digest of all the bytes that were taken in, which
/// depends on those bytes alone.
#[verifier::external_body]
fn stream_finalize(stream: Sha256Stream) -> (r: Vec<u8>)
    ensures
        r@ == sha256(taken(stream)),
{
    stream.inner.finalize().to_vec()
}

/// The hexadecimal digit for a number below sixteen, in lower case.
pub open spec fn hex_digit(d: int) -> char {
    if d == 10 {
        'a'
    } else if d == 11 {
        'b'
    } else if d == 12 {
        'c'
    } else if d == 13 {
        'd'
    } else if d == 14 {
        'e'
    } else if d == 15 {
        'f'
    } else {
        crate::text::digit(d)
    }
}

/// The bytes in hexadecimal: two digits for each, the high one first.
pub open spec fn hex_of(data: Seq<u8>) -> Seq<char>
    decreases data.len(),
{
    if data.len() == 0 {
        Seq::empty()
    } else {
        hex_of(data.drop_last()).push(hex_digit(data.last() as int / 16)).push(
            hex_digit(data.last() as int % 16),
        )
    }
}

/// `hex::encode`: two lowercase hexadecimal digits for each byte.
#[verifier::external_body]
fn hex_encode(data: &[u8]) -> (r: String)
    ensures
        r@ == hex_of(data@),
{
    hex::encode(data)
}

/// A checksum was asked for with an algorithm that is not `sha256`.
#[derive(Clone, Debug, PartialEq, Eq)]
pub struct UnsupportedAlgorithm {
    pub algorithm: String,
}

impl UnsupportedAlgorithm {
    /// The error in words.
    pub fn message(&self) -> (r: String)
        ensures
            r@ == "Unsupported checksum algorithm: "@ + self.algorithm@,
    {
        join2("Unsupported checksum algorithm: ", self.algorithm.as_str())
    }
}

/// A checksum under way: it takes in a file chunk by chunk.
pub struct Hasher {
    stream: Sha256Stream,
}

impl Hasher {
    /// The bytes taken in so far.
    pub closed spec fn content(&self) -> Seq<u8> {
        taken(self.stream)
    }

    /// Starts a checksum with the algorithm called `algorithm`, which must
    /// be `sha256`.
    pub fn new(algorithm: &str) -> (r: Result<Hasher, UnsupportedAlgorithm>)
        ensures
            match r {
                Ok(h) => algorithm@ == SHA256@ && h.content() == Seq::<u8>::empty(),
                Err(e) => algorithm@ != SHA256@ && e.algorithm@ == algorithm@,
            },
    {
        if algorithm.eq(SHA256) {
            Ok(Hasher { stream: stream_new() })
        } else {
            Err(UnsupportedAlgorithm { algorithm: algorithm.to_owned() })
        }
    }

    /// Takes in the next chunk.
    pub fn update(&mut self, chunk: &[u8])
        ensures
            final(self).content() == old(self).content() + chunk@,
    {
        stream_update(&mut self.stream, chunk);
    }

    /// The checksum of all that was taken in, in hexadecimal.
    pub fn finish(self) -> (r: String)
        ensures
            r@ == hex_of(sha256(self.content())),
    {
        let digest = stream_finalize(self.stream);
        hex_encode(digest.as_slice())
    }
}

/// The chunks one after another.
pub open spec fn concat(chunks: Seq<Vec<u8>>) -> Seq<u8>
    decreases chunks.len(),
{
    if chunks.len() == 0 {
        Seq::empty()
    } else {
        concat(chunks.drop_last()) + chunks.last()@
    }
}

/// The checksum, in hexadecimal, of the content that the chunks make up.
pub fn hexdigest(algorithm: &str, chunks: &Vec<Vec<u8>>) -> (r: Result<
    String,
    UnsupportedAlgorithm,
>)
    ensures
        match r {
            Ok(value) => algorithm@ == SHA256@ && value@ == hex_of(sha256(concat(chunks@))),
            Err(e) => algorithm@ != SHA256@ && e.algorithm@ == algorithm@,
        },
{
    let mut hasher = Hasher::new(algorithm)?;
    let mut i: usize = 0;
    while i < chunks.len()
        invariant
            i <= chunks.len(),
            hasher.content() == concat(chunks@.take(i as int)),
        decreases chunks.len() - i,
    {
        proof {
            assert(chunks@.take(i + 1).drop_last() == chunks@.take(i as int));
            assert(chunks@.take(i + 1).last() == chunks[i as int]);
        }
        hasher.update(chunks[i].as_slice());
        i += 1;
    }
    assert(chunks@.take(chunks.len() as int) == chunks@);
    Ok(hasher.finish())
}

} // verus!
