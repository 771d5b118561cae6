//! SHA-1 digests of staged files, as the manifest records them.

use vstd::prelude::*;
use crate::text::digit_char;

verus! {

/// The SHA-1 digest of a byte string, as the `sha1` crate computes it.
pub uninterp spec fn sha1_digest(data: Seq<u8>) -> Seq<u8>;

/// A running SHA-1 computation: a `sha1::Sha1` of the `sha1` crate. Verus
/// cannot take the type's declaration, so the value is kept out of its sight.
#[verifier::external_body]
pub struct Sha1State {
    inner: sha1::Sha1,
}

/// The bytes a hasher has been fed so far, in order.
pub uninterp spec fn sha1_absorbed(hasher: Sha1State) -> Seq<u8>;

/// `sha1::Digest::new`: a hasher that has been fed nothing.
#[verifier::external_body]
fn sha1_new() -> (hasher: Sha1State)
    ensures
        sha1_absorbed(hasher) == Seq::<u8>::empty(),
{
    Sha1State { inner: <sha1::Sha1 as sha1::Digest>::new() }
}

/// `sha1::Digest::update`: feeds `chunk` to the hasher, after what it was
/// fed before.
#[verifier::external_body]
fn sha1_update(hasher: &mut Sha1State, chunk: &[u8])
    ensures
        sha1_absorbed(*final(hasher)) == sha1_absorbed(*old(hasher)) + chunk@,
{
    sha1::Digest::update(&mut hasher.inner, chunk)
}

/// `sha1::Digest::finalize`: the digest of everything the hasher was fed,
/// which is 20 bytes long.
#[verifier::external_body]
fn sha1_finalize(hasher: Sha1State) -> (digest: Vec<u8>)
    ensures
        digest@ == sha1_digest(sha1_absorbed(hasher)),
        digest@.len() == 20,
{
    sha1::Digest::finalize(hasher.inner).to_vec()
}

/// The character that writes the hexadecimal digit `n` in lower case.
pub open spec fn hex_digit(n: int) -> char {
    if n < 10 {
        digit_char(n)
    } else if n == 10 {
        'a'
    } else if n == 11 {
        'b'
    } else if n == 12 {
        'c'
    } else if n == 13 {
        'd'
    } else if n == 14 {
        'e'
    } else {
        'f'
    }
}

/// `data` in lower-case hexadecimal: two digits for each byte, the high
/// half first.
pub open spec fn hex_lower(data: Seq<u8>) -> Seq<char> {
    Seq::new(
        2 * data.len(),
        |i: int|
            if i % 2 == 0 {
                hex_digit(data[i / 2] as int / 16)
            } else {
                hex_digit(data[i / 2] as int % 16)
            },
    )
}

/// `hex::encode`: `data` in lower-case hexadecimal, two digits for each
/// byte, the high half first.
#[verifier::external_body]
fn hex_encode(data: &[u8]) -> (text: String)
    ensures
        text@ == hex_lower(data@),
{
    hex::encode(data)
}

/// What the manifest records as the hash of a file with these bytes.
pub open spec fn manifest_hash(data: Seq<u8>) -> Seq<char> {
    hex_lower(sha1_digest(data))
}

/// The hash of a file that is read piece by piece.
pub struct ManifestHasher {
    state: Sha1State,
}

impl ManifestHasher {
    /// The bytes fed so far, in order.
    pub closed spec fn absorbed(&self) -> Seq<u8> {
        sha1_absorbed(self.state)
    }

    /// A hasher that has been fed nothing.
    pub fn new() -> (r: Self)
        ensures
            r.absorbed() == Seq::<u8>::empty(),
    {
        ManifestHasher { state: sha1_new() }
    }

    /// Feeds `chunk` after what was fed before.
    pub fn update(&mut self, chunk: &[u8])
        ensures
            final(self).absorbed() == old(self).absorbed() + chunk@,
    {
        sha1_update(&mut self.state, chunk);
    }

    /// The manifest hash of everything that was fed: 40 hexadecimal digits.
    pub fn finish(self) -> (r: String)
        ensures
            r@ == manifest_hash(self.absorbed()),
            r@.len() == 40,
    {
        let digest = sha1_finalize(self.state);
        hex_encode(digest.as_slice())
    }
}

/// The manifest hash of `data`.
pub fn hash_bytes(data: &[u8]) -> (r: String)
    ensures
        r@ == manifest_hash(data@),
{
    let mut hasher = ManifestHasher::new();
    hasher.update(data);
    proof {
        assert(Seq::<u8>::empty() + data@ =~= data@);
    }
    hasher.finish()
}

/// The manifest hash of the file whose bytes are `chunks`, one after the
/// other.
pub fn hash_chunks(chunks: &Vec<Vec<u8>>) -> (r: String)
    ensures
        r@ == manifest_hash(chunks@.map_values(|c: Vec<u8>| c@).flatten()),
{
    let ghost pieces = chunks@.map_values(|c: Vec<u8>| c@);
    let mut hasher = ManifestHasher::new();
    let mut i: usize = 0;
    proof {
        assert(pieces.take(0).flatten() =~= Seq::<u8>::empty());
    }
    while i < chunks.len()
        invariant
            i <= chunks.len(),
            pieces == chunks@.map_values(|c: Vec<u8>| c@),
            hasher.absorbed() == pieces.take(i as int).flatten(),
        decreases chunks.len() - i,
    {
        proof {
            assert(pieces.take(i as int + 1) =~= pieces.take(i as int).push(chunks@[i as int]@));
            pieces.take(i as int).lemma_flatten_push(chunks@[i as int]@);
        }
        hasher.update(chunks[i].as_slice());
        i += 1;
    }
    proof {
        assert(pieces.take(chunks@.len() as int) =~= pieces);
    }
    hasher.finish()
}

/// The hash of a file depends on its bytes alone, not on the pieces it was
/// read in: two runs over files of the same bytes record the same hash.
pub proof fn lemma_hash_ignores_chunking(first: Seq<Seq<u8>>, second: Seq<Seq<u8>>)
    requires
        first.flatten() == second.flatten(),
    ensures
        manifest_hash(first.flatten()) == manifest_hash(second.flatten()),
{
}

} // verus!
