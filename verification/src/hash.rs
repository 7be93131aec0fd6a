//! SHA-256 digests of bytes and of files that are read chunk by chunk.
use vstd::prelude::*;

use crate::encode::{
    hex_encode, hex_of, is_hex_digit, is_hex_of, law_hex_denotes_the_bytes, law_hex_has_hex_digits,
};

verus! {

/// A running SHA-256 computation.
#[verifier::external_type_specification]
#[verifier::external_body]
pub struct ExSha256(sha2::Sha256);

/// The bytes that a hasher has taken in so far.
pub uninterp spec fn hashed_bytes(hasher: sha2::Sha256) -> Seq<u8>;

/// The SHA-256 digest of some bytes.
pub uninterp spec fn sha256_of(data: Seq<u8>) -> Seq<u8>;

/// SHA-256 is defined for fewer than 2^64 bits: this many bytes are too many.
pub const HASH_LIMIT: u64 = 0x2000_0000_0000_0000;

/// `Digest::new` gives a hasher that has taken in nothing.
#[verifier::external_body]
fn sha256_new() -> (hasher: sha2::Sha256)
    ensures
        hashed_bytes(hasher) == Seq::<u8>::empty(),
{
    sha2::Digest::new()
}

/// `Digest::update` takes in the data, behind what the hasher has already.
#[verifier::external_body]
fn sha256_update(hasher: &mut sha2::Sha256, data: &[u8])
    requires
        hashed_bytes(*old(hasher)).len() + data@.len() < HASH_LIMIT,
    ensures
        hashed_bytes(*final(hasher)) == hashed_bytes(*old(hasher)) + data@,
{
    sha2::Digest::update(hasher, data)
}

/// `Digest::finalize` gives the digest of everything that the hasher has taken in,
/// which is 32 bytes long.
#[verifier::external_body]
fn sha256_finalize(hasher: sha2::Sha256) -> (digest: Vec<u8>)
    requires
        hashed_bytes(hasher).len() < HASH_LIMIT,
    ensures
        digest@ == sha256_of(hashed_bytes(hasher)),
        digest@.len() == 32,
{
    sha2::Digest::finalize(hasher).to_vec()
}

/// The digest of some bytes, in hexadecimal.
pub open spec fn hex_digest(data: Seq<u8>) -> Seq<char> {
    hex_of(sha256_of(data))
}

/// Whether a text can be a digest in hexadecimal: 64 lower-case hexadecimal digits.
pub open spec fn is_digest_text(text: Seq<char>) -> bool {
    text.len() == 64 && forall|i: int| 0 <= i < text.len() ==> is_hex_digit(#[trigger] text[i])
}

/// A digest in hexadecimal.
pub fn digest_text(digest: &[u8]) -> (text: String)
    requires
        2 * digest@.len() <= isize::MAX,
    ensures
        text@ == hex_of(digest@),
        text@.len() == 2 * digest@.len(),
{
    hex_encode(digest)
}

/// Hashes bytes with SHA-256 and gives the digest in hexadecimal.
pub fn hash_bytes(data: &[u8]) -> (digest: String)
    requires
        data@.len() < HASH_LIMIT,
    ensures
        digest@ == hex_digest(data@),
        is_digest_text(digest@),
        is_hex_of(digest@, sha256_of(data@)),
{
    let mut hasher: sha2::Sha256 = sha256_new();
    sha256_update(&mut hasher, data);
    assert(hashed_bytes(hasher) =~= data@);
    let digest: Vec<u8> = sha256_finalize(hasher);
    proof {
        law_hex_has_hex_digits(digest@);
        law_hex_denotes_the_bytes(digest@);
    }
    digest_text(&digest)
}

/// The hash of a file that is read chunk by chunk.
pub struct FileHasher {
    hasher: sha2::Sha256,
    count: u64,
}

impl View for FileHasher {
    type V = Seq<u8>;

    /// What has been read of the file.
    closed spec fn view(&self) -> Seq<u8> {
        hashed_bytes(self.hasher)
    }
}

impl FileHasher {
    /// The count is that of the bytes read, and they are not too many.
    pub closed spec fn wf(&self) -> bool {
        self.count == hashed_bytes(self.hasher).len() && self.count < HASH_LIMIT
    }

    /// The hash of a file of which nothing has been read.
    pub fn new() -> (file: FileHasher)
        ensures
            file.wf(),
            file@ == Seq::<u8>::empty(),
    {
        FileHasher { hasher: sha256_new(), count: 0 }
    }

    /// Whether so many more bytes can be hashed.
    pub fn has_room(&self, len: usize) -> (room: bool)
        requires
            self.wf(),
        ensures
            room == (self@.len() + len < HASH_LIMIT),
    {
        (len as u64) < HASH_LIMIT - self.count
    }

    /// Takes in the chunk that was read into the first `len` bytes of the buffer.
    /// Whether to read on: an empty chunk is the end of the file.
    pub fn feed(&mut self, buffer: &[u8], len: usize) -> (more: bool)
        requires
            old(self).wf(),
            len <= buffer@.len(),
            old(self)@.len() + len < HASH_LIMIT,
        ensures
            final(self).wf(),
            final(self)@ == old(self)@ + buffer@.take(len as int),
            more == (len > 0),
    {
        if len == 0 {
            assert(self@ + buffer@.take(0) =~= self@);
            return false;
        }
        sha256_update(&mut self.hasher, &buffer[0..len]);
        self.count = self.count + len as u64;
        assert(buffer@.subrange(0, len as int) =~= buffer@.take(len as int));
        true
    }

    /// The digest of what has been read, in hexadecimal.
    pub fn finish(self) -> (digest: String)
        requires
            self.wf(),
        ensures
            digest@ == hex_digest(self@),
            is_digest_text(digest@),
            is_hex_of(digest@, sha256_of(self@)),
    {
        let digest: Vec<u8> = sha256_finalize(self.hasher);
        proof {
            law_hex_has_hex_digits(digest@);
            law_hex_denotes_the_bytes(digest@);
        }
        digest_text(&digest)
    }
}

/// What `digest_text` gives writes the digest in lower-case hexadecimal.
pub proof fn law_digest_text_denotes_the_digest(digest: &[u8], text: String)
    requires
        call_ensures(digest_text, (digest,), text),
    ensures
        is_hex_of(text@, digest@),
{
    law_hex_denotes_the_bytes(digest@);
}

/// What `hash_bytes` gives writes, byte for byte in lower-case hexadecimal, the SHA-256
/// digest of the data themselves, however long they are.
pub proof fn law_hash_is_the_digest_of_the_data(data: &[u8], text: String)
    requires
        call_ensures(hash_bytes, (data,), text),
    ensures
        text@.len() == 64,
        is_hex_of(text@, sha256_of(data@)),
{
    law_hex_denotes_the_bytes(sha256_of(data@));
}

/// What `finish` gives writes, byte for byte in lower-case hexadecimal, the SHA-256 digest of
/// what was read of the file, however long that is.
pub proof fn law_file_hash_is_the_digest_of_the_content(file: FileHasher, text: String)
    requires
        call_ensures(FileHasher::finish, (file,), text),
    ensures
        text@.len() == 64,
        is_hex_of(text@, sha256_of(file@)),
{
    law_hex_denotes_the_bytes(sha256_of(file@));
}

/// Whatever has fewer than 2^64 bits can be hashed, at once and chunk by chunk.
pub proof fn law_all_but_too_long_data_can_be_hashed(
    data: &[u8],
    file: FileHasher,
    len: usize,
    room: bool,
)
    requires
        call_ensures(FileHasher::has_room, (&file, len), room),
    ensures
        8 * data@.len() < 0x1_0000_0000_0000_0000 ==> call_requires(hash_bytes, (data,)),
        room <==> 8 * (file@.len() + len) < 0x1_0000_0000_0000_0000,
{
}

/// Whenever equal data are hashed, `hash_bytes` gives the same digest.
pub proof fn law_equal_data_have_equal_digests(a: &[u8], b: &[u8], x: String, y: String)
    requires
        a@ == b@,
        call_ensures(hash_bytes, (a,), x),
        call_ensures(hash_bytes, (b,), y),
    ensures
        x@ == y@,
{
}

/// Whenever files with the same content are read and hashed, the digest is the same.
pub proof fn law_equal_files_have_equal_digests(a: FileHasher, b: FileHasher, x: String, y: String)
    requires
        a@ == b@,
        call_ensures(FileHasher::finish, (a,), x),
        call_ensures(FileHasher::finish, (b,), y),
    ensures
        x@ == y@,
        is_digest_text(x@),
{
}

/// What a file hash holds after it was fed those chunks.
pub open spec fn fed(chunks: Seq<Seq<u8>>) -> Seq<u8>
    decreases chunks.len(),
{
    if chunks.len() == 0 {
        Seq::empty()
    } else {
        fed(chunks.drop_last()) + chunks.last()
    }
}

/// A file that is read chunk by chunk has the digest that its content has when it is
/// hashed at once, however it is cut into chunks.
pub proof fn law_chunks_do_not_matter(
    chunks: Seq<Seq<u8>>,
    content: &[u8],
    file: FileHasher,
    x: String,
    y: String,
)
    requires
        chunks.flatten() == content@,
        file@ == fed(chunks),
        call_ensures(FileHasher::finish, (file,), x),
        call_ensures(hash_bytes, (content,), y),
    ensures
        x@ == y@,
{
    lemma_fed(chunks);
}

/// Feeding chunks one by one is feeding all of them at once.
proof fn lemma_fed(chunks: Seq<Seq<u8>>)
    ensures
        fed(chunks) == chunks.flatten(),
    decreases chunks.len(),
{
    if chunks.len() > 0 {
        lemma_fed(chunks.drop_last());
        assert(chunks.drop_last().push(chunks.last()) =~= chunks);
        chunks.drop_last().lemma_flatten_push(chunks.last());
    }
}

} // verus!
