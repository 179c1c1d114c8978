//! Content digests: a file is fed to the hasher piece by piece, and two files
//! count as the same content where their digests are equal.

use vstd::prelude::*;
use crypto::digest::Digest;
use crypto::md5::Md5;

verus! {

/// The size of the pieces in which a file is read for hashing.
pub const BUF_SIZE: usize = 1024 * 1024;

/// The MD5 state of the `crypto` crate.
#[verifier::external_type_specification]
#[verifier::external_body]
pub struct ExMd5(Md5);

/// The message that a hasher has been given so far: the bytes of every
/// `input`, in order.
pub uninterp spec fn absorbed(hasher: Md5) -> Seq<u8>;

/// Whether a hasher has been asked for its result. Such a hasher takes no
/// more input.
pub uninterp spec fn is_finished(hasher: Md5) -> bool;

/// The MD5 digest of `message` in the form that `Digest::result_str` gives it:
/// lower-case hexadecimal.
pub uninterp spec fn md5_hex(message: Seq<u8>) -> Seq<char>;

/// `Md5::new`: a hasher that has been given nothing and asked for nothing.
#[verifier::external_body]
fn md5_new() -> (hasher: Md5)
    ensures
        absorbed(hasher) == Seq::<u8>::empty(),
        !is_finished(hasher),
{
    Md5::new()
}

/// `Digest::input` on an `Md5`: the bytes of `data` are added to the message.
/// The call panics on a hasher that has been asked for its result, and the
/// hasher counts the bytes of its message in a `u64`: both are left out.
#[verifier::external_body]
fn md5_input(hasher: &mut Md5, data: &[u8])
    requires
        !is_finished(*old(hasher)),
        absorbed(*old(hasher)).len() + data@.len() <= u64::MAX,
    ensures
        absorbed(*final(hasher)) == absorbed(*old(hasher)) + data@,
        !is_finished(*final(hasher)),
{
    hasher.input(data)
}

/// `Digest::result_str` on an `Md5`: the digest of the message given so far.
/// The hasher is taken by value: the call finishes its own copy, and no
/// hasher of the caller changes.
#[verifier::external_body]
fn md5_result_str(hasher: Md5) -> (digest: String)
    ensures
        digest@ == md5_hex(absorbed(hasher)),
{
    let mut hasher = hasher;
    hasher.result_str()
}

/// A digest in the making.
pub struct ContentHasher {
    inner: Md5,
    length: u64,
}

impl View for ContentHasher {
    type V = Seq<u8>;

    /// The content that has been fed so far.
    closed spec fn view(&self) -> Seq<u8> {
        absorbed(self.inner)
    }
}

impl ContentHasher {
    /// The hasher keeps count of what it has been fed, and has not been
    /// asked for its result.
    #[verifier::type_invariant]
    spec fn counts(&self) -> bool {
        self.length == absorbed(self.inner).len() && !is_finished(self.inner)
    }

    /// A hasher that has been fed nothing.
    pub fn new() -> (hasher: ContentHasher)
        ensures
            hasher@ == Seq::<u8>::empty(),
    {
        ContentHasher { inner: md5_new(), length: 0 }
    }

    /// Feeds `chunk` to the hasher. Content of 2^64 bytes or more cannot be
    /// hashed: a chunk that would take the content there is refused, and the
    /// hasher stays as it was.
    pub fn update(&mut self, chunk: &[u8]) -> (taken: bool)
        ensures
            taken == (old(self)@.len() + chunk@.len() <= u64::MAX),
            taken ==> final(self)@ == old(self)@ + chunk@,
            !taken ==> final(self)@ == old(self)@,
    {
        proof {
            use_type_invariant(&*self);
        }
        match self.length.checked_add(chunk.len() as u64) {
            Some(length) => {
                let mut inner = self.inner;
                md5_input(&mut inner, chunk);
                *self = ContentHasher { inner, length };
                true
            },
            None => false,
        }
    }

    /// The digest of the content that was fed.
    pub fn digest(self) -> (digest: String)
        ensures
            digest@ == md5_hex(self@),
    {
        md5_result_str(self.inner)
    }
}

/// The digest of `content`.
pub fn hash_bytes(content: &[u8]) -> (digest: String)
    ensures
        digest@ == md5_hex(content@),
{
    let mut hasher = ContentHasher::new();
    let taken = hasher.update(content);
    assert(taken) by {
        assert(content@.len() == content.len());
    }
    assert(hasher@ =~= content@);
    hasher.digest()
}

} // verus!
