//! SHA-256 of a message that arrives in pieces, computed by the `ring` crate.

use crate::hex::{digest_hex, hex_lower};
use vstd::prelude::*;

verus! {

/// `ring::digest::Context`, a digest computation in progress. Nothing of
/// what it holds is visible here.
#[verifier::external_type_specification]
#[verifier::external_body]
pub struct ExContext(ring::digest::Context);

/// The SHA-256 digest of `message`, as FIPS 180-4 defines it: what
/// `ring::digest::Context::finish` gives for a SHA-256 context that was fed
/// `message`. It is named, not defined: the computation is left to `ring`.
pub uninterp spec fn sha256(message: Seq<u8>) -> Seq<u8>;

/// The bytes that `context` has been fed by `ring::digest::Context::update`
/// since it was made, in order.
pub uninterp spec fn absorbed(context: ring::digest::Context) -> Seq<u8>;

/// Whether `context` was made by `ring::digest::Context::new` for
/// `ring::digest::SHA256`.
pub uninterp spec fn is_sha256(context: ring::digest::Context) -> bool;

/// The longest message, in bytes, of which `ring` gives a digest: its length
/// in bits has to fit in 64 bits.
pub const MAX_MESSAGE_LEN: u64 = 0x1FFF_FFFF_FFFF_FFFF;

/// The length of a SHA-256 digest in bytes.
pub const DIGEST_LEN: usize = 32;

/// The size of the pieces in which a message is fed where nothing else is
/// asked for.
pub const CHUNK_LEN: usize = 1024;

/// `ring::digest::Context::new` for `ring::digest::SHA256`. Trusted: the new
/// context is one for SHA-256 and has been fed nothing.
#[verifier::external_body]
fn context_new() -> (context: ring::digest::Context)
    ensures
        is_sha256(context),
        absorbed(context) == Seq::<u8>::empty(),
{
    ring::digest::Context::new(&ring::digest::SHA256)
}

/// `ring::digest::Context::update`. Trusted: the context keeps its
/// algorithm, and `data` is appended to what it has been fed.
#[verifier::external_body]
fn context_update(context: &mut ring::digest::Context, data: &[u8])
    ensures
        is_sha256(*final(context)) == is_sha256(*old(context)),
        absorbed(*final(context)) == absorbed(*old(context)) + data@,
{
    context.update(data)
}

/// `ring::digest::Context::finish`, and `as_ref` of the `Digest` that it
/// returns. Trusted: of a SHA-256 context that was fed `MAX_MESSAGE_LEN`
/// bytes or fewer (with more, `finish` panics) the result is the SHA-256
/// digest of all that it was fed, 32 bytes long.
#[verifier::external_body]
fn context_finish(context: ring::digest::Context) -> (digest: Vec<u8>)
    requires
        is_sha256(context),
        absorbed(context).len() <= MAX_MESSAGE_LEN,
    ensures
        digest@ == sha256(absorbed(context)),
        digest@.len() == DIGEST_LEN,
{
    context.finish().as_ref().to_vec()
}

/// Why a digest could not be had.
#[derive(Clone, Copy, Debug, PartialEq, Eq, Structural)]
pub enum DigestError {
    /// The message has more than `MAX_MESSAGE_LEN` bytes.
    MessageTooLong,
}

/// A SHA-256 computation in progress: it is fed a message piece by piece and
/// gives the digest of the whole in the end.
pub struct DigestStream {
    context: ring::digest::Context,
    /// How many bytes were fed; `u64::MAX` where there were as many or more.
    fed: u64,
}

impl View for DigestStream {
    type V = Seq<u8>;

    /// The message so far: all that the stream was fed, in order.
    closed spec fn view(&self) -> Seq<u8> {
        absorbed(self.context)
    }
}

impl DigestStream {
    #[verifier::type_invariant]
    spec fn counted(self) -> bool {
        &&& is_sha256(self.context)
        &&& self.fed == if absorbed(self.context).len() < u64::MAX {
            absorbed(self.context).len() as int
        } else {
            u64::MAX as int
        }
    }

    /// A stream that was fed nothing yet.
    pub fn new() -> (stream: Self)
        ensures
            stream@ == Seq::<u8>::empty(),
    {
        DigestStream { context: context_new(), fed: 0 }
    }

    /// Feeds `chunk` to the stream: the message grows by it at its end.
    pub fn absorb(self, chunk: &[u8]) -> (next: Self)
        ensures
            next@ == self@ + chunk@,
    {
        proof {
            use_type_invariant(&self);
        }
        let DigestStream { mut context, fed } = self;
        context_update(&mut context, chunk);
        let room: u64 = u64::MAX - fed;
        let fed: u64 = if chunk.len() as u64 >= room {
            u64::MAX
        } else {
            fed + chunk.len() as u64
        };
        DigestStream { context, fed }
    }

    /// Tells whether the message so far is short enough for a digest.
    pub fn within_limit(&self) -> (r: bool)
        ensures
            r == (self@.len() <= MAX_MESSAGE_LEN),
    {
        proof {
            use_type_invariant(self);
        }
        self.fed <= MAX_MESSAGE_LEN
    }

    /// Ends the stream and gives the SHA-256 digest of the message; an error
    /// where the message is longer than `MAX_MESSAGE_LEN`.
    pub fn finish(self) -> (r: Result<Vec<u8>, DigestError>)
        ensures
            match r {
                Ok(digest) => {
                    &&& self@.len() <= MAX_MESSAGE_LEN
                    &&& digest@ == sha256(self@)
                    &&& digest@.len() == DIGEST_LEN
                },
                Err(e) => self@.len() > MAX_MESSAGE_LEN && e == DigestError::MessageTooLong,
            },
    {
        proof {
            use_type_invariant(&self);
        }
        if self.fed <= MAX_MESSAGE_LEN {
            Ok(context_finish(self.context))
        } else {
            Err(DigestError::MessageTooLong)
        }
    }

    /// Ends the stream and gives the SHA-256 digest of the message in
    /// lower-case hexadecimal digits; an error where the message is longer
    /// than `MAX_MESSAGE_LEN`.
    pub fn finish_hex(self) -> (r: Result<String, DigestError>)
        ensures
            match r {
                Ok(text) => {
                    &&& self@.len() <= MAX_MESSAGE_LEN
                    &&& text@ == hex_lower(sha256(self@))
                    &&& text@.len() == 2 * DIGEST_LEN
                },
                Err(e) => self@.len() > MAX_MESSAGE_LEN && e == DigestError::MessageTooLong,
            },
    {
        match self.finish() {
            Ok(digest) => Ok(digest_hex(digest.as_slice())),
            Err(e) => Err(e),
        }
    }

    /// One step of reading a file into the stream. A read has put `count`
    /// bytes at the front of `buffer`: they are fed to the stream, and the
    /// answer tells whether to read on. A read of no bytes is the end of the
    /// file.
    pub fn feed(self, buffer: &[u8], count: usize) -> (r: (Self, bool))
        requires
            count <= buffer@.len(),
        ensures
            r.0@ == self@ + buffer@.take(count as int),
            r.1 == (count != 0),
    {
        if count == 0 {
            assert(self@ + buffer@.take(0) =~= self@);
            (self, false)
        } else {
            let chunk = vstd::slice::slice_subrange(buffer, 0, count);
            (self.absorb(chunk), true)
        }
    }
}

/// The SHA-256 digest of `data`, which is fed to the computation in pieces
/// of `chunk_len` bytes, the last one shorter where the length asks for it.
/// The digest is that of `data`, whatever `chunk_len` is.
pub fn sha256_digest_in_chunks(data: &[u8], chunk_len: usize) -> (r: Result<Vec<u8>, DigestError>)
    requires
        chunk_len > 0,
    ensures
        match r {
            Ok(digest) => {
                &&& data@.len() <= MAX_MESSAGE_LEN
                &&& digest@ == sha256(data@)
                &&& digest@.len() == DIGEST_LEN
            },
            Err(e) => data@.len() > MAX_MESSAGE_LEN && e == DigestError::MessageTooLong,
        },
{
    let mut stream = DigestStream::new();
    let mut pos: usize = 0;
    while pos < data.len()
        invariant
            chunk_len > 0,
            pos <= data.len(),
            stream@ == data@.take(pos as int),
        decreases data.len() - pos,
    {
        let left: usize = data.len() - pos;
        let count: usize = if left < chunk_len {
            left
        } else {
            chunk_len
        };
        let chunk = vstd::slice::slice_subrange(data, pos, pos + count);
        stream = stream.absorb(chunk);
        assert(data@.take(pos as int) + data@.subrange(pos as int, pos + count) =~= data@.take(
            pos + count,
        ));
        pos = pos + count;
    }
    assert(data@.take(pos as int) =~= data@);
    stream.finish()
}

/// The SHA-256 digest of `data`, fed in pieces of `CHUNK_LEN` bytes.
pub fn sha256_digest(data: &[u8]) -> (r: Result<Vec<u8>, DigestError>)
    ensures
        match r {
            Ok(digest) => {
                &&& data@.len() <= MAX_MESSAGE_LEN
                &&& digest@ == sha256(data@)
                &&& digest@.len() == DIGEST_LEN
            },
            Err(e) => data@.len() > MAX_MESSAGE_LEN && e == DigestError::MessageTooLong,
        },
{
    sha256_digest_in_chunks(data, CHUNK_LEN)
}

/// The digest of the content of a file in lower-case hexadecimal digits, as
/// it is compared with a published hash. The same content gives the same
/// text, in whatever pieces it is fed.
pub fn compute_local_digest(content: &[u8]) -> (r: Result<String, DigestError>)
    ensures
        match r {
            Ok(text) => {
                &&& content@.len() <= MAX_MESSAGE_LEN
                &&& text@ == hex_lower(sha256(content@))
                &&& text@.len() == 2 * DIGEST_LEN
            },
            Err(e) => content@.len() > MAX_MESSAGE_LEN && e == DigestError::MessageTooLong,
        },
{
    match sha256_digest(content) {
        Ok(digest) => Ok(digest_hex(digest.as_slice())),
        Err(e) => Err(e),
    }
}

} // verus!
