//! Reading an upload through a fixed buffer, feeding every chunk that is
//! stored to the hasher, and naming the file by its hash.
use super::bucket::{get_hash_str, spec_hash_text};
use super::digest::{md5_digest, md5_input, md5_new, md5_update, Md5Hasher};
use crate::common::text::all_digits;
use vstd::prelude::*;
use vstd::slice::slice_to_vec;

verus! {

/// What one read of the upload stream gave.
pub enum ReadOutcome {
    /// The bytes read, at most as many as the buffer holds; none at the end
    /// of the stream.
    Read(Vec<u8>),
    /// The read failed.
    Failed,
}

/// An upload in progress: the buffer it is read through, and the hasher
/// that has been fed every chunk handed out to be stored.
pub struct UploadSession {
    read_size: usize,
    buffer: Vec<u8>,
    hasher: Md5Hasher,
    written: Ghost<Seq<u8>>,
}

impl UploadSession {
    /// The bytes handed out to be stored so far, in order.
    pub closed spec fn written(&self) -> Seq<u8> {
        self.written@
    }

    /// The content of the read buffer.
    pub closed spec fn buffer(&self) -> Seq<u8> {
        self.buffer@
    }

    /// The size the buffer was made with.
    pub closed spec fn read_size(&self) -> nat {
        self.read_size as nat
    }

    /// The hasher has been fed exactly what was handed out, and the buffer
    /// never grows past its first size.
    pub closed spec fn wf(&self) -> bool {
        &&& md5_input(self.hasher) == self.written@
        &&& self.buffer@.len() <= self.read_size
    }

    /// A session whose buffer holds `read_size` zero bytes.
    pub fn new(read_size: usize) -> (session: Self)
        ensures
            session.wf(),
            session.read_size() == read_size,
            session.buffer() == Seq::new(read_size as nat, |i: int| 0u8),
            session.written() == Seq::<u8>::empty(),
    {
        let mut buffer: Vec<u8> = Vec::new();
        let mut i: usize = 0;
        while i < read_size
            invariant
                i <= read_size,
                buffer@ == Seq::new(i as nat, |j: int| 0u8),
            decreases read_size - i,
        {
            buffer.push(0);
            i = i + 1;
            assert(buffer@ =~= Seq::new(i as nat, |j: int| 0u8));
        }
        UploadSession { read_size, buffer, hasher: md5_new(), written: Ghost(Seq::empty()) }
    }

    /// How many bytes the next read may give.
    pub fn read_capacity(&self) -> (capacity: usize)
        ensures
            capacity == self.buffer().len(),
    {
        self.buffer.len()
    }

    /// Takes in the outcome of a read and says what to store next: nothing
    /// when the stream has ended; otherwise the buffer, which holds the bytes
    /// just read, or, after a failed read, what it held before. What is
    /// handed out is fed to the hasher.
    pub fn on_read(&mut self, outcome: ReadOutcome) -> (chunk: Option<Vec<u8>>)
        requires
            old(self).wf(),
            match outcome {
                ReadOutcome::Read(data) => data@.len() <= old(self).buffer().len(),
                ReadOutcome::Failed => true,
            },
        ensures
            final(self).wf(),
            final(self).read_size() == old(self).read_size(),
            match outcome {
                ReadOutcome::Read(data) => if data@.len() == 0 {
                    &&& chunk is None
                    &&& final(self).buffer() == old(self).buffer()
                    &&& final(self).written() == old(self).written()
                } else {
                    &&& chunk matches Some(c) && c@ == data@
                    &&& final(self).buffer() == data@
                    &&& final(self).written() == old(self).written() + data@
                },
                ReadOutcome::Failed => {
                    &&& chunk matches Some(c) && c@ == old(self).buffer()
                    &&& final(self).buffer() == old(self).buffer()
                    &&& final(self).written() == old(self).written() + old(self).buffer()
                },
            },
    {
        match outcome {
            ReadOutcome::Read(data) => {
                if data.len() == 0 {
                    return None;
                }
                self.buffer = data;
            },
            ReadOutcome::Failed => {},
        }
        md5_update(&mut self.hasher, self.buffer.as_slice());
        proof {
            self.written@ = self.written@ + self.buffer@;
        }
        Some(slice_to_vec(self.buffer.as_slice()))
    }

    /// The text that names the upload: the MD5 digest of everything handed
    /// out to be stored, each byte written in decimal.
    pub fn finish(self) -> (hash: String)
        requires
            self.wf(),
        ensures
            md5_digest(self.written()).len() == 16,
            hash@ == spec_hash_text(md5_digest(self.written())),
            16 <= hash@.len() <= 48,
            all_digits(hash@),
    {
        get_hash_str(self.hasher)
    }
}

} // verus!
