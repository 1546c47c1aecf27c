//! How a stored file is walked through in chunks: skipping its head before
//! a partial download, and cutting a download into reads of the stored
//! chunk size.
use crate::SKIP_BUFFER_SIZE;
use vstd::arithmetic::div_mod::{
    lemma_basic_div, lemma_div_plus_one, lemma_fundamental_div_mod, lemma_mod_pos_bound,
};
use vstd::prelude::*;

verus! {

/// The reads that cover `remaining` bytes with reads of at most `chunk`
/// bytes: full reads, then what is left.
pub open spec fn chunk_sizes(remaining: nat, chunk: nat) -> Seq<nat>
    decreases remaining,
{
    if remaining == 0 || chunk == 0 {
        Seq::<nat>::empty()
    } else if remaining <= chunk {
        seq![remaining]
    } else {
        seq![chunk] + chunk_sizes((remaining - chunk) as nat, chunk)
    }
}

/// The number of bytes the reads `sizes` cover together.
pub open spec fn total(sizes: Seq<nat>) -> nat
    decreases sizes.len(),
{
    if sizes.len() == 0 {
        0
    } else {
        sizes[0] + total(sizes.drop_first())
    }
}

/// With a nonzero chunk size, the reads cover exactly the remaining bytes;
/// every read takes at least one byte and at most a chunk, and every read
/// but the last takes a whole chunk.
pub proof fn lemma_chunks_cover(remaining: nat, chunk: nat)
    requires
        chunk > 0,
    ensures
        total(chunk_sizes(remaining, chunk)) == remaining,
        forall|i: int|
            0 <= i < chunk_sizes(remaining, chunk).len() ==> 0 < #[trigger] chunk_sizes(remaining, chunk)[i] <= chunk,
        forall|i: int|
            0 <= i < chunk_sizes(remaining, chunk).len() - 1 ==> #[trigger] chunk_sizes(remaining, chunk)[i] == chunk,
    decreases remaining,
{
    let sizes = chunk_sizes(remaining, chunk);
    if remaining == 0 {
    } else if remaining <= chunk {
        assert(sizes.drop_first() =~= Seq::<nat>::empty());
        assert(total(Seq::<nat>::empty()) == 0);
    } else {
        let rest = chunk_sizes((remaining - chunk) as nat, chunk);
        lemma_chunks_cover((remaining - chunk) as nat, chunk);
        assert(sizes.drop_first() =~= rest);
        assert(total(sizes) == chunk + total(rest));
        assert forall|i: int| 0 <= i < sizes.len() implies 0 < #[trigger] sizes[i] <= chunk by {
            if i > 0 {
                assert(sizes[i] == rest[i - 1]);
            }
        }
        assert forall|i: int| 0 <= i < sizes.len() - 1 implies #[trigger] sizes[i] == chunk by {
            if i > 0 {
                assert(sizes[i] == rest[i - 1]);
            }
        }
    }
}

/// With a nonzero chunk size, `remaining` bytes take `ceil(remaining / chunk)`
/// reads, and none exactly when nothing remains.
pub proof fn lemma_chunk_count(remaining: nat, chunk: nat)
    requires
        chunk > 0,
    ensures
        chunk_sizes(remaining, chunk).len() == (remaining + chunk - 1) / (chunk as int),
        chunk_sizes(remaining, chunk).len() == 0 <==> remaining == 0,
    decreases remaining,
{
    let c = chunk as int;
    if remaining == 0 {
        lemma_basic_div(c - 1, c);
    } else {
        let x = remaining - 1;
        lemma_div_plus_one(x, c);
        assert(remaining + c - 1 == c + x);
        if remaining <= chunk {
            lemma_basic_div(x, c);
        } else {
            lemma_chunk_count((remaining - chunk) as nat, chunk);
            assert((remaining - chunk) + c - 1 == x);
            assert(chunk_sizes(remaining, chunk).len() == 1 + chunk_sizes(
                (remaining - chunk) as nat,
                chunk,
            ).len());
        }
    }
}

/// The first read of a plan, and the plan for what it leaves.
proof fn lemma_chunk_step(remaining: nat, chunk: nat)
    requires
        remaining > 0,
        chunk > 0,
    ensures
        chunk_sizes(remaining, chunk).len() > 0,
        chunk_sizes(remaining, chunk)[0] == if remaining <= chunk { remaining } else { chunk },
        chunk_sizes(remaining, chunk).drop_first() == chunk_sizes(
            (remaining - chunk_sizes(remaining, chunk)[0]) as nat,
            chunk,
        ),
{
    let sizes = chunk_sizes(remaining, chunk);
    if remaining <= chunk {
        assert(sizes.drop_first() =~= Seq::<nat>::empty());
    } else {
        assert(sizes.drop_first() =~= chunk_sizes((remaining - chunk) as nat, chunk));
    }
}

/// Skipping the head of a download: the bytes still to skip, read through a
/// buffer of `SKIP_BUFFER_SIZE` bytes.
pub struct SkipPlan {
    remaining: usize,
}

impl SkipPlan {
    /// The bytes still to skip.
    pub closed spec fn remaining(&self) -> nat {
        self.remaining as nat
    }

    /// The reads still to do.
    pub open spec fn reads(&self) -> Seq<nat> {
        chunk_sizes(self.remaining(), SKIP_BUFFER_SIZE as nat)
    }

    /// Successive calls of `next_read` give `ceil(remaining / SKIP_BUFFER_SIZE)`
    /// reads, skipping exactly the remaining bytes, every one of
    /// `SKIP_BUFFER_SIZE` bytes but the last; the call after them gives nothing.
    pub proof fn lemma_skip_plan(&self)
        ensures
            self.reads().len() == (self.remaining() + SKIP_BUFFER_SIZE - 1) / (SKIP_BUFFER_SIZE as int),
            total(self.reads()) == self.remaining(),
            forall|i: int| 0 <= i < self.reads().len() ==> 0 < #[trigger] self.reads()[i] <= SKIP_BUFFER_SIZE,
            forall|i: int| 0 <= i < self.reads().len() - 1 ==> #[trigger] self.reads()[i] == SKIP_BUFFER_SIZE,
    {
        lemma_chunk_count(self.remaining(), SKIP_BUFFER_SIZE as nat);
        lemma_chunks_cover(self.remaining(), SKIP_BUFFER_SIZE as nat);
    }

    /// A plan to skip the first `to` bytes.
    pub fn new(to: usize) -> (plan: Self)
        ensures
            plan.remaining() == to,
    {
        SkipPlan { remaining: to }
    }

    /// The size of the next read, `min(remaining, SKIP_BUFFER_SIZE)`, now
    /// counted as done; nothing once all is skipped.
    pub fn next_read(&mut self) -> (read: Option<usize>)
        ensures
            read is None <==> old(self).reads().len() == 0,
            old(self).remaining() == 0 ==> read is None && final(self).remaining() == 0,
            old(self).remaining() > 0 ==> {
                &&& read matches Some(size)
                &&& size as nat == old(self).reads()[0]
                &&& size <= SKIP_BUFFER_SIZE
                &&& size as nat == if old(self).remaining() <= SKIP_BUFFER_SIZE {
                    old(self).remaining()
                } else {
                    SKIP_BUFFER_SIZE as nat
                }
                &&& final(self).remaining() == old(self).remaining() - size
                &&& final(self).reads() == old(self).reads().drop_first()
            },
    {
        if self.remaining == 0 {
            return None;
        }
        proof {
            lemma_chunk_count(self.remaining as nat, SKIP_BUFFER_SIZE as nat);
        }
        proof {
            lemma_chunk_step(self.remaining as nat, SKIP_BUFFER_SIZE as nat);
        }
        let size = if self.remaining < SKIP_BUFFER_SIZE {
            self.remaining
        } else {
            SKIP_BUFFER_SIZE
        };
        self.remaining = self.remaining - size;
        Some(size)
    }
}

/// Whether no read of a download of `length` bytes in chunks of `chunk`
/// bytes sums past the largest `u64` when its size is worked out as
/// `chunk + offset`: the last whole-chunk offset before the end, plus a
/// chunk, fits.
pub open spec fn chunk_sums_fit(length: u64, chunk: u64) -> bool {
    chunk == 0 || length == 0 || ((length - 1) / chunk as int) * chunk + chunk <= u64::MAX
}

/// A multiple of `c` below `l` is at most the last multiple of `c` below `l`.
proof fn lemma_last_multiple(q: int, c: int, l: int)
    requires
        c > 0,
        0 <= q,
        q * c < l,
    ensures
        q * c <= ((l - 1) / c) * c,
{
    let f = (l - 1) / c;
    lemma_fundamental_div_mod(l - 1, c);
    lemma_mod_pos_bound(l - 1, c);
    assert(c * f == f * c) by (nonlinear_arith);
    if q > f {
        assert(q * c >= (f + 1) * c) by (nonlinear_arith)
            requires
                q >= f + 1,
                c > 0,
        ;
        assert((f + 1) * c == f * c + c) by (nonlinear_arith);
    }
    assert(q * c <= f * c) by (nonlinear_arith)
        requires
            q <= f,
            c > 0,
    ;
}

/// A download cut into reads of the stored chunk size: the file length, the
/// chunk size and how far the download has gone.
pub struct DownloadCursor {
    length: u64,
    chunk_size: u64,
    offset: u64,
    reads_done: Ghost<nat>,
}

impl DownloadCursor {
    /// The length of the file.
    pub closed spec fn length(&self) -> nat {
        self.length as nat
    }

    /// The size of a stored chunk.
    pub closed spec fn chunk_size(&self) -> nat {
        self.chunk_size as nat
    }

    /// How many bytes have been read.
    pub closed spec fn offset(&self) -> nat {
        self.offset as nat
    }

    /// The offset never passes the end, and until the end it is a whole
    /// number of chunks, so the sizes worked out never overflow.
    pub closed spec fn wf(&self) -> bool {
        &&& self.offset <= self.length
        &&& chunk_sums_fit(self.length, self.chunk_size)
        &&& self.offset == self.length || self.offset == self.reads_done@ * self.chunk_size
    }

    /// The reads still to do, when the chunk size is not zero.
    pub open spec fn reads(&self) -> Seq<nat> {
        chunk_sizes((self.length() - self.offset()) as nat, self.chunk_size())
    }

    /// Successive calls of `next_chunk` give `ceil((length - offset) / chunk)`
    /// reads, covering exactly the rest of the file, every one a whole chunk
    /// but the last; the call after them gives nothing.
    pub proof fn lemma_download_plan(&self)
        requires
            self.wf(),
            self.chunk_size() > 0,
        ensures
            self.reads().len() == (self.length() - self.offset() + self.chunk_size() - 1) / (self.chunk_size() as int),
            total(self.reads()) == self.length() - self.offset(),
            forall|i: int| 0 <= i < self.reads().len() ==> 0 < #[trigger] self.reads()[i] <= self.chunk_size(),
            forall|i: int| 0 <= i < self.reads().len() - 1 ==> #[trigger] self.reads()[i] == self.chunk_size(),
    {
        lemma_chunk_count((self.length() - self.offset()) as nat, self.chunk_size());
        lemma_chunks_cover((self.length() - self.offset()) as nat, self.chunk_size());
    }

    /// A download of a file of `length` bytes stored in chunks of
    /// `chunk_size` bytes, from its start.
    pub fn new(length: u64, chunk_size: u64) -> (cursor: Self)
        requires
            chunk_sums_fit(length, chunk_size),
        ensures
            cursor.wf(),
            cursor.offset() <= cursor.length(),
            cursor.length() == length,
            cursor.chunk_size() == chunk_size,
            cursor.offset() == 0,
    {
        DownloadCursor { length, chunk_size, offset: 0, reads_done: Ghost(0) }
    }

    /// The size of the next read: a chunk, or what is left of the file when
    /// that is less; nothing once the whole file has been read.
    pub fn next_chunk(&mut self) -> (read: Option<u64>)
        requires
            old(self).wf(),
        ensures
            final(self).wf(),
            final(self).offset() <= final(self).length(),
            final(self).length() == old(self).length(),
            final(self).chunk_size() == old(self).chunk_size(),
            old(self).chunk_size() > 0 ==> (read is None <==> old(self).reads().len() == 0),
            old(self).offset() >= old(self).length() ==> read is None && final(self).offset() == old(self).offset(),
            old(self).offset() < old(self).length() ==> {
                &&& read matches Some(size)
                &&& size as nat == if old(self).chunk_size() + old(self).offset() > old(self).length() {
                    (old(self).length() - old(self).offset()) as nat
                } else {
                    old(self).chunk_size()
                }
                &&& final(self).offset() == old(self).offset() + size
                &&& old(self).chunk_size() > 0 ==> {
                    &&& size as nat == old(self).reads()[0]
                    &&& final(self).reads() == old(self).reads().drop_first()
                }
            },
    {
        if self.offset >= self.length {
            return None;
        }
        proof {
            if self.chunk_size > 0 {
                lemma_chunk_count((self.length - self.offset) as nat, self.chunk_size as nat);
                lemma_last_multiple(self.reads_done@ as int, self.chunk_size as int, self.length as int);
                lemma_chunk_step((self.length - self.offset) as nat, self.chunk_size as nat);
            }
        }
        let read_size = if self.chunk_size + self.offset > self.length {
            self.length - self.offset
        } else {
            self.chunk_size
        };
        self.offset = self.offset + read_size;
        proof {
            if self.offset < self.length {
                assert(self.offset == (self.reads_done@ + 1) * self.chunk_size) by (nonlinear_arith)
                    requires
                        self.offset == self.reads_done@ * self.chunk_size + self.chunk_size,
                ;
            }
            self.reads_done@ = self.reads_done@ + 1;
        }
        Some(read_size)
    }
}

/// What a stream of a stored file yields after one read into `buffer`: the
/// end of the stream when nothing was read, the bytes read, or the read's
/// error.
pub fn stream_item<E>(buffer: Vec<u8>, read: Result<usize, E>) -> (item: Option<Result<Vec<u8>, E>>)
    requires
        read matches Ok(n) ==> n <= buffer@.len(),
    ensures
        match read {
            Ok(n) => if n == 0 {
                item is None
            } else {
                item matches Some(Ok(bytes)) && bytes@ == buffer@.take(n as int)
            },
            Err(e) => item == Some(Err::<Vec<u8>, E>(e)),
        },
{
    match read {
        Err(e) => Some(Err(e)),
        Ok(n) => {
            if n == 0 {
                None
            } else {
                let mut bytes = buffer;
                bytes.truncate(n);
                Some(Ok(bytes))
            }
        },
    }
}

/// What a download yields after reading a whole chunk into `buffer`: the
/// chunk, or the end of the download when the read failed.
pub fn exact_read_item<E>(buffer: Vec<u8>, read: Result<(), E>) -> (item: Option<Vec<u8>>)
    ensures
        match read {
            Ok(()) => item matches Some(bytes) && bytes@ == buffer@,
            Err(_) => item is None,
        },
{
    match read {
        Ok(()) => Some(buffer),
        Err(_) => None,
    }
}

/// The name a stored file is streamed under: its recorded file name, or
/// `no_name` when it has none.
pub fn stored_file_name(filename: Option<String>) -> (name: String)
    ensures
        name@ == match filename {
            Some(n) => n@,
            None => "no_name"@,
        },
{
    match filename {
        Some(name) => name,
        None => String::from_str("no_name"),
    }
}

} // verus!
