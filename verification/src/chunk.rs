//! The chunk store's arithmetic: how a byte stream is cut into fixed-size
//! chunks, and how the chunks give the stream back.

use vstd::prelude::*;

verus! {

/// Size of every chunk but the last one of a file: 4 MiB.
pub const CHUNK_SIZE: usize = 4194304;

/// Where one chunk of a file lies on disk, and how many bytes it holds.
#[derive(Debug)]
pub struct FileItemDto {
    pub path: String,
    pub size: u32,
}

/// Mathematical model of a [`FileItemDto`].
pub struct ChunkRef {
    pub path: Seq<char>,
    pub size: nat,
}

impl View for FileItemDto {
    type V = ChunkRef;

    open spec fn view(&self) -> ChunkRef {
        ChunkRef { path: self.path@, size: self.size as nat }
    }
}

impl Clone for FileItemDto {
    fn clone(&self) -> (out: Self)
        ensures
            out@ == self@,
    {
        FileItemDto { path: self.path.clone(), size: self.size }
    }
}

/// The models of a list of chunk references.
pub open spec fn chunk_refs(items: Seq<FileItemDto>) -> Seq<ChunkRef> {
    Seq::new(items.len(), |i: int| items[i]@)
}

/// Sum of the recorded sizes of a chunk list.
pub open spec fn recorded_size(items: Seq<ChunkRef>) -> nat
    decreases items.len(),
{
    if items.len() == 0 {
        0
    } else {
        recorded_size(items.drop_last()) + items.last().size
    }
}

/// Number of chunks a stream of `len` bytes is cut into.
pub open spec fn chunk_count(len: nat) -> nat {
    ((len + CHUNK_SIZE - 1) / (CHUNK_SIZE as int)) as nat
}

/// The `i`-th chunk of a stream: `CHUNK_SIZE` bytes from offset
/// `i * CHUNK_SIZE`, or what is left of the stream there.
pub open spec fn chunk_at(bytes: Seq<u8>, i: int) -> Seq<u8> {
    let from = i * CHUNK_SIZE;
    let to = if from + CHUNK_SIZE <= bytes.len() {
        from + CHUNK_SIZE
    } else {
        bytes.len() as int
    };
    bytes.subrange(from, to)
}

/// The chunks of a stream, in order.
pub open spec fn split_chunks(bytes: Seq<u8>) -> Seq<Seq<u8>> {
    Seq::new(chunk_count(bytes.len()), |i: int| chunk_at(bytes, i))
}

/// The chunks laid end to end.
pub open spec fn concat_chunks(chunks: Seq<Seq<u8>>) -> Seq<u8>
    decreases chunks.len(),
{
    if chunks.len() == 0 {
        Seq::<u8>::empty()
    } else {
        concat_chunks(chunks.drop_last()) + chunks.last()
    }
}

/// The contents of a list of byte buffers.
pub open spec fn contents(chunks: Seq<Vec<u8>>) -> Seq<Seq<u8>> {
    Seq::new(chunks.len(), |i: int| chunks[i]@)
}

/// A stream of `len` bytes has `n` chunks exactly when `len` lies in
/// `((n - 1) * CHUNK_SIZE, n * CHUNK_SIZE]`.
pub proof fn lemma_chunk_count(len: nat, n: nat)
    ensures
        chunk_count(len) == n <==> (n as int - 1) * CHUNK_SIZE < len <= n * CHUNK_SIZE,
{
    let c = CHUNK_SIZE as int;
    let q = (len + c - 1) / c;
    assert(q * c <= len + c - 1 < q * c + c) by (nonlinear_arith)
        requires
            q == (len + c - 1) / c,
            c > 0,
    ;
    if (n as int - 1) * c < len <= n * c {
        assert(q == n) by (nonlinear_arith)
            requires
                q * c <= len + c - 1 < q * c + c,
                (n as int - 1) * c < len <= n * c,
                c > 0,
        ;
    }
    if q == n {
        assert((n as int - 1) * c < len <= n * c) by (nonlinear_arith)
            requires
                q * c <= len + c - 1 < q * c + c,
                q == n,
                c > 0,
        ;
    }
}

/// Every chunk but the last holds exactly `CHUNK_SIZE` bytes; the last one
/// holds between 1 and `CHUNK_SIZE` bytes. An empty stream has no chunk.
pub proof fn lemma_chunk_sizes(bytes: Seq<u8>)
    ensures
        bytes.len() == 0 <==> split_chunks(bytes).len() == 0,
        forall|i: int|
            0 <= i < split_chunks(bytes).len() - 1 ==> (#[trigger] split_chunks(bytes)[i]).len()
                == CHUNK_SIZE,
        split_chunks(bytes).len() > 0 ==> 1 <= split_chunks(bytes).last().len() <= CHUNK_SIZE,
{
    let n = chunk_count(bytes.len());
    let c = CHUNK_SIZE as int;
    lemma_chunk_count(bytes.len(), n);
    assert forall|i: int| 0 <= i < n - 1 implies (#[trigger] split_chunks(bytes)[i]).len()
        == CHUNK_SIZE by {
        assert(i * c + c <= (n as int - 1) * c) by (nonlinear_arith)
            requires
                0 <= i < n - 1,
                c > 0,
        ;
        assert(0 <= i * c) by (nonlinear_arith)
            requires
                0 <= i,
                c > 0,
        ;
    }
    if n > 0 {
        assert((n as int - 1) * c + c == n * c) by (nonlinear_arith);
        assert(0 <= (n as int - 1) * c) by (nonlinear_arith)
            requires
                n > 0,
                c > 0,
        ;
    }
}

/// Appending one more chunk appends its bytes.
pub proof fn lemma_concat_push(chunks: Seq<Seq<u8>>, next: Seq<u8>)
    ensures
        concat_chunks(chunks.push(next)) == concat_chunks(chunks) + next,
{
    assert(chunks.push(next).drop_last() =~= chunks);
}

/// The first `k` chunks of a stream, laid end to end, are its first
/// `k * CHUNK_SIZE` bytes (or all of it).
proof fn lemma_concat_prefix(bytes: Seq<u8>, k: nat)
    requires
        k <= chunk_count(bytes.len()),
    ensures
        concat_chunks(split_chunks(bytes).take(k as int)) == bytes.take(
            if k * CHUNK_SIZE <= bytes.len() {
                k * CHUNK_SIZE
            } else {
                bytes.len() as int
            },
        ),
    decreases k,
{
    let c = CHUNK_SIZE as int;
    let n = chunk_count(bytes.len());
    let all = split_chunks(bytes);
    lemma_chunk_count(bytes.len(), n);
    if k == 0 {
        assert(all.take(0) =~= Seq::<Seq<u8>>::empty());
        assert(bytes.take(0) =~= Seq::<u8>::empty());
    } else {
        lemma_concat_prefix(bytes, (k - 1) as nat);
        assert(all.take(k as int).drop_last() =~= all.take(k as int - 1));
        assert(all.take(k as int).last() == chunk_at(bytes, k as int - 1));
        assert((k as int - 1) * c <= (n as int - 1) * c) by (nonlinear_arith)
            requires
                1 <= k <= n,
                c > 0,
        ;
        assert((k as int - 1) * c + c == k * c) by (nonlinear_arith);
        assert(0 <= (k as int - 1) * c) by (nonlinear_arith)
            requires
                1 <= k,
                c > 0,
        ;
        let from = (k as int - 1) * c;
        let to = if k * c <= bytes.len() {
            k * c
        } else {
            bytes.len() as int
        };
        assert(bytes.take(from) + bytes.subrange(from, to) =~= bytes.take(to));
    }
}

/// Cutting a stream into chunks loses nothing: the chunks laid end to end
/// are the stream, byte for byte.
pub proof fn lemma_chunk_round_trip(bytes: Seq<u8>)
    ensures
        concat_chunks(split_chunks(bytes)) == bytes,
{
    let n = chunk_count(bytes.len());
    lemma_chunk_count(bytes.len(), n);
    lemma_concat_prefix(bytes, n);
    assert(split_chunks(bytes).take(n as int) =~= split_chunks(bytes));
    assert(bytes.take(bytes.len() as int) =~= bytes);
}

/// Total length of a list of chunks.
pub open spec fn total_len(chunks: Seq<Seq<u8>>) -> nat
    decreases chunks.len(),
{
    if chunks.len() == 0 {
        0
    } else {
        total_len(chunks.drop_last()) + chunks.last().len()
    }
}

/// The chunks laid end to end are as long as the chunks together.
pub proof fn lemma_concat_len(chunks: Seq<Seq<u8>>)
    ensures
        concat_chunks(chunks).len() == total_len(chunks),
    decreases chunks.len(),
{
    if chunks.len() > 0 {
        lemma_concat_len(chunks.drop_last());
    }
}

/// The sizes of a stream's chunks add up to the stream's length.
pub proof fn lemma_chunk_sizes_sum(bytes: Seq<u8>)
    ensures
        total_len(split_chunks(bytes)) == bytes.len(),
{
    lemma_chunk_round_trip(bytes);
    lemma_concat_len(split_chunks(bytes));
}

/// Lays the chunks end to end.
pub fn join_chunks(chunks: &Vec<Vec<u8>>) -> (out: Vec<u8>)
    ensures
        out@ == concat_chunks(contents(chunks@)),
{
    let mut out: Vec<u8> = Vec::new();
    let mut i: usize = 0;
    proof {
        assert(contents(chunks@).take(0) =~= Seq::<Seq<u8>>::empty());
    }
    while i < chunks.len()
        invariant
            i <= chunks.len(),
            out@ == concat_chunks(contents(chunks@).take(i as int)),
        decreases chunks.len() - i,
    {
        let ghost before = out@;
        out.extend_from_slice(chunks[i].as_slice());
        proof {
            assert(out@ =~= before + chunks@[i as int]@);
            assert(contents(chunks@).take(i as int + 1) =~= contents(chunks@).take(i as int).push(
                chunks@[i as int]@,
            ));
            lemma_concat_push(contents(chunks@).take(i as int), chunks@[i as int]@);
        }
        i += 1;
    }
    proof {
        assert(contents(chunks@).take(chunks.len() as int) =~= contents(chunks@));
    }
    out
}

/// Accumulates the bytes of an inbound stream and hands them out again in
/// chunks of `CHUNK_SIZE` bytes.
pub struct ChunkBuffer {
    buffer: Vec<u8>,
    size: u64,
}

impl ChunkBuffer {
    /// The bytes accepted and not yet handed out.
    pub closed spec fn pending(&self) -> Seq<u8> {
        self.buffer@
    }

    /// Number of bytes accepted since the buffer was made.
    pub closed spec fn accepted(&self) -> nat {
        self.size as nat
    }

    /// An empty buffer.
    pub fn new() -> (out: Self)
        ensures
            out.pending() == Seq::<u8>::empty(),
            out.accepted() == 0,
    {
        ChunkBuffer { buffer: Vec::new(), size: 0 }
    }

    /// Number of bytes accepted so far.
    pub fn size(&self) -> (n: u64)
        ensures
            n == self.accepted(),
    {
        self.size
    }

    /// Number of bytes waiting to be handed out.
    pub fn pending_len(&self) -> (n: usize)
        ensures
            n == self.pending().len(),
    {
        self.buffer.len()
    }

    /// Accepts one slice read from the stream.
    pub fn push(&mut self, bytes: &[u8])
        requires
            old(self).accepted() + bytes@.len() <= u64::MAX,
        ensures
            final(self).pending() == old(self).pending() + bytes@,
            final(self).accepted() == old(self).accepted() + bytes@.len(),
    {
        let ghost before = self.buffer@;
        self.buffer.extend_from_slice(bytes);
        self.size = self.size + bytes.len() as u64;
        proof {
            assert(self.buffer@ =~= before + bytes@);
        }
    }

    /// Hands out the next full chunk, if `CHUNK_SIZE` bytes are waiting.
    pub fn take_chunk(&mut self) -> (out: Option<Vec<u8>>)
        ensures
            final(self).accepted() == old(self).accepted(),
            old(self).pending().len() >= CHUNK_SIZE ==> out is Some && out->0@ == old(
                self,
            ).pending().take(CHUNK_SIZE as int) && final(self).pending() == old(
                self,
            ).pending().skip(CHUNK_SIZE as int),
            old(self).pending().len() < CHUNK_SIZE ==> out is None && final(self).pending() == old(
                self,
            ).pending(),
    {
        if self.buffer.len() >= CHUNK_SIZE {
            let mut rest = self.buffer.split_off(CHUNK_SIZE);
            std::mem::swap(&mut self.buffer, &mut rest);
            Some(rest)
        } else {
            None
        }
    }

    /// Hands out whatever is waiting as the final chunk of the stream, if
    /// anything is.
    pub fn take_rest(&mut self) -> (out: Option<Vec<u8>>)
        ensures
            final(self).accepted() == old(self).accepted(),
            final(self).pending() == Seq::<u8>::empty(),
            old(self).pending().len() > 0 ==> out is Some && out->0@ == old(self).pending(),
            old(self).pending().len() == 0 ==> out is None,
    {
        if self.buffer.len() > 0 {
            let mut rest: Vec<u8> = Vec::new();
            std::mem::swap(&mut self.buffer, &mut rest);
            Some(rest)
        } else {
            None
        }
    }
}

/// What a writer has produced so far: the chunks handed out and the bytes
/// still waiting.
pub struct WriterModel {
    pub emitted: Seq<Seq<u8>>,
    pub pending: Seq<u8>,
}

/// Hands out full chunks for as long as `CHUNK_SIZE` bytes are waiting.
pub open spec fn drain(w: WriterModel) -> WriterModel
    decreases w.pending.len(),
{
    if w.pending.len() >= CHUNK_SIZE {
        drain(
            WriterModel {
                emitted: w.emitted.push(w.pending.take(CHUNK_SIZE as int)),
                pending: w.pending.skip(CHUNK_SIZE as int),
            },
        )
    } else {
        w
    }
}

/// Accepts one slice, then hands out the full chunks.
pub open spec fn feed(w: WriterModel, slice: Seq<u8>) -> WriterModel {
    drain(WriterModel { emitted: w.emitted, pending: w.pending + slice })
}

/// Accepts the slices one after another.
pub open spec fn feed_all(w: WriterModel, slices: Seq<Seq<u8>>) -> WriterModel
    decreases slices.len(),
{
    if slices.len() == 0 {
        w
    } else {
        feed(feed_all(w, slices.drop_last()), slices.last())
    }
}

/// At the end of the stream, what waits becomes the final chunk.
pub open spec fn finish(w: WriterModel) -> Seq<Seq<u8>> {
    if w.pending.len() > 0 {
        w.emitted.push(w.pending)
    } else {
        w.emitted
    }
}

/// The chunks a writer produces for a stream that arrives in the given
/// slices.
pub open spec fn written_chunks(slices: Seq<Seq<u8>>) -> Seq<Seq<u8>> {
    finish(feed_all(WriterModel { emitted: Seq::empty(), pending: Seq::empty() }, slices))
}

/// A writer is on track for a stream when what it handed out are the
/// stream's first chunks and what waits is the rest of the stream.
pub open spec fn tracks(w: WriterModel, stream: Seq<u8>) -> bool {
    &&& w.emitted.len() * CHUNK_SIZE <= stream.len()
    &&& w.pending == stream.skip(w.emitted.len() * CHUNK_SIZE)
    &&& forall|i: int| 0 <= i < w.emitted.len() ==> #[trigger] w.emitted[i] == chunk_at(stream, i)
}

/// Handing out one full chunk keeps a writer on track.
pub proof fn lemma_take_tracks(w: WriterModel, stream: Seq<u8>)
    requires
        tracks(w, stream),
        w.pending.len() >= CHUNK_SIZE,
    ensures
        tracks(
            WriterModel {
                emitted: w.emitted.push(w.pending.take(CHUNK_SIZE as int)),
                pending: w.pending.skip(CHUNK_SIZE as int),
            },
            stream,
        ),
{
    let c = CHUNK_SIZE as int;
    let k = w.emitted.len() as int;
    let next = WriterModel {
        emitted: w.emitted.push(w.pending.take(c)),
        pending: w.pending.skip(c),
    };
    assert((k + 1) * c == k * c + c) by (nonlinear_arith);
    assert(0 <= k * c) by (nonlinear_arith)
        requires
            0 <= k,
            c > 0,
    ;
    assert(w.pending.take(c) =~= chunk_at(stream, k));
    assert(next.pending =~= stream.skip((k + 1) * c));
}

proof fn lemma_drain_tracks(w: WriterModel, stream: Seq<u8>)
    requires
        tracks(w, stream),
    ensures
        tracks(drain(w), stream),
        drain(w).pending.len() < CHUNK_SIZE,
    decreases w.pending.len(),
{
    let c = CHUNK_SIZE as int;
    if w.pending.len() >= CHUNK_SIZE {
        let next = WriterModel {
            emitted: w.emitted.push(w.pending.take(c)),
            pending: w.pending.skip(c),
        };
        lemma_take_tracks(w, stream);
        lemma_drain_tracks(next, stream);
    }
}

/// Accepting more of the stream keeps a writer on track.
pub proof fn lemma_extend_tracks(w: WriterModel, stream: Seq<u8>, slice: Seq<u8>)
    requires
        tracks(w, stream),
    ensures
        tracks(WriterModel { emitted: w.emitted, pending: w.pending + slice }, stream + slice),
{
    let c = CHUNK_SIZE as int;
    let k = w.emitted.len() as int;
    let longer = stream + slice;
    assert(0 <= k * c) by (nonlinear_arith)
        requires
            0 <= k,
            c > 0,
    ;
    assert(w.pending + slice =~= longer.skip(k * c));
    assert forall|i: int| 0 <= i < k implies #[trigger] w.emitted[i] == chunk_at(longer, i) by {
        assert(i * c + c <= k * c) by (nonlinear_arith)
            requires
                0 <= i < k,
                c > 0,
        ;
        assert(0 <= i * c) by (nonlinear_arith)
            requires
                0 <= i,
                c > 0,
        ;
        assert(chunk_at(stream, i) =~= chunk_at(longer, i));
    }
}

/// A writer on track that holds less than a chunk has, once the rest is
/// handed out, produced exactly the chunks of the stream.
pub proof fn lemma_finish_tracks(w: WriterModel, stream: Seq<u8>)
    requires
        tracks(w, stream),
        w.pending.len() < CHUNK_SIZE,
    ensures
        finish(w) == split_chunks(stream),
{
    let c = CHUNK_SIZE as int;
    let k = w.emitted.len();
    assert(0 <= k * c) by (nonlinear_arith)
        requires
            0 <= k,
            c > 0,
    ;
    assert(w.pending.len() == stream.len() - k * c);
    if w.pending.len() > 0 {
        assert((k as int + 1 - 1) * c < stream.len() <= (k + 1) * c) by (nonlinear_arith)
            requires
                stream.len() - k * c > 0,
                stream.len() - k * c < c,
        ;
        lemma_chunk_count(stream.len(), k + 1);
        assert(w.pending =~= chunk_at(stream, k as int));
        assert(finish(w) =~= split_chunks(stream));
    } else {
        if k > 0 {
            assert((k as int - 1) * c < stream.len() <= k * c) by (nonlinear_arith)
                requires
                    stream.len() == k * c,
                    k > 0,
                    c > 0,
            ;
        }
        lemma_chunk_count(stream.len(), k);
        assert(finish(w) =~= split_chunks(stream));
    }
}

proof fn lemma_feed_all_tracks(slices: Seq<Seq<u8>>)
    ensures
        tracks(
            feed_all(WriterModel { emitted: Seq::empty(), pending: Seq::empty() }, slices),
            concat_chunks(slices),
        ),
        feed_all(
            WriterModel { emitted: Seq::empty(), pending: Seq::empty() },
            slices,
        ).pending.len() < CHUNK_SIZE,
    decreases slices.len(),
{
    let start = WriterModel { emitted: Seq::empty(), pending: Seq::empty() };
    if slices.len() == 0 {
        assert(start.pending =~= concat_chunks(slices).skip(0));
    } else {
        lemma_feed_all_tracks(slices.drop_last());
        let w = feed_all(start, slices.drop_last());
        lemma_extend_tracks(w, concat_chunks(slices.drop_last()), slices.last());
        lemma_drain_tracks(
            WriterModel { emitted: w.emitted, pending: w.pending + slices.last() },
            concat_chunks(slices),
        );
    }
}

/// However a stream is sliced on arrival, the writer produces the chunks of
/// the whole stream: the slices laid end to end, cut every `CHUNK_SIZE`
/// bytes.
pub proof fn lemma_written_chunks(slices: Seq<Seq<u8>>)
    ensures
        written_chunks(slices) == split_chunks(concat_chunks(slices)),
{
    let start = WriterModel { emitted: Seq::empty(), pending: Seq::empty() };
    lemma_feed_all_tracks(slices);
    lemma_finish_tracks(feed_all(start, slices), concat_chunks(slices));
}

/// Reading back what the writer produced gives the stream, byte for byte,
/// and the chunk sizes add up to the stream's length.
pub proof fn lemma_write_read_round_trip(slices: Seq<Seq<u8>>)
    ensures
        concat_chunks(written_chunks(slices)) == concat_chunks(slices),
        total_len(written_chunks(slices)) == concat_chunks(slices).len(),
{
    lemma_written_chunks(slices);
    lemma_chunk_round_trip(concat_chunks(slices));
    lemma_chunk_sizes_sum(concat_chunks(slices));
}

/// Cuts a stream that arrives in slices into chunks, and counts its bytes.
pub fn write_stream(slices: &Vec<Vec<u8>>) -> (out: (Vec<Vec<u8>>, u64))
    requires
        concat_chunks(contents(slices@)).len() <= u64::MAX,
    ensures
        contents(out.0@) == split_chunks(concat_chunks(contents(slices@))),
        out.1 == concat_chunks(contents(slices@)).len(),
{
    let mut buffer = ChunkBuffer::new();
    let mut chunks: Vec<Vec<u8>> = Vec::new();
    let ghost start = WriterModel { emitted: Seq::empty(), pending: Seq::empty() };
    let mut i: usize = 0;
    proof {
        assert(contents(slices@).take(0) =~= Seq::<Seq<u8>>::empty());
        assert(contents(chunks@) =~= Seq::<Seq<u8>>::empty());
    }
    while i < slices.len()
        invariant
            i <= slices.len(),
            concat_chunks(contents(slices@)).len() <= u64::MAX,
            start == (WriterModel { emitted: Seq::empty(), pending: Seq::empty() }),
            feed_all(start, contents(slices@).take(i as int)) == (WriterModel {
                emitted: contents(chunks@),
                pending: buffer.pending(),
            }),
            buffer.accepted() == concat_chunks(contents(slices@).take(i as int)).len(),
        decreases slices.len() - i,
    {
        let ghost fed = contents(slices@).take(i as int);
        let ghost next = contents(slices@).take(i as int + 1);
        proof {
            assert(next.drop_last() =~= fed);
            assert(next.last() == slices@[i as int]@);
            lemma_prefix_len(contents(slices@), i as int + 1);
        }
        buffer.push(slices[i].as_slice());
        while buffer.pending_len() >= CHUNK_SIZE
            invariant
                i < slices.len(),
                drain(
                    WriterModel { emitted: contents(chunks@), pending: buffer.pending() },
                ) == feed(feed_all(start, fed), slices@[i as int]@),
                buffer.accepted() == concat_chunks(next).len(),
            decreases buffer.pending().len(),
        {
            if let Some(chunk) = buffer.take_chunk() {
                let ghost before = chunks@;
                chunks.push(chunk);
                proof {
                    assert(contents(chunks@) =~= contents(before).push(chunk@));
                }
            }
        }
        i += 1;
    }
    let ghost w = WriterModel { emitted: contents(chunks@), pending: buffer.pending() };
    let size = buffer.size();
    match buffer.take_rest() {
        Some(chunk) => {
            let ghost before = chunks@;
            chunks.push(chunk);
            proof {
                assert(contents(chunks@) =~= contents(before).push(chunk@));
            }
        },
        None => {},
    }
    proof {
        assert(contents(slices@).take(slices.len() as int) =~= contents(slices@));
        assert(contents(chunks@) == finish(w));
        lemma_written_chunks(contents(slices@));
    }
    (chunks, size)
}

/// A prefix of a list of slices is no longer than the whole.
proof fn lemma_prefix_len(slices: Seq<Seq<u8>>, k: int)
    requires
        0 <= k <= slices.len(),
    ensures
        concat_chunks(slices.take(k)).len() <= concat_chunks(slices).len(),
    decreases slices.len() - k,
{
    if k < slices.len() {
        lemma_prefix_len(slices, k + 1);
        assert(slices.take(k + 1).drop_last() =~= slices.take(k));
    } else {
        assert(slices.take(k) =~= slices);
    }
}

} // verus!
