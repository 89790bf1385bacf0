//! Buffering of captured samples into fixed-size chunks for speech detection.
use vstd::prelude::*;

verus! {

/// Samples per chunk handed to the speech detector.
pub const VAD_CHUNK_SIZE: usize = 512;

/// The chunks laid end to end.
pub open spec fn concat<T>(chunks: Seq<Seq<T>>) -> Seq<T>
    decreases chunks.len(),
{
    if chunks.len() == 0 {
        Seq::empty()
    } else {
        concat(chunks.drop_last()) + chunks.last()
    }
}

/// The contents of a list of chunk vectors.
pub open spec fn chunk_views<T>(chunks: Seq<Vec<T>>) -> Seq<Seq<T>> {
    chunks.map_values(|c: Vec<T>| c@)
}

/// Collects samples as they arrive and hands them out in chunks of a fixed size,
/// keeping the incomplete tail for the next delivery.
pub struct SampleChunker<T> {
    pending: Vec<T>,
    chunk_size: usize,
}

impl<T> View for SampleChunker<T> {
    type V = Seq<T>;

    /// The samples waiting for a chunk to fill.
    closed spec fn view(&self) -> Seq<T> {
        self.pending@
    }
}

impl<T> SampleChunker<T> {
    #[verifier::type_invariant]
    spec fn inv(self) -> bool {
        0 < self.chunk_size && self.pending@.len() < self.chunk_size
    }

    /// The number of samples in each chunk.
    pub closed spec fn chunk_len(&self) -> nat {
        self.chunk_size as nat
    }
}

impl<T: Copy> SampleChunker<T> {
    /// An empty buffer that hands out chunks of `chunk_size` samples.
    pub fn new(chunk_size: usize) -> (r: Self)
        requires
            chunk_size > 0,
        ensures
            r@ == Seq::<T>::empty(),
            r.chunk_len() == chunk_size,
    {
        SampleChunker { pending: Vec::new(), chunk_size }
    }

    /// The number of samples in each chunk.
    pub fn chunk_size(&self) -> (r: usize)
        ensures
            r == self.chunk_len(),
            r > 0,
    {
        proof {
            use_type_invariant(self);
        }
        self.chunk_size
    }

    /// The number of samples waiting.
    pub fn pending_len(&self) -> (r: usize)
        ensures
            r == self@.len(),
            r < self.chunk_len(),
    {
        proof {
            use_type_invariant(self);
        }
        self.pending.len()
    }

    /// Appends `data` and takes out every complete chunk, oldest first.
    /// The chunks, laid end to end and followed by what stays buffered, are exactly
    /// the old buffer followed by `data`; every chunk is full and fewer than a chunk's
    /// worth of samples stay.
    pub fn push_samples(&mut self, data: &[T]) -> (chunks: Vec<Vec<T>>)
        ensures
            final(self).chunk_len() == old(self).chunk_len(),
            forall|k: int|
                0 <= k < chunks@.len() ==> (#[trigger] chunks@[k])@.len() == old(self).chunk_len(),
            concat(chunk_views(chunks@)) + final(self)@ == old(self)@ + data@,
            final(self)@.len() < final(self).chunk_len(),
    {
        proof {
            use_type_invariant(&*self);
        }
        let n = self.chunk_size;
        let ghost start = self.pending@;
        let mut pending: Vec<T> = Vec::new();
        std::mem::swap(&mut pending, &mut self.pending);
        let mut chunks: Vec<Vec<T>> = Vec::new();
        let len = data.len();
        let mut i: usize = 0;
        assert(data@.subrange(0, 0) =~= Seq::<T>::empty());
        assert(concat(chunk_views(chunks@)) =~= Seq::<T>::empty());
        while i < len
            invariant
                len == data@.len(),
                i <= len,
                0 < n,
                pending@.len() < n,
                forall|k: int| 0 <= k < chunks@.len() ==> (#[trigger] chunks@[k])@.len() == n,
                concat(chunk_views(chunks@)) + pending@ == start + data@.subrange(0, i as int),
            decreases len - i,
        {
            let ghost before = concat(chunk_views(chunks@)) + pending@;
            pending.push(data[i]);
            assert(data@.subrange(0, i + 1) =~= data@.subrange(0, i as int).push(data@[i as int]));
            assert(concat(chunk_views(chunks@)) + pending@ =~= before.push(data@[i as int]));
            if pending.len() == n {
                let ghost old_chunks = chunks@;
                let mut full: Vec<T> = Vec::new();
                std::mem::swap(&mut full, &mut pending);
                chunks.push(full);
                assert(chunk_views(chunks@).drop_last() =~= chunk_views(old_chunks));
                assert(chunk_views(chunks@).last() == full@);
                assert(concat(chunk_views(chunks@)) + pending@ =~= concat(chunk_views(old_chunks))
                    + full@);
            }
            i += 1;
        }
        assert(data@.subrange(0, len as int) =~= data@);
        self.pending = pending;
        chunks
    }
}

/// Chunks of `n` samples each hold `n` samples per chunk in all.
pub proof fn lemma_concat_len<T>(chunks: Seq<Seq<T>>, n: nat)
    requires
        forall|k: int| 0 <= k < chunks.len() ==> (#[trigger] chunks[k]).len() == n,
    ensures
        concat(chunks).len() == chunks.len() * n,
    decreases chunks.len(),
{
    if chunks.len() > 0 {
        let rest = chunks.drop_last();
        assert forall|k: int| 0 <= k < rest.len() implies (#[trigger] rest[k]).len() == n by {
            assert(rest[k] == chunks[k]);
        }
        lemma_concat_len(rest, n);
        assert(chunks.last() == chunks[chunks.len() - 1]);
        vstd::arithmetic::mul::lemma_mul_is_distributive_add_other_way(
            n as int,
            rest.len() as int,
            1,
        );
    }
}

/// How many chunks a delivery yields: with `total` samples buffered and delivered, the
/// chunks taken out number `total / n` and what stays is the last `total % n` samples.
pub proof fn lemma_chunk_count<T>(chunks: Seq<Seq<T>>, rest: Seq<T>, total: Seq<T>, n: nat)
    requires
        n > 0,
        forall|k: int| 0 <= k < chunks.len() ==> (#[trigger] chunks[k]).len() == n,
        rest.len() < n,
        concat(chunks) + rest == total,
    ensures
        chunks.len() == total.len() / n,
        rest.len() == total.len() % n,
        rest == total.subrange(total.len() - rest.len(), total.len() as int),
{
    lemma_concat_len(chunks, n);
    assert(total.len() == chunks.len() * n + rest.len());
    vstd::arithmetic::div_mod::lemma_fundamental_div_mod_converse(
        total.len() as int,
        n as int,
        chunks.len() as int,
        rest.len() as int,
    );
    assert(total.subrange(total.len() - rest.len(), total.len() as int) =~= rest);
}

} // verus!
