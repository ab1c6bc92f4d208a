//! PCM16 chunking helper.

use vstd::prelude::*;
use vstd::slice::slice_subrange;

verus! {

/// Bytes of one PCM16 sample.
pub const BYTES_PER_SAMPLE: usize = 2;

/// Samples in a chunk of `chunk_ms` milliseconds: rounded down, but at least one.
pub open spec fn samples_per_chunk(sample_rate: u32, chunk_ms: u64) -> nat {
    let samples = (sample_rate * chunk_ms) as nat / 1000;
    if samples == 0 {
        1
    } else {
        samples
    }
}

/// `data` cut into pieces of `size` bytes, in order; only the last may be short.
pub open spec fn chunks_of(data: Seq<u8>, size: nat) -> Seq<Seq<u8>>
    recommends
        size > 0,
    decreases data.len(),
{
    if data.len() == 0 || size == 0 {
        Seq::empty()
    } else if data.len() <= size {
        seq![data]
    } else {
        seq![data.take(size as int)] + chunks_of(data.skip(size as int), size)
    }
}

/// The byte strings that a list of slices refers to.
pub open spec fn slice_views(slices: Seq<&[u8]>) -> Seq<Seq<u8>> {
    slices.map_values(|s: &[u8]| s@)
}

/// Splits raw PCM16 byte slices into fixed-duration chunks.
pub struct AudioChunker {
    chunk_bytes: usize,
}

impl AudioChunker {
    /// Bytes per chunk.
    pub closed spec fn chunk_size(&self) -> nat {
        self.chunk_bytes as nat
    }

    #[verifier::type_invariant]
    spec fn whole_samples(&self) -> bool {
        self.chunk_bytes > 0 && self.chunk_bytes % BYTES_PER_SAMPLE == 0
    }

    /// A chunker for chunks of `chunk_ms` milliseconds at `sample_rate` samples per second.
    pub fn new(sample_rate: u32, chunk_ms: u64) -> (r: Self)
        requires
            sample_rate * chunk_ms <= u64::MAX,
            BYTES_PER_SAMPLE * samples_per_chunk(sample_rate, chunk_ms) <= usize::MAX,
        ensures
            r.chunk_size() == BYTES_PER_SAMPLE * samples_per_chunk(sample_rate, chunk_ms),
    {
        let mut samples: u64 = sample_rate as u64 * chunk_ms / 1000;
        if samples == 0 {
            samples = 1;
        }
        AudioChunker { chunk_bytes: samples as usize * BYTES_PER_SAMPLE }
    }

    /// Split `data` into a Vec of fixed-size chunks (last may be short).
    pub fn chunks<'a>(&self, data: &'a [u8]) -> (r: Vec<&'a [u8]>)
        ensures
            slice_views(r@) == chunks_of(data@, self.chunk_size()),
            self.chunk_size() > 0,
            self.chunk_size() % BYTES_PER_SAMPLE as nat == 0,
    {
        proof {
            use_type_invariant(self);
        }
        if data.is_empty() {
            let out: Vec<&'a [u8]> = Vec::new();
            assert(slice_views(out@) =~= Seq::empty());
            return out;
        }
        let size: usize = self.chunk_bytes;
        assert(data@.len() / size as nat <= data@.len() / 2) by (nonlinear_arith)
            requires
                size >= 2,
        ;
        let mut out: Vec<&'a [u8]> = Vec::with_capacity(data.len() / size + 1);
        let mut i: usize = 0;
        assert(data@.skip(0) =~= data@);
        assert(slice_views(out@) =~= Seq::empty());
        while i < data.len()
            invariant
                size > 0,
                i <= data@.len(),
                slice_views(out@) + chunks_of(data@.skip(i as int), size as nat) == chunks_of(
                    data@,
                    size as nat,
                ),
            decreases data@.len() - i,
        {
            let end: usize = if data.len() - i <= size {
                data.len()
            } else {
                i + size
            };
            let ghost before = slice_views(out@);
            let ghost rest = data@.skip(i as int);
            out.push(slice_subrange(data, i, end));
            proof {
                let piece = data@.subrange(i as int, end as int);
                assert(slice_views(out@) =~= before.push(piece));
                assert(rest.skip(end - i) =~= data@.skip(end as int));
                if data.len() - i <= size {
                    assert(piece =~= rest);
                    assert(chunks_of(data@.skip(end as int), size as nat) =~= Seq::empty());
                } else {
                    assert(piece =~= rest.take(size as int));
                }
                assert(chunks_of(rest, size as nat) =~= seq![piece] + chunks_of(
                    data@.skip(end as int),
                    size as nat,
                ));
                assert(slice_views(out@) + chunks_of(data@.skip(end as int), size as nat) =~= before
                    + chunks_of(rest, size as nat));
            }
            i = end;
        }
        assert(chunks_of(data@.skip(i as int), size as nat) =~= Seq::empty());
        out
    }
}

/// Joining the chunks gives the audio back: nothing is lost, added or reordered.
pub proof fn law_chunks_join_to_data(data: Seq<u8>, size: nat)
    requires
        size > 0,
    ensures
        chunks_of(data, size).flatten() == data,
    decreases data.len(),
{
    let chunks = chunks_of(data, size);
    if data.len() == 0 {
        assert(chunks.flatten() =~= data);
    } else if data.len() <= size {
        assert(chunks.drop_first() =~= Seq::empty());
        assert(chunks.drop_first().flatten() =~= Seq::empty());
        assert(chunks.flatten() =~= data);
    } else {
        let rest = data.skip(size as int);
        law_chunks_join_to_data(rest, size);
        assert(chunks.drop_first() =~= chunks_of(rest, size));
        assert(chunks.flatten() =~= data.take(size as int) + rest);
        assert(data.take(size as int) + rest =~= data);
    }
}

/// There are as many chunks as it takes; each is full except possibly the
/// last, and none is empty.
pub proof fn law_chunk_lengths(data: Seq<u8>, size: nat)
    requires
        size > 0,
    ensures
        chunks_of(data, size).len() == (data.len() + size - 1) / size as int,
        forall|k: int|
            0 <= k < chunks_of(data, size).len() - 1 ==> (#[trigger] chunks_of(data, size)[k]).len()
                == size,
        data.len() > 0 ==> 0 < chunks_of(data, size).last().len() <= size,
    decreases data.len(),
{
    let chunks = chunks_of(data, size);
    let sz = size as int;
    if data.len() == 0 {
        assert((size - 1) / sz == 0) by (nonlinear_arith)
            requires
                sz == size,
                size > 0,
        ;
    } else if data.len() <= size {
        let n = data.len() as int;
        assert((n + sz - 1) / sz == 1) by (nonlinear_arith)
            requires
                0 < n <= sz,
        ;
    } else {
        let rest = data.skip(sz);
        law_chunk_lengths(rest, size);
        assert(chunks == seq![data.take(sz)] + chunks_of(rest, size));
        assert forall|k: int| 0 <= k < chunks.len() - 1 implies (#[trigger] chunks[k]).len()
            == size by {
            if k > 0 {
                assert(chunks[k] == chunks_of(rest, size)[k - 1]);
            }
        }
        let m = rest.len() as int;
        assert((m + sz + sz - 1) / sz == (m + sz - 1) / sz + 1) by (nonlinear_arith)
            requires
                sz > 0,
                m > 0,
        ;
        assert(rest.len() > 0);
        assert(chunks_of(rest, size).len() > 0);
        assert(chunks.last() == chunks_of(rest, size).last());
    }
}

/// Whole samples stay whole: audio of complete samples is cut between samples only.
pub proof fn law_chunks_keep_samples_whole(data: Seq<u8>, size: nat)
    requires
        size > 0,
        size % BYTES_PER_SAMPLE as nat == 0,
        data.len() % BYTES_PER_SAMPLE as nat == 0,
    ensures
        forall|k: int|
            0 <= k < chunks_of(data, size).len() ==> (#[trigger] chunks_of(data, size)[k]).len()
                % BYTES_PER_SAMPLE as nat == 0,
    decreases data.len(),
{
    let chunks = chunks_of(data, size);
    if data.len() > size {
        let rest = data.skip(size as int);
        law_chunks_keep_samples_whole(rest, size);
        assert forall|k: int| 0 <= k < chunks.len() implies (#[trigger] chunks[k]).len()
            % BYTES_PER_SAMPLE as nat == 0 by {
            if k > 0 {
                assert(chunks[k] == chunks_of(rest, size)[k - 1]);
            }
        }
    }
}

/// A chunk has as many whole samples as its duration allows, but at least one.
pub proof fn law_samples_fit_duration(sample_rate: u32, chunk_ms: u64)
    ensures
        ({
            let samples = samples_per_chunk(sample_rate, chunk_ms);
            let product = sample_rate as int * chunk_ms as int;
            &&& product < 1000 ==> samples == 1
            &&& product >= 1000 ==> samples * 1000 <= product < (samples + 1) * 1000
        }),
{
    assert(sample_rate as int * chunk_ms as int >= 0) by (nonlinear_arith);
}

} // verus!
