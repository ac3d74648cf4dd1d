//! The byte-stream model behind the packet stream writer and reader.
//!
//! A writer turns a sequence of write calls of arbitrary sizes into packets
//! of at most `max` payload bytes; a reader turns the packets back into a
//! byte stream, served in slices of the caller's chosen sizes. The functions
//! here describe both sides over plain sequences, and the lemmas culminate in
//! the round-trip law: whatever the chunking on either side, the bytes read
//! are exactly the bytes written.

use vstd::prelude::*;
use vstd::seq_lib::lemma_flatten_concat;

verus! {

/// The full packets a writer emits when `bytes` passes through a buffer of
/// capacity `max`: the successive `max`-sized slices, the remainder staying
/// buffered.
pub open spec fn full_chunks(bytes: Seq<u8>, max: nat) -> Seq<Seq<u8>>
    recommends
        max > 0,
    decreases bytes.len(),
{
    if max == 0 || bytes.len() < max {
        Seq::empty()
    } else {
        seq![bytes.take(max as int)] + full_chunks(bytes.skip(max as int), max)
    }
}

/// The bytes that stay buffered after the full packets are taken out.
pub open spec fn chunk_rest(bytes: Seq<u8>, max: nat) -> Seq<u8>
    recommends
        max > 0,
    decreases bytes.len(),
{
    if max == 0 || bytes.len() < max {
        bytes
    } else {
        chunk_rest(bytes.skip(max as int), max)
    }
}

/// Cutting a byte sequence into full packets and a buffered rest loses and
/// reorders nothing.
pub proof fn lemma_chunks_reassemble(bytes: Seq<u8>, max: nat)
    requires
        max > 0,
    ensures
        full_chunks(bytes, max).flatten() + chunk_rest(bytes, max) =~= bytes,
    decreases bytes.len(),
{
    if bytes.len() < max {
        assert(full_chunks(bytes, max).flatten() =~= Seq::<u8>::empty());
    } else {
        let head = seq![bytes.take(max as int)];
        let tail = bytes.skip(max as int);
        lemma_chunks_reassemble(tail, max);
        lemma_flatten_concat(head, full_chunks(tail, max));
        assert(head.flatten() =~= bytes.take(max as int)) by {
            head.lemma_flatten_one_element();
        }
        assert(full_chunks(bytes, max).flatten() =~= bytes.take(max as int) + full_chunks(
            tail,
            max,
        ).flatten());
        assert(full_chunks(bytes, max).flatten() + chunk_rest(bytes, max) =~= bytes.take(
            max as int,
        ) + (full_chunks(tail, max).flatten() + chunk_rest(tail, max)));
        assert(bytes.take(max as int) + tail =~= bytes);
    }
}

/// Every full packet is exactly `max` bytes, and the buffered rest is
/// shorter than `max`.
pub proof fn lemma_chunks_shape(bytes: Seq<u8>, max: nat)
    requires
        max > 0,
    ensures
        forall|i: int|
            0 <= i < full_chunks(bytes, max).len() ==> (#[trigger] full_chunks(bytes, max)[i]).len()
                == max,
        chunk_rest(bytes, max).len() < max,
    decreases bytes.len(),
{
    if bytes.len() >= max {
        let tail = bytes.skip(max as int);
        lemma_chunks_shape(tail, max);
        assert(full_chunks(bytes, max) =~= seq![bytes.take(max as int)] + full_chunks(tail, max));
        assert forall|i: int| 0 <= i < full_chunks(bytes, max).len() implies (
        #[trigger] full_chunks(bytes, max)[i]).len() == max by {
            if i == 0 {
                assert(full_chunks(bytes, max)[0] == bytes.take(max as int));
            } else {
                assert(full_chunks(bytes, max)[i] == full_chunks(tail, max)[i - 1]);
            }
        }
    }
}

/// The packets emitted after a sequence of write calls has passed through
/// the writer, the buffer starting empty.
pub open spec fn stream_packets(writes: Seq<Seq<u8>>, max: nat) -> Seq<Seq<u8>>
    recommends
        max > 0,
    decreases writes.len(),
{
    if writes.len() == 0 {
        Seq::empty()
    } else {
        stream_packets(writes.drop_last(), max) + full_chunks(
            stream_pending(writes.drop_last(), max) + writes.last(),
            max,
        )
    }
}

/// The bytes still buffered after a sequence of write calls.
pub open spec fn stream_pending(writes: Seq<Seq<u8>>, max: nat) -> Seq<u8>
    recommends
        max > 0,
    decreases writes.len(),
{
    if writes.len() == 0 {
        Seq::empty()
    } else {
        chunk_rest(stream_pending(writes.drop_last(), max) + writes.last(), max)
    }
}

/// Whatever the sizes of the write calls, the packets emitted so far and the
/// buffered rest together hold exactly the bytes written, in order.
pub proof fn lemma_stream_accounting(writes: Seq<Seq<u8>>, max: nat)
    requires
        max > 0,
    ensures
        stream_packets(writes, max).flatten() + stream_pending(writes, max) =~= writes.flatten(),
    decreases writes.len(),
{
    if writes.len() == 0 {
        assert(stream_packets(writes, max).flatten() =~= Seq::<u8>::empty());
        assert(writes.flatten() =~= Seq::<u8>::empty());
    } else {
        let front = writes.drop_last();
        let t = stream_pending(front, max) + writes.last();
        lemma_stream_accounting(front, max);
        lemma_chunks_reassemble(t, max);
        lemma_flatten_concat(stream_packets(front, max), full_chunks(t, max));
        assert(stream_packets(writes, max).flatten() =~= stream_packets(front, max).flatten()
            + full_chunks(t, max).flatten());
        assert(stream_packets(writes, max).flatten() + stream_pending(writes, max)
            =~= stream_packets(front, max).flatten() + (full_chunks(t, max).flatten()
            + chunk_rest(t, max)));
        assert(stream_packets(writes, max).flatten() + stream_pending(writes, max)
            =~= (stream_packets(front, max).flatten() + stream_pending(front, max))
            + writes.last());
        assert(writes =~= front + seq![writes.last()]);
        lemma_flatten_concat(front, seq![writes.last()]);
        assert(seq![writes.last()].flatten() =~= writes.last()) by {
            seq![writes.last()].lemma_flatten_one_element();
        }
        assert(writes.flatten() =~= front.flatten() + writes.last());
    }
}

/// One more write call advances the fold exactly as the stream writer
/// does: the full packets of the buffered bytes plus the new chunk go out,
/// the rest stays buffered.
pub proof fn lemma_stream_step(writes: Seq<Seq<u8>>, chunk: Seq<u8>, max: nat)
    requires
        max > 0,
    ensures
        stream_packets(writes.push(chunk), max) == stream_packets(writes, max) + full_chunks(
            stream_pending(writes, max) + chunk,
            max,
        ),
        stream_pending(writes.push(chunk), max) == chunk_rest(
            stream_pending(writes, max) + chunk,
            max,
        ),
{
    assert(writes.push(chunk).drop_last() =~= writes);
    assert(writes.push(chunk).last() == chunk);
}

/// The packets on the wire after the write calls and a final flush: the
/// emitted packets, then one more for the buffered rest if any is left.
pub open spec fn flushed_packets(writes: Seq<Seq<u8>>, max: nat) -> Seq<Seq<u8>>
    recommends
        max > 0,
{
    if stream_pending(writes, max).len() == 0 {
        stream_packets(writes, max)
    } else {
        stream_packets(writes, max).push(stream_pending(writes, max))
    }
}

/// After the final flush the packets on the wire hold exactly the bytes
/// written, whatever the sizes of the write calls.
pub proof fn lemma_flushed_packets(writes: Seq<Seq<u8>>, max: nat)
    requires
        max > 0,
    ensures
        flushed_packets(writes, max).flatten() =~= writes.flatten(),
{
    lemma_stream_accounting(writes, max);
    let packets = stream_packets(writes, max);
    let pending = stream_pending(writes, max);
    if pending.len() == 0 {
        assert(packets.flatten() + pending =~= packets.flatten());
    } else {
        lemma_flatten_concat(packets, seq![pending]);
        assert(seq![pending].flatten() =~= pending) by {
            seq![pending].lemma_flatten_one_element();
        }
        assert(packets.push(pending) =~= packets + seq![pending]);
    }
}

/// The smaller of two integers.
pub open spec fn min_of(a: int, b: int) -> int {
    if a <= b {
        a
    } else {
        b
    }
}

/// The total of a sequence of read sizes.
pub open spec fn sum_of(reads: Seq<int>) -> int
    decreases reads.len(),
{
    if reads.len() == 0 {
        0
    } else {
        reads.first() + sum_of(reads.drop_first())
    }
}

/// The slices a reader hands out when it serves read calls of the given
/// sizes from `stream`: each call takes the next `min(size, what is left)`
/// bytes.
pub open spec fn reader_outputs(stream: Seq<u8>, reads: Seq<int>) -> Seq<Seq<u8>>
    decreases reads.len(),
{
    if reads.len() == 0 {
        Seq::empty()
    } else {
        let k = min_of(reads.first(), stream.len() as int);
        seq![stream.take(k)] + reader_outputs(stream.skip(k), reads.drop_first())
    }
}

/// Read calls hand the stream out in order: together their results are the
/// first `min(sum of sizes, stream length)` bytes.
pub proof fn lemma_reader_outputs(stream: Seq<u8>, reads: Seq<int>)
    requires
        forall|i: int| 0 <= i < reads.len() ==> reads[i] >= 0,
    ensures
        reader_outputs(stream, reads).flatten() =~= stream.take(
            min_of(sum_of(reads), stream.len() as int),
        ),
    decreases reads.len(),
{
    if reads.len() == 0 {
        assert(reader_outputs(stream, reads).flatten() =~= Seq::<u8>::empty());
    } else {
        let k = min_of(reads.first(), stream.len() as int);
        let rest = reads.drop_first();
        assert(forall|i: int| 0 <= i < rest.len() ==> rest[i] >= 0);
        assert(reads.first() >= 0);
        assert(sum_of(rest) >= 0) by {
            lemma_sum_nonneg(rest);
        }
        lemma_reader_outputs(stream.skip(k), rest);
        lemma_flatten_concat(seq![stream.take(k)], reader_outputs(stream.skip(k), rest));
        assert(seq![stream.take(k)].flatten() =~= stream.take(k)) by {
            seq![stream.take(k)].lemma_flatten_one_element();
        }
    }
}

/// A sum of non-negative sizes is non-negative.
pub proof fn lemma_sum_nonneg(reads: Seq<int>)
    requires
        forall|i: int| 0 <= i < reads.len() ==> reads[i] >= 0,
    ensures
        sum_of(reads) >= 0,
    decreases reads.len(),
{
    if reads.len() > 0 {
        lemma_sum_nonneg(reads.drop_first());
    }
}

/// Round trip of the byte stream: for any byte sequence, any sizes of the
/// writer's write calls and any sizes of the reader's read calls that ask
/// for at least the whole stream, writing the calls through the stream
/// writer, flushing, and reading the resulting packets on the peer hands
/// back exactly the bytes written, in order.
pub proof fn lemma_stream_round_trip(writes: Seq<Seq<u8>>, max: nat, reads: Seq<int>)
    requires
        max > 0,
        forall|i: int| 0 <= i < reads.len() ==> reads[i] >= 0,
        sum_of(reads) >= writes.flatten().len(),
    ensures
        reader_outputs(flushed_packets(writes, max).flatten(), reads).flatten()
            =~= writes.flatten(),
{
    lemma_flushed_packets(writes, max);
    let stream = flushed_packets(writes, max).flatten();
    lemma_reader_outputs(stream, reads);
    assert(min_of(sum_of(reads), stream.len() as int) == stream.len());
    assert(stream.take(stream.len() as int) =~= stream);
}

} // verus!
