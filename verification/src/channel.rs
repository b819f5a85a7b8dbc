//! The shared channel's write-serialization model.
//!
//! One physical medium is written by any number of concurrent callers, each
//! holding the channel's mutual-exclusion primitive for exactly the duration
//! of its single write. The medium therefore sees the writes as a sequence:
//! whole payloads, one after the other, in the order the callers acquired
//! the channel. `MediumLog` is that sequence, and the laws below state what
//! serialization buys: in the flattened byte stream every committed write
//! occupies one contiguous run, so two writes can land in either acquire
//! order but never interleaved.
use vstd::prelude::*;
use crate::framing::TransportError;

verus! {

/// The medium's record of channel traffic: the payload of each completed
/// write, in acquire order. Holding the channel for the whole write is what
/// makes one entry per write the right model.
pub struct MediumLog {
    pub writes: Vec<Vec<u8>>,
}

impl MediumLog {
    /// The payloads as mathematical sequences, in acquire order.
    pub open spec fn view_writes(self) -> Seq<Seq<u8>> {
        self.writes.deep_view()
    }

    /// The raw byte stream the medium carries: the payloads, concatenated.
    pub open spec fn stream(self) -> Seq<u8> {
        self.view_writes().flatten()
    }

    /// A medium that has seen no traffic.
    pub fn new() -> (r: MediumLog)
        ensures
            r.view_writes() == Seq::<Seq<u8>>::empty(),
    {
        let r = MediumLog { writes: Vec::new() };
        proof {
            assert(r.view_writes() =~~= Seq::<Seq<u8>>::empty());
        }
        r
    }

    /// One caller's whole write reaching the medium while that caller holds
    /// the channel: the payload is appended as a single unit.
    pub fn commit_write(&mut self, msg: Vec<u8>) -> (r: Result<(), TransportError>)
        ensures
            r is Ok,
            final(self).view_writes() == old(self).view_writes().push(msg@),
    {
        self.writes.push(msg);
        proof {
            assert(self.view_writes() =~~= old(self).view_writes().push(msg@));
        }
        Ok(())
    }
}

/// Judges an attempt to take the shared channel. A corrupted (poisoned)
/// mutual-exclusion primitive means a prior holder died while holding the
/// medium; the caller cannot safely continue touching it, so the attempt
/// fails with `ChannelUnavailable` — fatal, surfaced, never silently retried.
pub fn acquire_status(poisoned: bool) -> (r: Result<(), TransportError>)
    ensures
        r is Ok <==> !poisoned,
        poisoned ==> r == Err::<(), TransportError>(TransportError::ChannelUnavailable),
{
    if poisoned {
        Err(TransportError::ChannelUnavailable)
    } else {
        Ok(())
    }
}

/// Where the `i`-th committed write begins in the flattened byte stream:
/// the total length of the writes before it.
pub open spec fn stream_offset(writes: Seq<Seq<u8>>, i: int) -> nat
    decreases i,
{
    if i <= 0 {
        0
    } else {
        (writes[0].len() + stream_offset(writes.drop_first(), i - 1)) as nat
    }
}

/// Law: writes are serialized. In the byte stream the medium receives, each
/// committed write's bytes appear fully and contiguously, at the offset given
/// by the total order of acquire calls — no two writes' bytes interleave.
pub proof fn lemma_writes_serialized(writes: Seq<Seq<u8>>, i: int)
    requires
        0 <= i < writes.len(),
    ensures
        stream_offset(writes, i) + writes[i].len() <= writes.flatten().len(),
        writes.flatten().subrange(
            stream_offset(writes, i) as int,
            (stream_offset(writes, i) + writes[i].len()) as int,
        ) == writes[i],
    decreases i,
{
    let flat = writes.flatten();
    let rest = writes.drop_first();
    assert(flat == writes[0] + rest.flatten());
    if i == 0 {
        assert(flat.subrange(0, writes[0].len() as int) =~= writes[0]);
    } else {
        lemma_writes_serialized(rest, i - 1);
        let off = stream_offset(rest, i - 1);
        assert(rest[i - 1] == writes[i]);
        assert(stream_offset(writes, i) == writes[0].len() + off);
        assert(flat.subrange(
            (writes[0].len() + off) as int,
            (writes[0].len() + off + writes[i].len()) as int,
        ) =~= rest.flatten().subrange(off as int, (off + writes[i].len()) as int));
    }
}

/// Law: the committed writes tile the whole stream — past the last write's
/// end the medium has received nothing, so the runs of
/// `lemma_writes_serialized` are all there is.
pub proof fn lemma_writes_cover_stream(writes: Seq<Seq<u8>>)
    ensures
        stream_offset(writes, writes.len() as int) == writes.flatten().len(),
    decreases writes.len(),
{
    if writes.len() == 0 {
        assert(writes.flatten() =~= Seq::<u8>::empty());
    } else {
        lemma_writes_cover_stream(writes.drop_first());
        assert(writes.flatten() == writes[0] + writes.drop_first().flatten());
    }
}

/// Law: two writes issued concurrently land whole, one after the other.
/// Whichever caller acquires the channel first, the medium's stream is one
/// payload followed by the other — never an interleaving of the two.
pub proof fn lemma_two_writes_never_interleaved(a: Seq<u8>, b: Seq<u8>)
    ensures
        seq![a, b].flatten() == a + b,
        seq![b, a].flatten() == b + a,
{
    lemma_pair_flattens(a, b);
    lemma_pair_flattens(b, a);
}

/// Flattening a two-element log is plain concatenation.
proof fn lemma_pair_flattens(a: Seq<u8>, b: Seq<u8>)
    ensures
        seq![a, b].flatten() == a + b,
{
    let log = seq![a, b];
    assert(log.flatten() == a + log.drop_first().flatten());
    assert(log.drop_first() =~= seq![b]);
    assert(seq![b].flatten() == b + seq![b].drop_first().flatten());
    assert(seq![b].drop_first() =~= Seq::<Seq<u8>>::empty());
    assert(log.flatten() =~= a + b);
}

} // verus!
