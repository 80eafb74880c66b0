//! Per-direction channel state: the accumulation buffer, the running
//! offset and the display color, with the flush decision and the laws the
//! relay relies on.

use vstd::prelude::*;

use crate::colors::ChannelColor;
use crate::format::PrintFormat;
use crate::render::{offset_after_render, render_chunk, rendered_chunk};

verus! {

/// The carriage-return and line-feed bytes that trigger an immediate flush.
pub open spec fn is_terminator(b: u8) -> bool {
    b == 0x0D || b == 0x0A
}

/// Whether the buffer holds a line terminator anywhere.
pub open spec fn contains_terminator(buf: Seq<u8>) -> bool {
    exists|i: int| 0 <= i < buf.len() && is_terminator(buf[i])
}

/// The idle threshold in milliseconds: a non-empty buffer with no
/// terminator flushes once it has waited strictly longer than this.
pub const IDLE_FLUSH_MS: u64 = 75;

/// The flush trigger: a terminator anywhere in the buffer, or a non-empty
/// buffer whose last flush lies more than the idle threshold in the past.
pub open spec fn flush_due(buf: Seq<u8>, elapsed_ms: u64) -> bool {
    contains_terminator(buf) || (buf.len() > 0 && elapsed_ms > IDLE_FLUSH_MS)
}

/// What one read forwards to the peer endpoint: the bytes themselves,
/// unmodified and in order.
pub open spec fn forwarded_of(data: Seq<u8>) -> Seq<u8> {
    data
}

/// The bytes delivered to the peer over a whole run of reads: each read's
/// forwarded bytes, in read order.
pub open spec fn relayed(reads: Seq<Seq<u8>>) -> Seq<u8>
    decreases reads.len(),
{
    if reads.len() == 0 {
        Seq::<u8>::empty()
    } else {
        forwarded_of(reads.first()) + relayed(reads.drop_first())
    }
}

/// Whether the buffer holds a carriage return or a line feed.
pub fn has_terminator(buf: &Vec<u8>) -> (r: bool)
    ensures
        r == contains_terminator(buf@),
{
    let mut i: usize = 0;
    while i < buf.len()
        invariant
            0 <= i <= buf@.len(),
            forall|j: int| 0 <= j < i ==> !is_terminator(buf@[j]),
        decreases buf@.len() - i,
    {
        let b = buf[i];
        if b == 0x0D || b == 0x0A {
            return true;
        }
        i += 1;
    }
    false
}

/// The state of one traffic direction: the bytes collected since the last
/// flush, the running display offset, and the direction's color tag. The
/// buffer never holds a byte that has already been rendered.
pub struct Channel {
    /// Bytes observed since the last flush and not yet rendered.
    pub buffer: Vec<u8>,
    /// The address of the next rendered byte in the addressed formats.
    pub offset: usize,
    /// The display color of this direction.
    pub color: ChannelColor,
}

impl Channel {
    /// A fresh channel: empty buffer, offset zero.
    pub fn new(color: ChannelColor) -> (c: Channel)
        ensures
            c.buffer@ == Seq::<u8>::empty(),
            c.offset == 0,
            c.color == color,
    {
        Channel { buffer: Vec::new(), offset: 0, color }
    }

    /// Records freshly read bytes in the display buffer and returns the
    /// identical bytes, in order, for forwarding to the peer endpoint.
    /// The bytes are recorded before the caller attempts the forwarding
    /// write, so a failed write never drops them from the display.
    pub fn process_incoming(&mut self, data: &Vec<u8>) -> (forward: Vec<u8>)
        ensures
            forward@ == forwarded_of(data@),
            final(self).buffer@ == old(self).buffer@ + data@,
            final(self).offset == old(self).offset,
            final(self).color == old(self).color,
    {
        let mut forward: Vec<u8> = Vec::new();
        let mut i: usize = 0;
        while i < data.len()
            invariant
                0 <= i <= data@.len(),
                forward@ == data@.take(i as int),
                self.buffer@ == old(self).buffer@ + data@.take(i as int),
                self.offset == old(self).offset,
                self.color == old(self).color,
            decreases data@.len() - i,
        {
            let b = data[i];
            self.buffer.push(b);
            forward.push(b);
            proof {
                assert(data@.take(i + 1) =~= data@.take(i as int).push(data@[i as int]));
                assert(self.buffer@ =~= old(self).buffer@ + data@.take(i + 1));
            }
            i += 1;
        }
        proof {
            assert(data@.take(data@.len() as int) =~= data@);
        }
        forward
    }

    /// Evaluates the flush trigger for this channel's buffer, given the
    /// milliseconds elapsed since the last flush.
    pub fn flush_is_due(&self, elapsed_ms: u64) -> (r: bool)
        ensures
            r == flush_due(self.buffer@, elapsed_ms),
    {
        if has_terminator(&self.buffer) {
            true
        } else {
            self.buffer.len() > 0 && elapsed_ms > IDLE_FLUSH_MS
        }
    }

    /// Checks the flush trigger and, when it fires, renders the whole
    /// buffer in the given format bracketed by this channel's color,
    /// advances the offset by the byte count for the addressed formats,
    /// and clears the buffer; otherwise leaves the channel untouched.
    /// The caller resets its idle timer exactly when a chunk is returned.
    pub fn maybe_flush(&mut self, fmt: &PrintFormat, elapsed_ms: u64) -> (out: Option<String>)
        requires
            old(self).offset + old(self).buffer@.len() <= usize::MAX,
        ensures
            flush_due(old(self).buffer@, elapsed_ms) ==> out is Some && out->0@ == rendered_chunk(
                *fmt,
                old(self).offset as nat,
                old(self).buffer@,
                old(self).color,
            ),
            flush_due(old(self).buffer@, elapsed_ms) ==> {
                &&& final(self).buffer@ == Seq::<u8>::empty()
                &&& final(self).offset as nat == offset_after_render(
                    *fmt,
                    old(self).offset as nat,
                    old(self).buffer@.len(),
                )
                &&& final(self).color == old(self).color
            },
            !flush_due(old(self).buffer@, elapsed_ms) ==> out is None && *final(self) == *old(
                self,
            ),
    {
        if self.flush_is_due(elapsed_ms) {
            let rendered = render_chunk(&self.buffer, &mut self.offset, fmt, self.color);
            self.buffer.clear();
            Some(rendered)
        } else {
            None
        }
    }
}

/// Forwarding fidelity: over any finite run of reads from one endpoint,
/// the bytes handed on to the peer are exactly the bytes read, in order.
pub proof fn lemma_forwarding_fidelity(reads: Seq<Seq<u8>>)
    ensures
        relayed(reads) == reads.flatten(),
    decreases reads.len(),
{
    if reads.len() == 0 {
        assert(relayed(reads) =~= reads.flatten());
    } else {
        lemma_forwarding_fidelity(reads.drop_first());
    }
}

/// Flush triggers: a buffer holding a line feed flushes at the very next
/// decision whatever the elapsed time; a non-empty buffer without any
/// terminator flushes exactly when strictly more than the idle threshold
/// has elapsed, and not before.
pub proof fn lemma_flush_triggers(buf: Seq<u8>, elapsed_ms: u64)
    ensures
        buf.contains(0x0A) ==> flush_due(buf, elapsed_ms),
        buf.len() > 0 && !contains_terminator(buf) ==> (flush_due(buf, elapsed_ms) <==> elapsed_ms
            > IDLE_FLUSH_MS),
{
    if buf.contains(0x0A) {
        let i = choose|i: int| 0 <= i < buf.len() && buf[i] == 0x0A;
        assert(is_terminator(buf[i]));
    }
}

/// The running offset after a run of flushes in an addressed format, each
/// flush rendering the given byte count.
pub open spec fn offset_after_flushes(start: nat, counts: Seq<nat>) -> nat
    decreases counts.len(),
{
    if counts.len() == 0 {
        start
    } else {
        offset_after_flushes(start + counts.first(), counts.drop_first())
    }
}

/// The total byte count of a run of flushes.
pub open spec fn sum_counts(counts: Seq<nat>) -> nat
    decreases counts.len(),
{
    if counts.len() == 0 {
        0
    } else {
        counts.first() + sum_counts(counts.drop_first())
    }
}

/// The offset after a run of flushes is the start plus the bytes flushed.
pub proof fn lemma_offset_after_is_sum(start: nat, counts: Seq<nat>)
    ensures
        offset_after_flushes(start, counts) == start + sum_counts(counts),
    decreases counts.len(),
{
    if counts.len() > 0 {
        lemma_offset_after_is_sum(start + counts.first(), counts.drop_first());
    }
}

/// Splitting a run of flushes splits its byte total.
pub proof fn lemma_sum_counts_concat(a: Seq<nat>, b: Seq<nat>)
    ensures
        sum_counts(a + b) == sum_counts(a) + sum_counts(b),
    decreases a.len(),
{
    if a.len() == 0 {
        assert(a + b =~= b);
    } else {
        assert((a + b).drop_first() =~= a.drop_first() + b);
        lemma_sum_counts_concat(a.drop_first(), b);
    }
}

/// Offset monotonicity: in the addressed formats, after the first `k`
/// flushes of a run with byte counts `counts`, the offset before the
/// `k + 1`-th flush equals the start plus the sum of the first `k`
/// counts; it never decreases as the run goes on, and is never reset.
pub proof fn lemma_offset_monotonicity(start: nat, counts: Seq<nat>, k: int)
    requires
        0 <= k <= counts.len(),
    ensures
        offset_after_flushes(start, counts.take(k)) == start + sum_counts(counts.take(k)),
        offset_after_flushes(start, counts.take(k)) <= offset_after_flushes(start, counts),
        start <= offset_after_flushes(start, counts.take(k)),
        k < counts.len() ==> offset_after_flushes(start, counts.take(k)) <= offset_after_flushes(
            start,
            counts.take(k + 1),
        ),
{
    lemma_offset_after_is_sum(start, counts.take(k));
    lemma_offset_after_is_sum(start, counts);
    assert(counts =~= counts.take(k) + counts.skip(k));
    lemma_sum_counts_concat(counts.take(k), counts.skip(k));
    if k < counts.len() {
        lemma_offset_after_is_sum(start, counts.take(k + 1));
        assert(counts.take(k + 1) =~= counts.take(k) + seq![counts[k]]);
        lemma_sum_counts_concat(counts.take(k), seq![counts[k]]);
    }
}

} // verus!
