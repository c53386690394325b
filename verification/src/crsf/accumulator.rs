//! Push-based accumulator for a UART byte stream: a fixed 64-byte window
//! that always tries to interpret its front as `[address][len][type]
//! [payload...][crc]`, and on any rejection drops exactly the front byte
//! and rescans rather than discarding everything buffered.
//!
//! CRSF frames carry no resync marker - the length field *is* the framing -
//! so a UART that starts listening mid-frame, or a single flipped byte, must
//! not cost more than the one byte that was actually wrong.

use vstd::prelude::*;

use super::error::ParseError;
use super::frame::{len_field_in_range, parse_frame, ParseOutcome, MAX_FRAME_LEN};

verus! {

/// A window over a byte stream that hands out frames as they complete.
pub struct FrameReader {
    buf: [u8; 64],
    len: usize,
}

/// What one more byte makes of a window.
pub ghost enum Scan {
    /// The front may still become a frame.
    Waiting,
    /// The front byte cannot start a frame; it leaves the window.
    Rejected(ParseError),
    /// The front `total` bytes are a frame; they leave the window.
    Accepted(int),
}

/// The decision on a window that has just grown by a byte.
pub open spec fn scan(window: Seq<u8>) -> Scan {
    if window.len() < 2 {
        Scan::Waiting
    } else if !super::frame::length_in_range(window[1] as int) {
        Scan::Rejected(ParseError::LengthOutOfRange)
    } else if window.len() < 2 + window[1] {
        Scan::Waiting
    } else {
        let total = 2 + window[1];
        match super::frame::verdict(window.take(total)) {
            Ok(_) => Scan::Accepted(total),
            Err(e) => Scan::Rejected(e),
        }
    }
}

/// How many bytes a decision takes off the front of the window.
pub open spec fn dropped(decision: Scan) -> int {
    match decision {
        Scan::Waiting => 0,
        Scan::Rejected(_) => 1,
        Scan::Accepted(total) => total,
    }
}

/// Whether `r` is what a reader reports for a decision on `window`.
pub open spec fn reports(window: Seq<u8>, r: Option<Result<ParseOutcome, ParseError>>) -> bool {
    match scan(window) {
        Scan::Waiting => r is None,
        Scan::Rejected(e) => r == Some(Err::<ParseOutcome, ParseError>(e)),
        Scan::Accepted(total) => r matches Some(result) && result is Ok
            && super::frame::parses_to(window.take(total), result),
    }
}

impl View for FrameReader {
    type V = Seq<u8>;

    /// The bytes still in the window.
    closed spec fn view(&self) -> Seq<u8> {
        self.buf@.take(self.len as int)
    }
}

impl FrameReader {
    /// There is always room for the next byte.
    #[verifier::type_invariant]
    spec fn has_room(self) -> bool {
        self.len < MAX_FRAME_LEN
    }

    pub fn new() -> (reader: FrameReader)
        ensures
            reader@ == Seq::<u8>::empty(),
    {
        FrameReader { buf: [0; 64], len: 0 }
    }

    /// Feed one byte. Returns `Some` exactly when a full frame candidate is
    /// found at the front of the window, parsed or rejected; `None` while
    /// still waiting for more bytes.
    pub fn push(&mut self, byte: u8) -> (r: Option<Result<ParseOutcome, ParseError>>)
        ensures
            reports(old(self)@.push(byte), r),
            final(self)@ == old(self)@.push(byte).skip(dropped(scan(old(self)@.push(byte)))),
            final(self)@.len() < MAX_FRAME_LEN,
    {
        proof {
            use_type_invariant(&*self);
        }
        let mut buf = self.buf;
        let len: usize = self.len + 1;
        buf[len - 1] = byte;
        let ghost window = old(self)@.push(byte);
        proof {
            assert(buf@.take(len as int) == window);
        }
        if len < 2 {
            self.buf = buf;
            self.len = len;
            proof {
                assert(window.skip(0) == window);
            }
            return None;
        }
        let len_field: usize = buf[1] as usize;
        if !len_field_in_range(len_field) {
            // The front byte can't be a real address+len start; drop it and
            // let the next byte take its place as the candidate sync byte.
            self.keep_from(buf, len, 1);
            return Some(Err(ParseError::LengthOutOfRange));
        }
        let total: usize = 2 + len_field;
        if len < total {
            self.buf = buf;
            self.len = len;
            proof {
                assert(window.skip(0) == window);
            }
            return None;
        }
        proof {
            assert(buf@.subrange(0, total as int) == window.take(total as int));
        }
        match parse_frame(vstd::slice::slice_subrange(buf.as_slice(), 0, total)) {
            Ok(outcome) => {
                self.keep_from(buf, len, total);
                Some(Ok(outcome))
            },
            Err(e) => {
                // Bad address or bad CRC: drop only the front byte, not the
                // whole candidate.
                self.keep_from(buf, len, 1);
                Some(Err(e))
            },
        }
    }

    /// Holds on to `buf[n..len]` as the new window.
    fn keep_from(&mut self, buf: [u8; 64], len: usize, n: usize)
        requires
            1 <= n <= len <= MAX_FRAME_LEN,
        ensures
            final(self)@ == buf@.take(len as int).skip(n as int),
    {
        let mut moved = buf;
        let mut i: usize = n;
        while i < len
            invariant
                1 <= n <= i <= len <= MAX_FRAME_LEN,
                forall|k: int| 0 <= k < i - n ==> #[trigger] moved@[k] == buf@[k + n],
                forall|k: int| i - n <= k < 64 ==> #[trigger] moved@[k] == buf@[k],
            decreases len - i,
        {
            let b: u8 = moved[i];
            moved[i - n] = b;
            i = i + 1;
        }
        *self = FrameReader { buf: moved, len: len - n };
        proof {
            assert(self@ == buf@.take(len as int).skip(n as int));
        }
    }
}

impl Default for FrameReader {
    fn default() -> (reader: FrameReader)
        ensures
            reader@ == Seq::<u8>::empty(),
    {
        Self::new()
    }
}

/// The window after feeding a stream byte by byte.
pub open spec fn window_after(window: Seq<u8>, stream: Seq<u8>) -> Seq<u8>
    decreases stream.len(),
{
    if stream.len() == 0 {
        window
    } else {
        let grown = window_after(window, stream.drop_last()).push(stream.last());
        grown.skip(dropped(scan(grown)))
    }
}

/// The windows a reader has reported on while a stream was fed, in order:
/// those on which it had something other than waiting to say.
pub open spec fn reported_on(window: Seq<u8>, stream: Seq<u8>) -> Seq<Seq<u8>>
    decreases stream.len(),
{
    if stream.len() == 0 {
        Seq::empty()
    } else {
        let before = reported_on(window, stream.drop_last());
        let grown = window_after(window, stream.drop_last()).push(stream.last());
        if scan(grown) is Waiting {
            before
        } else {
            before.push(grown)
        }
    }
}

/// Feeding a stream in two parts is feeding it whole.
pub proof fn feeding_composes(window: Seq<u8>, first: Seq<u8>, second: Seq<u8>)
    ensures
        window_after(window, first + second) == window_after(window_after(window, first), second),
        reported_on(window, first + second) == reported_on(window, first) + reported_on(
            window_after(window, first),
            second,
        ),
    decreases second.len(),
{
    if second.len() == 0 {
        assert(first + second == first);
    } else {
        let whole = first + second;
        assert(whole.drop_last() == first + second.drop_last());
        feeding_composes(window, first, second.drop_last());
    }
}

/// A decision never takes more bytes than the window holds, a rejection takes
/// exactly one, and a window that had room for a byte has room again.
pub proof fn no_decision_overruns(window: Seq<u8>)
    requires
        0 < window.len() <= MAX_FRAME_LEN,
    ensures
        0 <= dropped(scan(window)) <= window.len(),
        scan(window) is Rejected ==> dropped(scan(window)) == 1,
        window.skip(dropped(scan(window))).len() < MAX_FRAME_LEN,
{
}

/// The bytes that have left the window while a stream was fed, in order.
pub open spec fn taken_off(window: Seq<u8>, stream: Seq<u8>) -> Seq<u8>
    decreases stream.len(),
{
    if stream.len() == 0 {
        Seq::empty()
    } else {
        let grown = window_after(window, stream.drop_last()).push(stream.last());
        taken_off(window, stream.drop_last()) + grown.take(dropped(scan(grown)))
    }
}

/// No byte is lost or made up: what has left the window and what is still in
/// it are, in order, what was fed.
pub proof fn every_byte_is_accounted_for(window: Seq<u8>, stream: Seq<u8>)
    requires
        window.len() < MAX_FRAME_LEN,
    ensures
        taken_off(window, stream) + window_after(window, stream) == window + stream,
        window_after(window, stream).len() < MAX_FRAME_LEN,
    decreases stream.len(),
{
    if stream.len() == 0 {
        assert(window + stream == window);
    } else {
        let head = stream.drop_last();
        every_byte_is_accounted_for(window, head);
        let grown = window_after(window, head).push(stream.last());
        no_decision_overruns(grown);
        let n = dropped(scan(grown));
        assert(grown.take(n) + grown.skip(n) == grown);
        assert(taken_off(window, stream) + window_after(window, stream) == taken_off(window, head)
            + grown);
        assert(taken_off(window, head) + grown == (window + head).push(stream.last()));
        assert((window + head).push(stream.last()) == window + stream);
    }
}

/// A window that a frame has so far been fed into keeps waiting.
proof fn lemma_prefix_waits(frame: Seq<u8>, k: int)
    requires
        super::frame::verdict(frame) is Ok,
        0 <= k < frame.len(),
    ensures
        window_after(Seq::empty(), frame.take(k)) == frame.take(k),
        reported_on(Seq::empty(), frame.take(k)) == Seq::<Seq<u8>>::empty(),
    decreases k,
{
    if k > 0 {
        lemma_prefix_waits(frame, k - 1);
        assert(frame.take(k).drop_last() == frame.take(k - 1));
        assert(frame.take(k - 1).push(frame[k - 1]) == frame.take(k));
        assert(frame.take(k).skip(0) == frame.take(k));
    } else {
        assert(frame.take(0) == Seq::<u8>::empty());
    }
}

/// Fed byte by byte into an empty reader, a frame that the one-shot parser
/// accepts is reported exactly once, on its last byte, with the whole frame
/// as the window, and leaves the reader empty.
pub proof fn byte_at_a_time_matches_one_shot(frame: Seq<u8>)
    requires
        super::frame::verdict(frame) is Ok,
    ensures
        window_after(Seq::empty(), frame) == Seq::<u8>::empty(),
        reported_on(Seq::empty(), frame) == seq![frame],
        scan(frame) == Scan::Accepted(frame.len() as int),
{
    lemma_prefix_waits(frame, frame.len() - 1);
    assert(frame.drop_last() == frame.take(frame.len() - 1));
    assert(frame.drop_last().push(frame.last()) == frame);
    assert(frame.take(frame.len() as int) == frame);
    assert(frame.skip(frame.len() as int) == Seq::<u8>::empty());
}

/// The frames of a list, one behind the other.
pub open spec fn back_to_back(frames: Seq<Seq<u8>>) -> Seq<u8>
    decreases frames.len(),
{
    if frames.len() == 0 {
        Seq::empty()
    } else {
        back_to_back(frames.drop_last()) + frames.last()
    }
}

/// However many accepted frames follow each other, each is reported exactly
/// once and in order, and nothing is left over. A frame of a type that is not
/// decoded is accepted like any other, so it costs the next one nothing.
pub proof fn frames_back_to_back(frames: Seq<Seq<u8>>)
    requires
        forall|i: int|
            0 <= i < frames.len() ==> super::frame::verdict(#[trigger] frames[i]) is Ok,
    ensures
        window_after(Seq::empty(), back_to_back(frames)) == Seq::<u8>::empty(),
        reported_on(Seq::empty(), back_to_back(frames)) == frames,
    decreases frames.len(),
{
    if frames.len() > 0 {
        frames_back_to_back(frames.drop_last());
        feeding_composes(Seq::empty(), back_to_back(frames.drop_last()), frames.last());
        byte_at_a_time_matches_one_shot(frames.last());
        assert(frames.drop_last() + seq![frames.last()] == frames);
    }
}

/// Noise of which no byte is a possible length field is rejected one byte at
/// a time, and the frame behind it is still reported whole.
pub proof fn resyncs_behind_noise(noise: Seq<u8>, frame: Seq<u8>)
    requires
        super::frame::verdict(frame) is Ok,
        forall|i: int|
            0 <= i < noise.len() ==> !super::frame::length_in_range(
                #[trigger] noise[i] as int,
            ),
    ensures
        window_after(Seq::empty(), noise + frame) == Seq::<u8>::empty(),
        reported_on(Seq::empty(), noise + frame).len() == noise.len() + 1,
        reported_on(Seq::empty(), noise + frame).last() == frame,
        forall|i: int|
            0 <= i < noise.len() ==> scan(
                #[trigger] reported_on(Seq::empty(), noise + frame)[i],
            ) == Scan::Rejected(ParseError::LengthOutOfRange),
{
    if noise.len() == 0 {
        assert(noise + frame == frame);
        byte_at_a_time_matches_one_shot(frame);
    } else {
        lemma_noise_keeps_last(noise);
        let start = frame.take(1);
        let head = noise + start;
        assert(noise + frame == head + frame.skip(1));
        assert(head.drop_last() == noise);
        assert(head.last() == frame[0]);
        let pair = seq![noise.last(), frame[0]];
        assert(seq![noise.last()].push(frame[0]) == pair);
        assert(!super::frame::length_in_range(frame[0] as int));
        assert(pair.skip(1) == start);
        assert(window_after(Seq::empty(), head) == start);
        assert(reported_on(Seq::empty(), head) == reported_on(Seq::empty(), noise).push(pair));
        feeding_composes(Seq::empty(), head, frame.skip(1));
        byte_at_a_time_matches_one_shot(frame);
        lemma_prefix_waits(frame, 1);
        feeding_composes(Seq::empty(), start, frame.skip(1));
        assert(start + frame.skip(1) == frame);
        assert(reported_on(Seq::empty(), start) + reported_on(start, frame.skip(1))
            == reported_on(start, frame.skip(1)));
        assert(reported_on(start, frame.skip(1)) == seq![frame]);
        let all = reported_on(Seq::empty(), noise + frame);
        assert(all == reported_on(Seq::empty(), noise).push(pair) + seq![frame]);
        assert forall|i: int| 0 <= i < noise.len() implies scan(#[trigger] all[i])
            == Scan::Rejected(ParseError::LengthOutOfRange) by {
            if i < noise.len() - 1 {
                assert(all[i] == reported_on(Seq::empty(), noise)[i]);
            } else {
                assert(all[i] == pair);
            }
        }
    }
}

proof fn lemma_noise_keeps_last(noise: Seq<u8>)
    requires
        noise.len() > 0,
        forall|i: int|
            0 <= i < noise.len() ==> !super::frame::length_in_range(
                #[trigger] noise[i] as int,
            ),
    ensures
        window_after(Seq::empty(), noise) == seq![noise.last()],
        reported_on(Seq::empty(), noise).len() == noise.len() - 1,
        forall|i: int|
            0 <= i < noise.len() - 1 ==> scan(#[trigger] reported_on(Seq::empty(), noise)[i])
                == Scan::Rejected(ParseError::LengthOutOfRange),
    decreases noise.len(),
{
    let head = noise.drop_last();
    if head.len() == 0 {
        assert(window_after(Seq::empty(), head) == Seq::<u8>::empty());
        assert(reported_on(Seq::empty(), head) == Seq::<Seq<u8>>::empty());
        let one = Seq::<u8>::empty().push(noise.last());
        assert(one == seq![noise.last()]);
        assert(one.skip(0) == one);
    } else {
        lemma_noise_keeps_last(head);
        let pair = seq![head.last()].push(noise.last());
        assert(pair[1] == noise[noise.len() - 1]);
        assert(pair.skip(1) == seq![noise.last()]);
    }
}

/// A window waits while it holds less than two bytes or less than its length
/// byte counts. A length byte outside 2 to 62, or a whole candidate that is no
/// frame, costs exactly the front byte; a frame leaves whole.
pub proof fn decision_by_bytes(window: Seq<u8>)
    ensures
        window.len() < 2 ==> scan(window) is Waiting,
        window.len() >= 2 && !(2 <= window[1] <= 62) ==> scan(window) == Scan::Rejected(
            ParseError::LengthOutOfRange,
        ),
        window.len() >= 2 && 2 <= window[1] <= 62 && window.len() < 2 + window[1]
            ==> scan(window) is Waiting,
        window.len() >= 2 && 2 <= window[1] <= 62 && window.len() >= 2 + window[1] ==> {
            let candidate = window.take(2 + window[1]);
            &&& super::frame::verdict(candidate) is Ok ==> scan(window) == Scan::Accepted(
                2 + window[1],
            )
            &&& super::frame::verdict(candidate) matches Err(e) ==> scan(window) == Scan::Rejected(
                e,
            )
        },
        scan(window) is Waiting ==> dropped(scan(window)) == 0,
        scan(window) is Rejected ==> dropped(scan(window)) == 1,
        scan(window) matches Scan::Accepted(total) ==> dropped(scan(window)) == total,
{
}

} // verus!
