//! Messages over the data channels: a message longer than
//! `MAX_MESSAGE_SIZE` bytes travels as up to 255 segments, each led by the
//! number of segments that still follow it, and is put back together in
//! order on the other side.

use crate::error::NethernetError;
use crate::text::{decimal, decimal_string};
use vstd::prelude::*;
use vstd::slice::*;
use vstd::string::*;

verus! {

/// The largest number of bytes in one segment.
pub const MAX_MESSAGE_SIZE: usize = 10000;

/// One segment of a message.
#[derive(Debug, Clone)]
pub struct MessageSegment {
    /// How many segments follow this one.
    pub remaining_segments: u8,
    /// The bytes of the message this segment carries.
    pub data: Vec<u8>,
}

/// The text of the error for a segment of `n` bytes, too short to decode.
pub open spec fn too_short_text(n: nat) -> Seq<char> {
    "Message too short, expected at least 2 bytes, got "@ + decimal(n)
}

/// The text of the error for a segment that does not continue the message.
pub open spec fn sequence_text(expected: u8, got: u8) -> Seq<char> {
    "Invalid segment sequence: expected "@ + decimal(expected as nat) + ", got "@ + decimal(
        got as nat,
    )
}

/// What decoding the bytes of a segment gives: at least two bytes, the
/// first of which is the count of the segments that follow.
pub open spec fn decode_segment_spec(b: Seq<u8>) -> Option<(u8, Seq<u8>)> {
    if b.len() < 2 {
        None
    } else {
        Some((b[0], b.skip(1)))
    }
}

impl MessageSegment {
    /// A segment followed by `remaining_segments` more.
    pub fn new(remaining_segments: u8, data: Vec<u8>) -> (r: Self)
        ensures
            r.remaining_segments == remaining_segments,
            r.data@ == data@,
    {
        MessageSegment { remaining_segments, data }
    }

    /// The bytes of the segment: the count of those that follow, then the data.
    pub fn encode(&self) -> (r: Vec<u8>)
        ensures
            r@ == seq![self.remaining_segments] + self.data@,
    {
        let mut buf: Vec<u8> = Vec::with_capacity(1 + if self.data.len() < usize::MAX {
            self.data.len()
        } else {
            0
        });
        buf.push(self.remaining_segments);
        crate::codec::write_bytes(&mut buf, self.data.as_slice());
        assert(buf@ =~= seq![self.remaining_segments] + self.data@);
        buf
    }

    /// Decodes the bytes of a segment; fewer than two bytes are refused.
    pub fn decode(data: Vec<u8>) -> (r: Result<Self, NethernetError>)
        ensures
            match decode_segment_spec(data@) {
                Some((n, d)) => r matches Ok(s) && s.remaining_segments == n && s.data@ == d,
                None => r matches Err(NethernetError::MessageParse(m)) && m@ == too_short_text(
                    data@.len(),
                ),
            },
    {
        if data.len() < 2 {
            let mut m = String::from_str("Message too short, expected at least 2 bytes, got ");
            let n = decimal_string(data.len() as u64);
            m.append(n.as_str());
            return Err(NethernetError::MessageParse(m));
        }
        let remaining_segments = data[0];
        let rest = slice_to_vec(slice_subrange(data.as_slice(), 1, data.len()));
        assert(rest@ =~= data@.skip(1));
        Ok(MessageSegment { remaining_segments, data: rest })
    }
}

/// Decoding an encoded segment with data gives it back.
pub proof fn lemma_segment_roundtrip(remaining_segments: u8, data: Seq<u8>)
    requires
        data.len() > 0,
    ensures
        decode_segment_spec(seq![remaining_segments] + data) == Some((remaining_segments, data)),
{
    assert((seq![remaining_segments] + data).skip(1) =~= data);
}

/// What adding a segment to a message does.
pub enum AddOutcome {
    /// The segment was kept; more must follow.
    Pending,
    /// The last segment came; the whole message.
    Complete(Seq<u8>),
    /// The segment does not continue the message; the message was dropped.
    OutOfSequence { expected: u8, got: u8 },
}

/// The state of a message being put together: how many segments are still
/// expected (0 when none has come), and the bytes so far.
pub struct MessageState {
    pub expected: u8,
    pub data: Seq<u8>,
}

/// Adding a segment with count `remaining` and bytes `data` to a message in
/// state `s`. The first segment of a message of several sets the count of
/// segments expected; every segment must then count one less than the one
/// before; the segment counting 0 completes the message.
pub open spec fn add_segment_spec(s: MessageState, remaining: u8, data: Seq<u8>) -> (
    MessageState,
    AddOutcome,
) {
    let expected = if s.expected == 0 && remaining > 0 {
        (remaining + 1) as u8
    } else {
        s.expected
    };
    if expected > 0 && (expected - 1) != remaining {
        (
            MessageState { expected: 0, data: Seq::empty() },
            AddOutcome::OutOfSequence { expected: (expected - 1) as u8, got: remaining },
        )
    } else if remaining == 0 {
        (MessageState { expected: 0, data: Seq::empty() }, AddOutcome::Complete(s.data + data))
    } else {
        (
            MessageState {
                expected: if expected > 0 {
                    (expected - 1) as u8
                } else {
                    0
                },
                data: s.data + data,
            },
            AddOutcome::Pending,
        )
    }
}

/// A message that has had a segment of a message of several waits for the
/// segment counting one less than the count it expects: that segment is
/// added (completing the message when it counts 0), and a segment with any
/// other count is refused as out of sequence, naming both counts, and
/// drops what was gathered.
pub proof fn lemma_only_next_segment_accepted(s: MessageState, remaining: u8, data: Seq<u8>)
    requires
        s.expected > 0,
    ensures
        remaining != s.expected - 1 ==> add_segment_spec(s, remaining, data) == (
        MessageState { expected: 0, data: Seq::empty() },
        AddOutcome::OutOfSequence { expected: (s.expected - 1) as u8, got: remaining },
        ),
        remaining == s.expected - 1 && remaining > 0 ==> add_segment_spec(s, remaining, data) == (
        MessageState { expected: remaining, data: s.data + data },
        AddOutcome::Pending,
        ),
        remaining == s.expected - 1 && remaining == 0 ==> add_segment_spec(s, remaining, data) == (
        MessageState { expected: 0, data: Seq::empty() },
        AddOutcome::Complete(s.data + data),
        ),
{
}

/// A message that has had no segment of a message of several takes any
/// segment: one counting 0 is a whole message by itself, and one counting
/// `n > 0` starts a message that then waits for the segment counting
/// `n - 1` (a first segment counting 255 is outside what `add_segment`
/// takes).
pub proof fn lemma_first_segment_accepted(s: MessageState, remaining: u8, data: Seq<u8>)
    requires
        s.expected == 0,
    ensures
        remaining == 0 ==> add_segment_spec(s, remaining, data) == (
        MessageState { expected: 0, data: Seq::empty() },
        AddOutcome::Complete(s.data + data),
        ),
        0 < remaining < 255 ==> add_segment_spec(s, remaining, data) == (
        MessageState { expected: remaining, data: s.data + data },
        AddOutcome::Pending,
        ),
{
}

/// The count of segments a message of `n` bytes is split into.
pub open spec fn segment_count(n: nat) -> nat {
    if n <= MAX_MESSAGE_SIZE {
        1
    } else if n % (MAX_MESSAGE_SIZE as nat) == 0 {
        n / (MAX_MESSAGE_SIZE as nat)
    } else {
        n / (MAX_MESSAGE_SIZE as nat) + 1
    }
}

/// The segments of `d`: segment `i` holds the bytes from `i * MAX_MESSAGE_SIZE`
/// up to the next multiple or the end, and counts the segments after it.
pub open spec fn split_spec(d: Seq<u8>) -> Seq<(u8, Seq<u8>)> {
    let c = segment_count(d.len());
    Seq::new(
        c,
        |i: int|
            (
                (c - 1 - i) as u8,
                d.subrange(
                    i * MAX_MESSAGE_SIZE,
                    if (i + 1) * MAX_MESSAGE_SIZE < d.len() {
                        (i + 1) * MAX_MESSAGE_SIZE
                    } else {
                        d.len() as int
                    },
                ),
            ),
    )
}

/// Adding segments one after the other: the final state and each outcome.
pub open spec fn feed(s: MessageState, segs: Seq<(u8, Seq<u8>)>) -> (MessageState, Seq<AddOutcome>)
    decreases segs.len(),
{
    if segs.len() == 0 {
        (s, Seq::empty())
    } else {
        let (s1, o) = add_segment_spec(s, segs[0].0, segs[0].1);
        let (s2, os) = feed(s1, segs.drop_first());
        (s2, seq![o] + os)
    }
}

/// A message being put together from its segments.
#[derive(Debug, Clone)]
pub struct Message {
    expected_segments: u8,
    data: Vec<u8>,
}

impl View for Message {
    type V = MessageState;

    closed spec fn view(&self) -> MessageState {
        MessageState { expected: self.expected_segments, data: self.data@ }
    }
}

impl Message {
    /// An empty message expecting any segment.
    pub fn new() -> (r: Self)
        ensures
            r@ == (MessageState { expected: 0, data: Seq::empty() }),
    {
        Message { expected_segments: 0, data: Vec::new() }
    }

    /// How many segments are still expected: 0 when no segment of a
    /// message of several has come.
    pub fn expected_segments(&self) -> (r: u8)
        ensures
            r == self@.expected,
    {
        self.expected_segments
    }

    /// The number of bytes the message buffer holds room for.
    pub fn capacity(&self) -> (r: usize)
        ensures
            r >= self@.data.len(),
    {
        vec_capacity(&self.data)
    }

    /// Adds the next segment. Gives the whole message when the segment
    /// counting 0 comes, nothing while more must follow, and an error (after
    /// dropping what was gathered) for a segment out of sequence.
    pub fn add_segment(&mut self, segment: MessageSegment) -> (r: Result<
        Option<Vec<u8>>,
        NethernetError,
    >)
        requires
            old(self)@.expected == 0 ==> segment.remaining_segments < 255,
        ensures
            ({
                let (s, o) = add_segment_spec(
                    old(self)@,
                    segment.remaining_segments,
                    segment.data@,
                );
                &&& final(self)@ == s
                &&& match o {
                    AddOutcome::Pending => r == Ok::<Option<Vec<u8>>, NethernetError>(None),
                    AddOutcome::Complete(m) => r matches Ok(Some(v)) && v@ == m,
                    AddOutcome::OutOfSequence { expected, got } => r matches Err(
                        NethernetError::MessageParse(t),
                    ) && t@ == sequence_text(expected, got),
                }
            }),
    {
        if self.expected_segments == 0 && segment.remaining_segments > 0 {
            self.expected_segments = segment.remaining_segments + 1;
            let estimated = (self.expected_segments as usize).checked_mul(segment.data.len());
            if let Some(n) = estimated {
                self.data.reserve(n);
            }
        }
        if self.expected_segments > 0 {
            let expected_remaining = self.expected_segments - 1;
            if expected_remaining != segment.remaining_segments {
                self.data.clear();
                self.expected_segments = 0;
                let mut t = String::from_str("Invalid segment sequence: expected ");
                let e = decimal_string(expected_remaining as u64);
                t.append(e.as_str());
                t.append(", got ");
                let g = decimal_string(segment.remaining_segments as u64);
                t.append(g.as_str());
                return Err(NethernetError::MessageParse(t));
            }
            self.expected_segments = self.expected_segments - 1;
        }
        let mut incoming = segment.data;
        self.data.append(&mut incoming);
        if segment.remaining_segments == 0 {
            let mut whole: Vec<u8> = Vec::new();
            std::mem::swap(&mut whole, &mut self.data);
            self.expected_segments = 0;
            Ok(Some(whole))
        } else {
            Ok(None)
        }
    }

    /// Splits a message into segments of at most `MAX_MESSAGE_SIZE` bytes;
    /// a message that would need more than 255 segments is refused.
    pub fn split_into_segments(data: Vec<u8>) -> (r: Result<Vec<MessageSegment>, NethernetError>)
        ensures
            data@.len() > 255 * MAX_MESSAGE_SIZE ==> r == Err::<
                Vec<MessageSegment>,
                NethernetError,
            >(NethernetError::MessageTooLarge(data@.len() as usize)),
            data@.len() <= 255 * MAX_MESSAGE_SIZE ==> (r matches Ok(segs) && segs@.len()
                == split_spec(data@).len() && forall|i: int|
                0 <= i < segs@.len() ==> #[trigger] segs@[i].remaining_segments
                    == split_spec(data@)[i].0 && segs@[i].data@ == split_spec(data@)[i].1),
    {
        let len = data.len();
        if len <= MAX_MESSAGE_SIZE {
            let ghost d = data@;
            let mut segments: Vec<MessageSegment> = Vec::new();
            segments.push(MessageSegment::new(0, data));
            assert(d.subrange(0, d.len() as int) =~= d);
            return Ok(segments);
        }
        let count = len / MAX_MESSAGE_SIZE + if len % MAX_MESSAGE_SIZE != 0 {
            1
        } else {
            0
        };
        if count > 255 {
            return Err(NethernetError::MessageTooLarge(len));
        }
        assert(count == segment_count(len as nat));
        let mut segments: Vec<MessageSegment> = Vec::with_capacity(count);
        let mut start: usize = 0;
        let mut left: u8 = count as u8;
        while len - start > MAX_MESSAGE_SIZE
            invariant
                len == data@.len(),
                len > MAX_MESSAGE_SIZE,
                count == segment_count(len as nat),
                2 <= count <= 255,
                start == segments@.len() * MAX_MESSAGE_SIZE,
                start < len,
                left == count - segments@.len(),
                forall|i: int|
                    0 <= i < segments@.len() ==> #[trigger] segments@[i].remaining_segments
                        == split_spec(data@)[i].0 && segments@[i].data@ == split_spec(data@)[i].1,
            decreases len - start,
        {
            proof {
                lemma_more_segments(len as nat, segments@.len());
            }
            left = left - 1;
            let chunk = slice_to_vec(slice_subrange(data.as_slice(), start, start + MAX_MESSAGE_SIZE));
            let ghost i = segments@.len() as int;
            segments.push(MessageSegment::new(left, chunk));
            start = start + MAX_MESSAGE_SIZE;
            assert(segments@[i].data@ == split_spec(data@)[i].1);
        }
        proof {
            lemma_last_segment(len as nat, segments@.len());
        }
        left = left - 1;
        let chunk = slice_to_vec(slice_subrange(data.as_slice(), start, len));
        let ghost i = segments@.len() as int;
        segments.push(MessageSegment::new(left, chunk));
        assert(segments@[i].data@ == split_spec(data@)[i].1);
        Ok(segments)
    }
}

/// While more than one segment's worth of bytes remains after `k`
/// segments, segment `k` is not the last.
proof fn lemma_more_segments(n: nat, k: nat)
    requires
        n > MAX_MESSAGE_SIZE,
        n - k * MAX_MESSAGE_SIZE > MAX_MESSAGE_SIZE,
    ensures
        k + 1 < segment_count(n),
{
}

/// When at most one segment's worth of bytes, but some, remains after `k`
/// segments, segment `k` is the last.
proof fn lemma_last_segment(n: nat, k: nat)
    requires
        n > MAX_MESSAGE_SIZE,
        0 < n - k * MAX_MESSAGE_SIZE <= MAX_MESSAGE_SIZE,
    ensures
        k + 1 == segment_count(n),
{
}

/// Adding one more segment after a run of segments: feeding a run is
/// feeding the run one call of `add_segment` at a time.
pub proof fn lemma_feed_push(s: MessageState, segs: Seq<(u8, Seq<u8>)>, x: (u8, Seq<u8>))
    ensures
        ({
            let (s1, os) = feed(s, segs);
            let (s2, o) = add_segment_spec(s1, x.0, x.1);
            feed(s, segs.push(x)) == (s2, os.push(o))
        }),
    decreases segs.len(),
{
    if segs.len() == 0 {
        assert(segs.push(x).drop_first() =~= Seq::<(u8, Seq<u8>)>::empty());
        assert(segs.push(x)[0] == x);
        let (s2, o) = add_segment_spec(s, x.0, x.1);
        assert(feed(s2, Seq::<(u8, Seq<u8>)>::empty()) == (s2, Seq::<AddOutcome>::empty()));
        assert(feed(s, segs) == (s, Seq::<AddOutcome>::empty()));
        assert(seq![o] + Seq::<AddOutcome>::empty() =~= Seq::<AddOutcome>::empty().push(o));
        assert(feed(s, segs.push(x)) == (s2, seq![o] + Seq::<AddOutcome>::empty()));
    } else {
        let (s1, o1) = add_segment_spec(s, segs[0].0, segs[0].1);
        assert(segs.push(x).drop_first() =~= segs.drop_first().push(x));
        assert(segs.push(x)[0] == segs[0]);
        lemma_feed_push(s1, segs.drop_first(), x);
        let (s3, os3) = feed(s1, segs.drop_first());
        let (s4, o4) = add_segment_spec(s3, x.0, x.1);
        assert(seq![o1] + os3.push(o4) =~= (seq![o1] + os3).push(o4));
        assert(feed(s, segs) == (s3, seq![o1] + os3));
        assert(feed(s, segs.push(x)) == (s4, seq![o1] + os3.push(o4)));
    }
}

/// Each outcome but the last is `Pending`, and the last completes `d`.
pub open spec fn completes_with(os: Seq<AddOutcome>, d: Seq<u8>) -> bool {
    &&& os.len() > 0
    &&& forall|k: int| 0 <= k < os.len() - 1 ==> #[trigger] os[k] == AddOutcome::Pending
    &&& os.last() == AddOutcome::Complete(d)
}

/// The state after the first `i` segments of a message of `c` segments.
pub open spec fn state_after(d: Seq<u8>, c: nat, i: nat) -> MessageState {
    MessageState { expected: (c - i) as u8, data: d.take(i * MAX_MESSAGE_SIZE) }
}

/// From the state after `i` segments, the remaining segments complete the
/// message and leave an empty state.
proof fn lemma_feed_rest(d: Seq<u8>, i: nat)
    requires
        d.len() <= 255 * MAX_MESSAGE_SIZE,
        1 <= i < segment_count(d.len()),
    ensures
        ({
            let (s, os) = feed(
                state_after(d, segment_count(d.len()), i),
                split_spec(d).skip(i as int),
            );
            &&& s == (MessageState { expected: 0, data: Seq::empty() })
            &&& os.len() == segment_count(d.len()) - i
            &&& completes_with(os, d)
        }),
    decreases segment_count(d.len()) - i,
{
    let c = segment_count(d.len());
    let segs = split_spec(d).skip(i as int);
    let st = state_after(d, c, i);
    let seg = segs[0];
    assert(seg == split_spec(d)[i as int]);
    let (s1, o) = add_segment_spec(st, seg.0, seg.1);
    assert(segs.drop_first() =~= split_spec(d).skip((i + 1) as int));
    if i + 1 == c {
        assert(i * MAX_MESSAGE_SIZE + MAX_MESSAGE_SIZE >= d.len());
        assert(st.data + seg.1 =~= d);
        assert(o == AddOutcome::Complete(d));
        assert(segs.drop_first().len() == 0);
        let (s2, os) = feed(s1, segs.drop_first());
        assert(os =~= Seq::<AddOutcome>::empty());
        assert(seq![o] + os =~= seq![o]);
    } else {
        assert((i + 1) * MAX_MESSAGE_SIZE < d.len());
        assert(st.data + seg.1 =~= d.take((i + 1) * MAX_MESSAGE_SIZE));
        assert(s1 == state_after(d, c, i + 1));
        assert(o == AddOutcome::Pending);
        lemma_feed_rest(d, i + 1);
        let (s2, os) = feed(s1, segs.drop_first());
        let all = seq![o] + os;
        assert(all.last() == os.last());
        assert forall|k: int| 0 <= k < all.len() - 1 implies #[trigger] all[k]
            == AddOutcome::Pending by {
            if k > 0 {
                assert(all[k] == os[k - 1]);
            }
        }
    }
}

/// Adding the segments of a message, in order, to an empty message gives
/// nothing until the last segment, which gives the whole message, and
/// leaves the message empty again.
pub proof fn lemma_reassembly(d: Seq<u8>)
    requires
        d.len() <= 255 * MAX_MESSAGE_SIZE,
    ensures
        ({
            let (s, os) = feed(MessageState { expected: 0, data: Seq::empty() }, split_spec(d));
            &&& s == (MessageState { expected: 0, data: Seq::empty() })
            &&& os.len() == split_spec(d).len()
            &&& completes_with(os, d)
        }),
{
    let c = segment_count(d.len());
    let segs = split_spec(d);
    let fresh = MessageState { expected: 0, data: Seq::empty() };
    let seg = segs[0];
    let (s1, o) = add_segment_spec(fresh, seg.0, seg.1);
    if c == 1 {
        assert(seg.1 =~= d);
        assert(fresh.data + seg.1 =~= d);
        assert(segs.drop_first().len() == 0);
        let (s2, os) = feed(s1, segs.drop_first());
        assert(os =~= Seq::<AddOutcome>::empty());
        assert(seq![o] + os =~= seq![o]);
    } else {
        assert(MAX_MESSAGE_SIZE < d.len());
        assert(fresh.data + seg.1 =~= d.take(MAX_MESSAGE_SIZE as int));
        assert(s1 == state_after(d, c, 1));
        assert(segs.drop_first() =~= split_spec(d).skip(1));
        lemma_feed_rest(d, 1);
        let (s2, os) = feed(s1, segs.drop_first());
        let all = seq![o] + os;
        assert(all.last() == os.last());
        assert forall|k: int| 0 <= k < all.len() - 1 implies #[trigger] all[k]
            == AddOutcome::Pending by {
            if k > 0 {
                assert(all[k] == os[k - 1]);
            }
        }
    }
}

/// Calls `Vec::capacity`. Claimed, as std documents it: the vector holds
/// room for at least its elements.
#[verifier::external_body]
fn vec_capacity(v: &Vec<u8>) -> (r: usize)
    ensures
        r >= v@.len(),
{
    v.capacity()
}

impl Default for Message {
    /// An empty message, as `new` makes it.
    fn default() -> (r: Self)
        ensures
            r@ == (MessageState { expected: 0, data: Seq::empty() }),
    {
        Message::new()
    }
}

} // verus!
