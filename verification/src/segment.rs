//! The definition of a TCP segment.

use crate::base::{control_len, Control};
use crate::options::Options;
use crate::payload::{Payload, SendPayload};
use crate::seqnum::{
    advance, distance, earlier, later, lemma_seq_num_eq, offset_from, SeqNum, UnscaledWindowSize,
    WindowSize, MAX_WINDOW_SIZE,
};
use vstd::prelude::*;

verus! {

/// The maximum length that the sequence number doesn't wrap around.
pub const MAX_PAYLOAD_AND_CONTROL_LEN: usize = 0x8000_0000;

const MAX_PAYLOAD_AND_CONTROL_LEN_U32: u32 = 0x8000_0000;

/// The contents of a TCP segment that takes up some sequence number space.
#[derive(Debug, PartialEq, Eq, Clone, Copy)]
pub struct Contents<P: Payload> {
    /// The control flag of the segment.
    pub control: Option<Control>,
    /// The data carried by the segment; it is guaranteed that
    /// `data.len() + control_len <= MAX_PAYLOAD_AND_CONTROL_LEN`.
    pub data: P,
}

impl<P: Payload> Contents<P> {
    /// The length in sequence number space: the data octets, and one more
    /// for a SYN or a FIN.
    pub open spec fn seq_len(&self) -> nat {
        self.data.bytes().len() + control_len(self.control)
    }

    /// The contents occupy no more than half of the sequence space.
    pub open spec fn wf(&self) -> bool {
        self.seq_len() <= MAX_PAYLOAD_AND_CONTROL_LEN
    }

    /// Returns the length of the segment in sequence number space.
    ///
    /// Per RFC 793 (https://tools.ietf.org/html/rfc793#page-25):
    ///   SEG.LEN = the number of octets occupied by the data in the segment
    ///   (counting SYN and FIN)
    pub fn len(&self) -> (n: u32)
        requires
            self.wf(),
        ensures
            n == self.seq_len(),
            n == self.data.bytes().len() + control_len(self.control),
    {
        let has_control_len: u32 = match self.control {
            Some(control) => if control.has_sequence_no() {
                1
            } else {
                0
            },
            None => 0,
        };
        let data_len: usize = self.data.len();
        data_len as u32 + has_control_len
    }

    /// The control flag of the segment.
    pub fn control(&self) -> (control: Option<Control>)
        ensures
            control == self.control,
    {
        self.control
    }

    /// The data carried by the segment.
    pub fn data(&self) -> (data: &P)
        ensures
            *data == self.data,
    {
        &self.data
    }
}

/// A TCP segment.
#[derive(Debug, PartialEq, Eq, Clone, Copy)]
pub struct Segment<P: Payload> {
    /// The sequence number of the segment.
    pub seq: SeqNum,
    /// The acknowledge number of the segment. [`None`] if not present.
    pub ack: Option<SeqNum>,
    /// The advertised window size.
    pub wnd: UnscaledWindowSize,
    /// The carried data and its control flag.
    pub contents: Contents<P>,
    /// Options carried by this segment.
    pub options: Options,
}

/// The control flag that is left of `control` on a segment built from
/// `data_len` octets: a FIN is the last unit of its segment, so it goes
/// where anything has to be cut off.
pub open spec fn kept_control(control: Option<Control>, data_len: nat) -> Option<Control> {
    if data_len + control_len(control) > MAX_PAYLOAD_AND_CONTROL_LEN && control == Some(
        Control::FIN,
    ) {
        None
    } else {
        control
    }
}

/// How many of `data_len` octets stay on a segment built with `control`: all
/// of them where they fit beside the flag, else as many as fit beside the
/// flag that is left.
pub open spec fn kept_data_len(control: Option<Control>, data_len: nat) -> nat {
    if data_len + control_len(control) > MAX_PAYLOAD_AND_CONTROL_LEN {
        (MAX_PAYLOAD_AND_CONTROL_LEN - control_len(kept_control(control, data_len))) as nat
    } else {
        data_len
    }
}

/// How many units of sequence space are cut off a segment built from
/// `data_len` octets and `control`: what goes over the limit.
pub open spec fn discarded_len(control: Option<Control>, data_len: nat) -> nat {
    if data_len + control_len(control) > MAX_PAYLOAD_AND_CONTROL_LEN {
        (data_len + control_len(control) - MAX_PAYLOAD_AND_CONTROL_LEN) as nat
    } else {
        0
    }
}

impl<P: Payload> Segment<P> {
    /// The segment's contents are well-formed.
    pub open spec fn wf(&self) -> bool {
        self.contents.wf()
    }

    /// Creates a new segment with data and options.
    ///
    /// Returns the segment along with how many bytes were removed to make sure
    /// sequence numbers don't wrap around, i.e., `seq.before(seq + seg.len())`.
    ///
    /// The segment takes up at most `MAX_PAYLOAD_AND_CONTROL_LEN` units of
    /// sequence space. Data and flag that together stay under that limit are
    /// kept as they are, and the segment takes up less than the limit; with
    /// more, the segment takes up exactly the limit. What is cut off is the
    /// end: a FIN first, then the last of the data.
    pub fn with_data_options(
        seq: SeqNum,
        ack: Option<SeqNum>,
        control: Option<Control>,
        wnd: UnscaledWindowSize,
        data: P,
        options: Options,
    ) -> (r: (Self, usize))
        requires
            data.bytes().len() <= usize::MAX,
        ensures
            r.0.seq == seq,
            r.0.ack == ack,
            r.0.wnd == wnd,
            r.0.options == options,
            r.0.contents.control == kept_control(control, data.bytes().len()),
            r.0.contents.data.bytes() == data.bytes().take(
                kept_data_len(control, data.bytes().len()) as int,
            ),
            r.1 == discarded_len(control, data.bytes().len()),
            r.1 == 0 ==> r.0.contents.data == data,
            r.0.wf(),
            r.0.contents.seq_len() + r.1 == data.bytes().len() + control_len(control),
            r.1 > 0 ==> r.0.contents.seq_len() == MAX_PAYLOAD_AND_CONTROL_LEN,
            data.bytes().len() + control_len(control) < MAX_PAYLOAD_AND_CONTROL_LEN
                ==> r.0.contents.seq_len() <= MAX_PAYLOAD_AND_CONTROL_LEN - 1,
    {
        let has_control_len: bool = match control {
            Some(control) => control.has_sequence_no(),
            None => false,
        };
        let budget: usize = if has_control_len {
            MAX_PAYLOAD_AND_CONTROL_LEN - 1
        } else {
            MAX_PAYLOAD_AND_CONTROL_LEN
        };
        let ghost bytes = data.bytes();
        let discarded_len: usize = data.len().saturating_sub(budget);

        let contents = if discarded_len > 0 {
            // If we have to truncate the segment, the FIN flag must be removed
            // because it is logically the last octet of the segment.
            let (control, control_len): (Option<Control>, u32) = match control {
                Some(Control::FIN) => (None, 0),
                _ => (
                    control,
                    if has_control_len {
                        1
                    } else {
                        0
                    },
                ),
            };
            // The slice is within the data because `discarded_len > 0`, thus
            // `data.len() > MAX_PAYLOAD_AND_CONTROL_LEN - control_len`.
            Contents { control, data: data.slice(0..MAX_PAYLOAD_AND_CONTROL_LEN_U32 - control_len) }
        } else {
            assert(bytes.take(bytes.len() as int) =~= bytes);
            Contents { control, data }
        };

        (Segment { seq, ack, wnd, contents, options }, discarded_len)
    }

    /// Creates a new segment with data.
    ///
    /// Returns the segment along with how many bytes were removed to make sure
    /// sequence numbers don't wrap around, i.e., `seq.before(seq + seg.len())`.
    pub fn with_data(
        seq: SeqNum,
        ack: Option<SeqNum>,
        control: Option<Control>,
        wnd: UnscaledWindowSize,
        data: P,
    ) -> (r: (Self, usize))
        requires
            data.bytes().len() <= usize::MAX,
        ensures
            r.0.seq == seq,
            r.0.ack == ack,
            r.0.wnd == wnd,
            r.0.options == (Options { mss: None, window_scale: None }),
            r.0.contents.control == kept_control(control, data.bytes().len()),
            r.0.contents.data.bytes() == data.bytes().take(
                kept_data_len(control, data.bytes().len()) as int,
            ),
            r.1 == discarded_len(control, data.bytes().len()),
            r.1 == 0 ==> r.0.contents.data == data,
            r.0.wf(),
            r.0.contents.seq_len() + r.1 == data.bytes().len() + control_len(control),
    {
        Self::with_data_options(seq, ack, control, wnd, data, Options::default())
    }
}

/// Whether a segment's first sequence number lies in the receive window:
/// `RCV.NXT =< SEG.SEQ < RCV.NXT+RCV.WND`.
pub open spec fn starts_in_window(seq: u32, rnxt: u32, rwnd: u32) -> bool {
    distance(rnxt, seq) <= 0 && distance(seq, advance(rnxt, rwnd)) < 0
}

/// Whether the sequence number after a segment's last lies between the edges
/// of the receive window, both included:
/// `RCV.NXT =< SEG.SEQ+SEG.LEN =< RCV.NXT+RCV.WND`.
pub open spec fn ends_in_window(seq: u32, len: u32, rnxt: u32, rwnd: u32) -> bool {
    distance(advance(seq, len), rnxt) >= 0 && distance(advance(seq, len), advance(rnxt, rwnd))
        <= 0
}

/// The acceptability test for an incoming segment of `len` units of sequence
/// space that starts at `seq`, against a receive window of `rwnd` that starts
/// at `rnxt`.
///
/// RFC 793 (https://tools.ietf.org/html/rfc793#page-69):
///   There are four cases for the acceptability test for an incoming
///   segment:
///       Segment Receive  Test
///       Length  Window
///       ------- -------  -------------------------------------------
///          0       0     SEG.SEQ = RCV.NXT
///          0      >0     RCV.NXT =< SEG.SEQ < RCV.NXT+RCV.WND
///         >0       0     not acceptable
///         >0      >0     RCV.NXT =< SEG.SEQ < RCV.NXT+RCV.WND
///                     or RCV.NXT =< SEG.SEQ+SEG.LEN-1 < RCV.NXT+RCV.WND
///
/// The last line is tested as `RCV.NXT =< SEG.SEQ+SEG.LEN =< RCV.NXT+RCV.WND`:
/// a segment that ends where the window starts is accepted with nothing left
/// of it, which a simultaneous open needs for the peer's SYN-ACK.
pub open spec fn acceptable(seq: u32, len: u32, rnxt: u32, rwnd: u32) -> bool {
    if len == 0 {
        if rwnd == 0 {
            seq == rnxt
        } else {
            starts_in_window(seq, rnxt, rwnd)
        }
    } else if rwnd == 0 {
        false
    } else {
        starts_in_window(seq, rnxt, rwnd) || ends_in_window(seq, len, rnxt, rwnd)
    }
}

/// Where the accepted part of a segment starts, as an offset into the
/// segment: the steps from `seq` to the later of `seq` and `rnxt`.
pub open spec fn trim_start(seq: u32, rnxt: u32) -> int {
    offset_from(later(seq, rnxt), seq)
}

/// How many units of sequence space the accepted part of a segment takes:
/// from the later of the two starts to the earlier of the two ends.
pub open spec fn trim_len(seq: u32, len: u32, rnxt: u32, rwnd: u32) -> int {
    distance(earlier(advance(seq, len), advance(rnxt, rwnd)), later(seq, rnxt))
}

/// The control flag on the part `[start, start + new_len)` of a segment of
/// `len` units with `control`. A SYN is the segment's first unit and a FIN
/// its last: each stays where its unit is in the part. RST takes no unit and
/// always stays.
pub open spec fn trimmed_control(control: Option<Control>, len: int, start: int, new_len: int)
    -> Option<Control> {
    match control {
        Some(Control::SYN) => if start == 0 {
            Some(Control::SYN)
        } else {
            None
        },
        Some(Control::FIN) => if len == start + new_len && new_len > 0 {
            Some(Control::FIN)
        } else {
            None
        },
        Some(Control::RST) => Some(Control::RST),
        None => None,
    }
}

/// The range of the data that lies in the part `[start, start + new_len)` of
/// a segment of `len` units with `control`, by its first index and the index
/// after its last.
pub open spec fn trimmed_range(control: Option<Control>, len: int, start: int, new_len: int) -> (
    int,
    int,
) {
    match control {
        Some(Control::SYN) => if start == 0 {
            (start, start + new_len - 1)
        } else {
            (start - 1, start + new_len - 1)
        },
        Some(Control::FIN) => if len == start + new_len {
            if new_len > 0 {
                (start, start + new_len - 1)
            } else {
                (start - 1, start - 1)
            }
        } else {
            (start, start + new_len)
        },
        Some(Control::RST) | None => (start, start + new_len),
    }
}

impl<P: Payload> Segment<P> {
    /// Returns the part of the incoming segment within the receive window.
    ///
    /// A segment that fails the acceptability test has no such part. Of one
    /// that passes it, the part from the later of the two starts to the
    /// earlier of the two ends is returned: its sequence number is where the
    /// part starts, its flag and its data are those of the segment that lie
    /// in the part, so that it takes up exactly the units of the part, and
    /// the acknowledgement number, the window and the options are the
    /// segment's.
    pub fn overlap(self, rnxt: SeqNum, rwnd: WindowSize) -> (r: Option<Segment<P>>)
        requires
            self.wf(),
        ensures
            r is Some <==> acceptable(
                self.seq@,
                self.contents.seq_len() as u32,
                rnxt@,
                rwnd@,
            ),
            r matches Some(seg) ==> {
                let len = self.contents.seq_len() as int;
                let start = trim_start(self.seq@, rnxt@);
                let new_len = trim_len(self.seq@, len as u32, rnxt@, rwnd@);
                let (from, to) = trimmed_range(self.contents.control, len, start, new_len);
                &&& seg.seq == self.seq.spec_latest(rnxt)
                &&& seg.ack == self.ack
                &&& seg.wnd == self.wnd
                &&& seg.options == self.options
                &&& seg.contents.control == trimmed_control(
                    self.contents.control,
                    len,
                    start,
                    new_len,
                )
                &&& 0 <= from <= to <= self.contents.data.bytes().len()
                &&& seg.contents.data.bytes() == self.contents.data.bytes().subrange(from, to)
                &&& seg.wf()
                &&& seg.contents.seq_len() == new_len
                &&& 0 <= start <= start + new_len <= len
                &&& seq_units(seg.contents.control, seg.contents.data.bytes()) == seq_units(
                    self.contents.control,
                    self.contents.data.bytes(),
                ).subrange(start, start + new_len)
            },
    {
        let Segment { seq, ack, wnd, contents, options } = self;
        let len: u32 = contents.len();
        let Contents { control, data } = contents;
        let (new_seq, start, new_len): (SeqNum, u32, u32) = match accepted_part(
            seq,
            len,
            rnxt,
            rwnd,
        ) {
            Some(part) => part,
            None => {
                return None;
            },
        };
        let ghost bytes = data.bytes();
        proof {
            lemma_trimmed_units(control, bytes, start as int, new_len as int);
        }
        let (new_control, new_data): (Option<Control>, P) = match control {
            Some(Control::SYN) => {
                if start == 0 {
                    (Some(Control::SYN), data.slice(start..start + new_len - 1))
                } else {
                    (None, data.slice(start - 1..start + new_len - 1))
                }
            },
            Some(Control::FIN) => {
                if len == start + new_len {
                    if new_len > 0 {
                        (Some(Control::FIN), data.slice(start..start + new_len - 1))
                    } else {
                        (None, data.slice(start - 1..start - 1))
                    }
                } else {
                    (None, data.slice(start..start + new_len))
                }
            },
            Some(Control::RST) | None => (control, data.slice(start..start + new_len)),
        };
        Some(
            Segment {
                seq: new_seq,
                ack,
                wnd,
                contents: Contents { control: new_control, data: new_data },
                options,
            },
        )
    }
}

/// Tests whether a segment of `len` units of sequence space that starts at
/// `seq` is acceptable to a receive window of `rwnd` that starts at `rnxt`.
/// For one that is, returns the part of it that the window accepts: the
/// sequence number at which the part starts, how far into the segment that
/// is, and how many units the part takes.
fn accepted_part(seq: SeqNum, len: u32, rnxt: SeqNum, rwnd: WindowSize) -> (r: Option<
    (SeqNum, u32, u32),
>)
    requires
        len <= MAX_PAYLOAD_AND_CONTROL_LEN,
    ensures
        r is Some <==> acceptable(seq@, len, rnxt@, rwnd@),
        r matches Some((new_seq, start, new_len)) ==> {
            &&& new_seq == seq.spec_latest(rnxt)
            &&& start == trim_start(seq@, rnxt@)
            &&& new_len == trim_len(seq@, len, rnxt@, rwnd@)
            &&& 0 <= start <= start + new_len <= len
            &&& start == 0 && len > 0 ==> new_len > 0
        },
{
    let window: u32 = rwnd.get();
    let window_end = rnxt + rwnd;
    let segment_end = seq + len;
    let starts_in: bool = !rnxt.after(seq) && seq.before(window_end);
    proof {
        lemma_seq_num_eq(seq, rnxt);
    }
    let overlap: bool = if len == 0 {
        if window == 0 {
            seq == rnxt
        } else {
            starts_in
        }
    } else if window == 0 {
        false
    } else {
        // Note: here we use RCV.NXT <= SEG.SEQ+SEG.LEN instead of
        // RCV.NXT =< SEG.SEQ+SEG.LEN-1, the condition of RFC 793, because
        // of the following text immediately after its table:
        //   One could tailor actual segments to fit this assumption by
        //   trimming off any portions that lie outside the window
        //   (including SYN and FIN), and only processing further if
        //   the segment then begins at RCV.NXT.
        // This is essential for TCP simultaneous open to work,
        // otherwise, the state machine would reject the SYN-ACK
        // sent by the peer.
        starts_in || (!segment_end.before(rnxt) && !segment_end.after(window_end))
    };
    if !overlap {
        return None;
    }
    let new_seq = seq.latest(rnxt);
    let new_end = segment_end.earliest(window_end);
    // The accepted part starts at or after the segment's start, and ends
    // at or after its own start: neither offset is negative.
    let new_len: u32 = new_end.offset_from(new_seq);
    let start: u32 = new_seq.offset_from(seq);
    Some((new_seq, start, new_len))
}

impl Segment<()> {
    /// Creates a segment with no data.
    pub fn new(
        seq: SeqNum,
        ack: Option<SeqNum>,
        control: Option<Control>,
        wnd: UnscaledWindowSize,
    ) -> (seg: Self)
        ensures
            seg.seq == seq,
            seg.ack == ack,
            seg.wnd == wnd,
            seg.contents.control == control,
            seg.options == (Options { mss: None, window_scale: None }),
            seg.wf(),
    {
        Self::with_options(seq, ack, control, wnd, Options::default())
    }

    /// Creates a new segment with options but no data.
    pub fn with_options(
        seq: SeqNum,
        ack: Option<SeqNum>,
        control: Option<Control>,
        wnd: UnscaledWindowSize,
        options: Options,
    ) -> (seg: Self)
        ensures
            seg.seq == seq,
            seg.ack == ack,
            seg.wnd == wnd,
            seg.contents.control == control,
            seg.options == options,
            seg.wf(),
    {
        let (seg, truncated) = Segment::with_data_options(seq, ack, control, wnd, (), options);
        assert(truncated == 0);
        seg
    }

    /// Creates an ACK segment.
    pub fn ack(seq: SeqNum, ack: SeqNum, wnd: UnscaledWindowSize) -> (seg: Self)
        ensures
            seg.seq == seq,
            seg.ack == Some(ack),
            seg.wnd == wnd,
            seg.contents.control is None,
            seg.options == (Options { mss: None, window_scale: None }),
            seg.wf(),
    {
        Segment::new(seq, Some(ack), None, wnd)
    }

    /// Creates a SYN segment.
    pub fn syn(seq: SeqNum, wnd: UnscaledWindowSize, options: Options) -> (seg: Self)
        ensures
            seg.seq == seq,
            seg.ack is None,
            seg.wnd == wnd,
            seg.contents.control == Some(Control::SYN),
            seg.options == options,
            seg.wf(),
    {
        Segment::with_options(seq, None, Some(Control::SYN), wnd, options)
    }

    /// Creates a SYN-ACK segment.
    pub fn syn_ack(seq: SeqNum, ack: SeqNum, wnd: UnscaledWindowSize, options: Options) -> (seg:
        Self)
        ensures
            seg.seq == seq,
            seg.ack == Some(ack),
            seg.wnd == wnd,
            seg.contents.control == Some(Control::SYN),
            seg.options == options,
            seg.wf(),
    {
        Segment::with_options(seq, Some(ack), Some(Control::SYN), wnd, options)
    }

    /// Creates a RST segment.
    pub fn rst(seq: SeqNum) -> (seg: Self)
        ensures
            seg.seq == seq,
            seg.ack is None,
            seg.wnd@ == 0,
            seg.contents.control == Some(Control::RST),
            seg.options == (Options { mss: None, window_scale: None }),
            seg.wf(),
    {
        Segment::new(seq, None, Some(Control::RST), UnscaledWindowSize::from(0))
    }

    /// Creates a RST-ACK segment.
    pub fn rst_ack(seq: SeqNum, ack: SeqNum) -> (seg: Self)
        ensures
            seg.seq == seq,
            seg.ack == Some(ack),
            seg.wnd@ == 0,
            seg.contents.control == Some(Control::RST),
            seg.options == (Options { mss: None, window_scale: None }),
            seg.wf(),
    {
        Segment::new(seq, Some(ack), Some(Control::RST), UnscaledWindowSize::from(0))
    }

    /// Creates a new FIN segment.
    pub fn fin(seq: SeqNum, ack: SeqNum, wnd: UnscaledWindowSize) -> (seg: Self)
        ensures
            seg.seq == seq,
            seg.ack == Some(ack),
            seg.wnd == wnd,
            seg.contents.control == Some(Control::FIN),
            seg.options == (Options { mss: None, window_scale: None }),
            seg.wf(),
    {
        Segment::new(seq, Some(ack), Some(Control::FIN), wnd)
    }
}

impl From<Segment<()>> for Segment<&'static [u8]> {
    /// The same segment, with an empty slice for its data.
    fn from(from: Segment<()>) -> (seg: Self)
        ensures
            seg.seq == from.seq,
            seg.ack == from.ack,
            seg.wnd == from.wnd,
            seg.contents.control == from.contents.control,
            seg.contents.data@.len() == 0,
            seg.options == from.options,
    {
        let Segment { seq, ack, wnd, contents: Contents { control, data: () }, options } = from;
        Segment { seq, ack, wnd, contents: Contents { control, data: &[] }, options }
    }
}

impl vstd::std_specs::convert::FromSpecImpl<Segment<()>> for Segment<&'static [u8]> {
    open spec fn obeys_from_spec() -> bool {
        true
    }

    open spec fn from_spec(from: Segment<()>) -> Self {
        let empty: &'static [u8] = &[];
        Segment {
            seq: from.seq,
            ack: from.ack,
            wnd: from.wnd,
            contents: Contents { control: from.contents.control, data: empty },
            options: from.options,
        }
    }
}

impl From<Segment<()>> for Segment<SendPayload<'static>> {
    /// The same segment, with an empty buffer for its data.
    fn from(from: Segment<()>) -> (seg: Self)
        ensures
            seg.seq == from.seq,
            seg.ack == from.ack,
            seg.wnd == from.wnd,
            seg.contents.control == from.contents.control,
            seg.contents.data.bytes().len() == 0,
            seg.options == from.options,
    {
        let Segment { seq, ack, wnd, contents: Contents { control, data: () }, options } = from;
        Segment {
            seq,
            ack,
            wnd,
            contents: Contents { control, data: SendPayload::Contiguous(&[]) },
            options,
        }
    }
}

impl vstd::std_specs::convert::FromSpecImpl<Segment<()>> for Segment<SendPayload<'static>> {
    open spec fn obeys_from_spec() -> bool {
        true
    }

    open spec fn from_spec(from: Segment<()>) -> Self {
        let empty: &'static [u8] = &[];
        Segment {
            seq: from.seq,
            ack: from.ack,
            wnd: from.wnd,
            contents: Contents {
                control: from.contents.control,
                data: SendPayload::Contiguous(empty),
            },
            options: from.options,
        }
    }
}

impl Segment<SendPayload<'static>> {
    /// Create a new segment with the given seq, ack, and data. If `split` is
    /// true, then the data is split in half.
    pub fn with_fake_data(seq: SeqNum, ack: SeqNum, data: &'static [u8], split: bool) -> (seg:
        Self)
        requires
            data@.len() <= MAX_PAYLOAD_AND_CONTROL_LEN,
        ensures
            seg.seq == seq,
            seg.ack == Some(ack),
            seg.wnd@ == u16::MAX,
            seg.contents.control is None,
            seg.options == (Options { mss: None, window_scale: None }),
            seg.contents.data.bytes() == data@,
            !split ==> seg.contents.data == SendPayload::Contiguous(data),
            split ==> (seg.contents.data matches SendPayload::Straddle(first, second)
                && first@ == data@.take(data@.len() as int / 2) && second@ == data@.skip(
                data@.len() as int / 2,
            )),
            seg.wf(),
    {
        let payload = if split {
            let (first, second) = data.split_at(data.len() / 2);
            assert(first@ + second@ =~= data@);
            SendPayload::Straddle(first, second)
        } else {
            SendPayload::Contiguous(data)
        };
        let (segment, discarded) = Self::with_data(
            seq,
            Some(ack),
            None,
            UnscaledWindowSize::from(u16::MAX),
            payload,
        );
        assert(discarded == 0);
        segment
    }
}

impl<P: Payload> Segment<P> {
    /// Creates a new segment with the provided data, which fits in a segment
    /// whole.
    pub fn data(seq: SeqNum, ack: SeqNum, wnd: UnscaledWindowSize, data: P) -> (seg: Segment<P>)
        requires
            data.bytes().len() <= MAX_PAYLOAD_AND_CONTROL_LEN,
        ensures
            seg.seq == seq,
            seg.ack == Some(ack),
            seg.wnd == wnd,
            seg.contents.control is None,
            seg.contents.data == data,
            seg.options == (Options { mss: None, window_scale: None }),
            seg.wf(),
    {
        let (seg, truncated) = Segment::with_data(seq, Some(ack), None, wnd, data);
        assert(truncated == 0);
        seg
    }

    /// Creates a new FIN segment with the provided data, which fits in a
    /// segment beside the FIN.
    pub fn piggybacked_fin(seq: SeqNum, ack: SeqNum, wnd: UnscaledWindowSize, data: P) -> (seg:
        Segment<P>)
        requires
            data.bytes().len() < MAX_PAYLOAD_AND_CONTROL_LEN,
        ensures
            seg.seq == seq,
            seg.ack == Some(ack),
            seg.wnd == wnd,
            seg.contents.control == Some(Control::FIN),
            seg.contents.data == data,
            seg.options == (Options { mss: None, window_scale: None }),
            seg.wf(),
    {
        let (seg, truncated) = Segment::with_data(seq, Some(ack), Some(Control::FIN), wnd, data);
        assert(truncated == 0);
        seg
    }
}

/// A segment that takes up sequence space does not wrap around it: its start
/// is before the sequence number after its end.
pub proof fn lemma_start_before_end(seq: u32, len: u32)
    requires
        1 <= len <= MAX_PAYLOAD_AND_CONTROL_LEN,
    ensures
        distance(seq, advance(seq, len)) < 0,
        distance(advance(seq, len), seq) == len || (len == MAX_PAYLOAD_AND_CONTROL_LEN
            && distance(advance(seq, len), seq) == -len),
{
}

/// The acceptability test, read on the number line. With `at` the signed
/// distance from the window's start to the segment's start, a segment is
/// accepted exactly where it starts inside the window, or takes up space and
/// ends between the window's edges; against an empty window, only an empty
/// segment at the window's start is.
pub proof fn lemma_acceptable_on_number_line(seq: u32, len: u32, rnxt: u32, rwnd: u32)
    requires
        len <= MAX_PAYLOAD_AND_CONTROL_LEN,
        rwnd <= MAX_WINDOW_SIZE,
    ensures
        acceptable(seq, len, rnxt, rwnd) <==> {
            let at = distance(seq, rnxt);
            if rwnd == 0 {
                len == 0 && at == 0
            } else {
                0 <= at < rwnd || (len > 0 && 0 <= at + len <= rwnd)
            }
        },
{
}

/// What is left of an accepted segment lies in the receive window, and is a
/// part of the segment: it starts at or after the window's start, ends at or
/// before the window's end, and takes the units `[start, start + new_len)`
/// of the segment, where it starts no earlier and ends no later than the
/// segment. Trimming it once more leaves it as it is.
pub proof fn lemma_trimmed_in_window(seq: u32, len: u32, rnxt: u32, rwnd: u32)
    requires
        len <= MAX_PAYLOAD_AND_CONTROL_LEN,
        rwnd <= MAX_WINDOW_SIZE,
        acceptable(seq, len, rnxt, rwnd),
    ensures
        ({
            let new_seq = later(seq, rnxt);
            let start = trim_start(seq, rnxt);
            let new_len = trim_len(seq, len, rnxt, rwnd);
            &&& 0 <= start <= start + new_len <= len
            &&& start == 0 && len > 0 ==> new_len > 0
            &&& new_seq == advance(seq, start as u32)
            &&& 0 <= distance(new_seq, rnxt)
            &&& distance(new_seq, rnxt) + new_len <= rwnd
            &&& acceptable(new_seq, new_len as u32, rnxt, rwnd)
            &&& later(new_seq, rnxt) == new_seq
            &&& trim_start(new_seq, rnxt) == 0
            &&& trim_len(new_seq, new_len as u32, rnxt, rwnd) == new_len
        }),
{
}

/// A segment that lies in the receive window whole is accepted and left as
/// it is.
pub proof fn lemma_segment_in_window_untouched(seq: u32, len: u32, rnxt: u32, rwnd: u32)
    requires
        len <= MAX_PAYLOAD_AND_CONTROL_LEN,
        0 < rwnd <= MAX_WINDOW_SIZE,
        0 <= distance(seq, rnxt),
        distance(seq, rnxt) + len <= rwnd,
        distance(seq, rnxt) < rwnd,
    ensures
        acceptable(seq, len, rnxt, rwnd),
        later(seq, rnxt) == seq,
        trim_start(seq, rnxt) == 0,
        trim_len(seq, len, rnxt, rwnd) == len,
{
}

/// One unit of a segment's sequence space.
pub enum SeqUnit {
    /// The SYN flag, the first unit of its segment.
    Syn,
    /// One octet of data.
    Octet(u8),
    /// The FIN flag, the last unit of its segment.
    Fin,
}

/// The units that a segment's contents take up in sequence space, in order:
/// a SYN, then the data, then a FIN.
pub open spec fn seq_units(control: Option<Control>, data: Seq<u8>) -> Seq<SeqUnit> {
    let syn = if control == Some(Control::SYN) {
        seq![SeqUnit::Syn]
    } else {
        Seq::empty()
    };
    let fin = if control == Some(Control::FIN) {
        seq![SeqUnit::Fin]
    } else {
        Seq::empty()
    };
    syn + data.map_values(|octet: u8| SeqUnit::Octet(octet)) + fin
}

/// Trimming keeps the units of the part and nothing else: the flag and the
/// data that are left of contents, for the part `[start, start + new_len)`
/// of their sequence space, take up exactly the units of that part. RST takes
/// up no unit and is on the trimmed contents exactly where it was on the
/// contents. A part that starts with a SYN is not empty: no accepted segment
/// is trimmed to nothing at its own start.
pub proof fn lemma_trimmed_units(
    control: Option<Control>,
    data: Seq<u8>,
    start: int,
    new_len: int,
)
    requires
        0 <= start <= start + new_len <= data.len() + control_len(control),
        control == Some(Control::SYN) && start == 0 ==> new_len > 0,
    ensures
        ({
            let len = (data.len() + control_len(control)) as int;
            let (from, to) = trimmed_range(control, len, start, new_len);
            let new_control = trimmed_control(control, len, start, new_len);
            &&& 0 <= from <= to <= data.len()
            &&& seq_units(new_control, data.subrange(from, to)) == seq_units(
                control,
                data,
            ).subrange(start, start + new_len)
            &&& new_control == Some(Control::RST) <==> control == Some(Control::RST)
        }),
{
    let len = (data.len() + control_len(control)) as int;
    let (from, to) = trimmed_range(control, len, start, new_len);
    let new_control = trimmed_control(control, len, start, new_len);
    assert(seq_units(new_control, data.subrange(from, to)) =~= seq_units(control, data).subrange(
        start,
        start + new_len,
    ));
}

} // verus!
