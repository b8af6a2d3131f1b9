use core::ops::Range;

use tcp_segment::base::{Control, Mss};
use tcp_segment::options::Options;
use tcp_segment::payload::{Payload, SendPayload};
use tcp_segment::segment::{Contents, Segment, MAX_PAYLOAD_AND_CONTROL_LEN};
use tcp_segment::seqnum::{SeqNum, UnscaledWindowSize, WindowScale, WindowSize};

const MAX_PAYLOAD_AND_CONTROL_LEN_U32: u32 = MAX_PAYLOAD_AND_CONTROL_LEN as u32;

#[derive(Debug, PartialEq, Eq)]
struct TestPayload(Range<u32>);

impl TestPayload {
    fn new(len: usize) -> Self {
        Self(0..u32::try_from(len).unwrap())
    }
}

impl Payload for TestPayload {
    fn len(&self) -> usize {
        self.0.len()
    }

    fn slice(self, range: Range<u32>) -> Self {
        let Self(this) = self;
        assert!(range.start >= this.start && range.end <= this.end);
        TestPayload(range)
    }

    fn partial_copy(&self, _offset: usize, _dst: &mut [u8]) {
        unreachable!("TestPayload doesn't carry any data");
    }
}

fn segment_len(control: Option<Control>, data: &[u8]) -> (u32, &[u8]) {
    let (seg, truncated) = Segment::with_data(
        SeqNum::new(1),
        Some(SeqNum::new(1)),
        control,
        UnscaledWindowSize::from(0),
        data,
    );
    assert_eq!(truncated, 0);
    (seg.contents.len(), seg.contents.data)
}

fn payload_slice_copy(data: impl Payload, range: Range<u32>) -> [u8; 4] {
    let sliced = data.slice(range);
    let mut buffer = [0; 4];
    sliced.partial_copy(0, &mut buffer[..sliced.len()]);
    buffer
}

fn segment_truncate(len: usize, control: Option<Control>) -> (usize, Option<Control>, usize) {
    let (seg, truncated) = Segment::with_data(
        SeqNum::new(0),
        None,
        control,
        UnscaledWindowSize::from(0),
        TestPayload::new(len),
    );
    (seg.contents.data.len(), seg.contents.control, truncated)
}

struct OverlapTestArgs {
    seg_seq: u32,
    control: Option<Control>,
    data_len: u32,
    rcv_nxt: u32,
    rcv_wnd: usize,
}

fn segment_overlap(
    OverlapTestArgs { seg_seq, control, data_len, rcv_nxt, rcv_wnd }: OverlapTestArgs,
) -> Option<(SeqNum, Option<Control>, Range<u32>)> {
    let (seg, discarded) = Segment::with_data(
        SeqNum::new(seg_seq),
        None,
        control,
        UnscaledWindowSize::from(0),
        TestPayload(0..data_len),
    );
    assert_eq!(discarded, 0);
    seg.overlap(SeqNum::new(rcv_nxt), WindowSize::new(rcv_wnd).unwrap()).map(
        |Segment {
             seq,
             ack: _,
             wnd: _,
             contents: Contents { control, data: TestPayload(range) },
             options: _,
         }| { (seq, control, range) },
    )
}

#[test]
fn segment_len_empty() {
    assert_eq!(segment_len(None, &[][..]), (0, &[][..]));
}

#[test]
fn segment_len_no_control() {
    assert_eq!(segment_len(None, &[1][..]), (1, &[1][..]));
}

#[test]
fn segment_len_empty_slice_with_syn() {
    assert_eq!(segment_len(Some(Control::SYN), &[][..]), (1, &[][..]));
}

#[test]
fn segment_len_non_empty_slice_with_syn() {
    assert_eq!(segment_len(Some(Control::SYN), &[1][..]), (2, &[1][..]));
}

#[test]
fn segment_len_empty_slice_with_fin() {
    assert_eq!(segment_len(Some(Control::FIN), &[][..]), (1, &[][..]));
}

#[test]
fn segment_len_non_empty_slice_with_fin() {
    assert_eq!(segment_len(Some(Control::FIN), &[1][..]), (2, &[1][..]));
}

#[test]
fn segment_len_empty_slice_with_rst() {
    assert_eq!(segment_len(Some(Control::RST), &[][..]), (0, &[][..]));
}

#[test]
fn segment_len_non_empty_slice_with_rst() {
    assert_eq!(segment_len(Some(Control::RST), &[1][..]), (1, &[1][..]));
}

#[test]
fn payload_slice_copy_slice() {
    assert_eq!(payload_slice_copy(&[1, 2, 3, 4, 5][..], 0..4), [1, 2, 3, 4]);
}

#[test]
fn payload_slice_copy_unit() {
    assert_eq!(payload_slice_copy((), 0..0), [0, 0, 0, 0]);
}

#[test]
fn segment_truncate_small_syn() {
    assert_eq!(
        segment_truncate(100, Some(Control::SYN)),
        (100, Some(Control::SYN), 0)
    );
}

#[test]
fn segment_truncate_small_fin() {
    assert_eq!(
        segment_truncate(100, Some(Control::FIN)),
        (100, Some(Control::FIN), 0)
    );
}

#[test]
fn segment_truncate_small_rst() {
    assert_eq!(
        segment_truncate(100, Some(Control::RST)),
        (100, Some(Control::RST), 0)
    );
}

#[test]
fn segment_truncate_small_none() {
    assert_eq!(
        segment_truncate(100, None),
        (100, None, 0)
    );
}

#[test]
fn segment_truncate_below_limit_syn() {
    assert_eq!(
        segment_truncate(MAX_PAYLOAD_AND_CONTROL_LEN - 1, Some(Control::SYN)),
        (MAX_PAYLOAD_AND_CONTROL_LEN - 1, Some(Control::SYN), 0)
    );
}

#[test]
fn segment_truncate_below_limit_fin() {
    assert_eq!(
        segment_truncate(MAX_PAYLOAD_AND_CONTROL_LEN - 1, Some(Control::FIN)),
        (MAX_PAYLOAD_AND_CONTROL_LEN - 1, Some(Control::FIN), 0)
    );
}

#[test]
fn segment_truncate_below_limit_rst() {
    assert_eq!(
        segment_truncate(MAX_PAYLOAD_AND_CONTROL_LEN - 1, Some(Control::RST)),
        (MAX_PAYLOAD_AND_CONTROL_LEN - 1, Some(Control::RST), 0)
    );
}

#[test]
fn segment_truncate_below_limit_none() {
    assert_eq!(
        segment_truncate(MAX_PAYLOAD_AND_CONTROL_LEN - 1, None),
        (MAX_PAYLOAD_AND_CONTROL_LEN - 1, None, 0)
    );
}

#[test]
fn segment_truncate_at_limit_syn() {
    assert_eq!(
        segment_truncate(MAX_PAYLOAD_AND_CONTROL_LEN, Some(Control::SYN)),
        (MAX_PAYLOAD_AND_CONTROL_LEN - 1, Some(Control::SYN), 1)
    );
}

#[test]
fn segment_truncate_at_limit_fin() {
    assert_eq!(
        segment_truncate(MAX_PAYLOAD_AND_CONTROL_LEN, Some(Control::FIN)),
        (MAX_PAYLOAD_AND_CONTROL_LEN, None, 1)
    );
}

#[test]
fn segment_truncate_at_limit_rst() {
    assert_eq!(
        segment_truncate(MAX_PAYLOAD_AND_CONTROL_LEN, Some(Control::RST)),
        (MAX_PAYLOAD_AND_CONTROL_LEN, Some(Control::RST), 0)
    );
}

#[test]
fn segment_truncate_at_limit_none() {
    assert_eq!(
        segment_truncate(MAX_PAYLOAD_AND_CONTROL_LEN, None),
        (MAX_PAYLOAD_AND_CONTROL_LEN, None, 0)
    );
}

#[test]
fn segment_truncate_above_limit_syn() {
    assert_eq!(
        segment_truncate(MAX_PAYLOAD_AND_CONTROL_LEN + 1, Some(Control::SYN)),
        (MAX_PAYLOAD_AND_CONTROL_LEN - 1, Some(Control::SYN), 2)
    );
}

#[test]
fn segment_truncate_above_limit_fin() {
    assert_eq!(
        segment_truncate(MAX_PAYLOAD_AND_CONTROL_LEN + 1, Some(Control::FIN)),
        (MAX_PAYLOAD_AND_CONTROL_LEN, None, 2)
    );
}

#[test]
fn segment_truncate_above_limit_rst() {
    assert_eq!(
        segment_truncate(MAX_PAYLOAD_AND_CONTROL_LEN + 1, Some(Control::RST)),
        (MAX_PAYLOAD_AND_CONTROL_LEN, Some(Control::RST), 1)
    );
}

#[test]
fn segment_truncate_above_limit_none() {
    assert_eq!(
        segment_truncate(MAX_PAYLOAD_AND_CONTROL_LEN + 1, None),
        (MAX_PAYLOAD_AND_CONTROL_LEN, None, 1)
    );
}

#[test]
fn segment_truncate_largest_syn() {
    assert_eq!(
        segment_truncate(u32::MAX as usize, Some(Control::SYN)),
        (MAX_PAYLOAD_AND_CONTROL_LEN - 1, Some(Control::SYN), 1 << 31)
    );
}

#[test]
fn segment_overlap_plain_seq1_data0_nxt0_wnd0() {
    assert_eq!(
        segment_overlap(OverlapTestArgs {
            seg_seq: 1,
            control: None,
            data_len: 0,
            rcv_nxt: 0,
            rcv_wnd: 0,
        }),
        None
    );
}

#[test]
fn segment_overlap_plain_seq1_data0_nxt1_wnd0() {
    assert_eq!(
        segment_overlap(OverlapTestArgs {
            seg_seq: 1,
            control: None,
            data_len: 0,
            rcv_nxt: 1,
            rcv_wnd: 0,
        }),
        Some((SeqNum::new(1), None, 0..0))
    );
}

#[test]
fn segment_overlap_plain_seq1_data0_nxt2_wnd0() {
    assert_eq!(
        segment_overlap(OverlapTestArgs {
            seg_seq: 1,
            control: None,
            data_len: 0,
            rcv_nxt: 2,
            rcv_wnd: 0,
        }),
        None
    );
}

#[test]
fn segment_overlap_syn_seq1_data0_nxt2_wnd0() {
    assert_eq!(
        segment_overlap(OverlapTestArgs {
            seg_seq: 1,
            control: Some(Control::SYN),
            data_len: 0,
            rcv_nxt: 2,
            rcv_wnd: 0,
        }),
        None
    );
}

#[test]
fn segment_overlap_syn_seq1_data0_nxt1_wnd0() {
    assert_eq!(
        segment_overlap(OverlapTestArgs {
            seg_seq: 1,
            control: Some(Control::SYN),
            data_len: 0,
            rcv_nxt: 1,
            rcv_wnd: 0,
        }),
        None
    );
}

#[test]
fn segment_overlap_syn_seq1_data0_nxt0_wnd0() {
    assert_eq!(
        segment_overlap(OverlapTestArgs {
            seg_seq: 1,
            control: Some(Control::SYN),
            data_len: 0,
            rcv_nxt: 0,
            rcv_wnd: 0,
        }),
        None
    );
}

#[test]
fn segment_overlap_fin_seq1_data0_nxt2_wnd0() {
    assert_eq!(
        segment_overlap(OverlapTestArgs {
            seg_seq: 1,
            control: Some(Control::FIN),
            data_len: 0,
            rcv_nxt: 2,
            rcv_wnd: 0,
        }),
        None
    );
}

#[test]
fn segment_overlap_fin_seq1_data0_nxt1_wnd0() {
    assert_eq!(
        segment_overlap(OverlapTestArgs {
            seg_seq: 1,
            control: Some(Control::FIN),
            data_len: 0,
            rcv_nxt: 1,
            rcv_wnd: 0,
        }),
        None
    );
}

#[test]
fn segment_overlap_fin_seq1_data0_nxt0_wnd0() {
    assert_eq!(
        segment_overlap(OverlapTestArgs {
            seg_seq: 1,
            control: Some(Control::FIN),
            data_len: 0,
            rcv_nxt: 0,
            rcv_wnd: 0,
        }),
        None
    );
}

#[test]
fn segment_overlap_plain_seq0_data0_nxt1_wnd1() {
    assert_eq!(
        segment_overlap(OverlapTestArgs {
            seg_seq: 0,
            control: None,
            data_len: 0,
            rcv_nxt: 1,
            rcv_wnd: 1,
        }),
        None
    );
}

#[test]
fn segment_overlap_plain_seq1_data0_nxt1_wnd1() {
    assert_eq!(
        segment_overlap(OverlapTestArgs {
            seg_seq: 1,
            control: None,
            data_len: 0,
            rcv_nxt: 1,
            rcv_wnd: 1,
        }),
        Some((SeqNum::new(1), None, 0..0))
    );
}

#[test]
fn segment_overlap_plain_seq2_data0_nxt1_wnd1() {
    assert_eq!(
        segment_overlap(OverlapTestArgs {
            seg_seq: 2,
            control: None,
            data_len: 0,
            rcv_nxt: 1,
            rcv_wnd: 1,
        }),
        None
    );
}

#[test]
fn segment_overlap_plain_seq0_data1_nxt1_wnd1() {
    assert_eq!(
        segment_overlap(OverlapTestArgs {
            seg_seq: 0,
            control: None,
            data_len: 1,
            rcv_nxt: 1,
            rcv_wnd: 1,
        }),
        Some((SeqNum::new(1), None, 1..1))
    );
}

#[test]
fn segment_overlap_syn_seq0_data0_nxt1_wnd1() {
    assert_eq!(
        segment_overlap(OverlapTestArgs {
            seg_seq: 0,
            control: Some(Control::SYN),
            data_len: 0,
            rcv_nxt: 1,
            rcv_wnd: 1,
        }),
        Some((SeqNum::new(1), None, 0..0))
    );
}

#[test]
fn segment_overlap_plain_seq2_data1_nxt1_wnd1() {
    assert_eq!(
        segment_overlap(OverlapTestArgs {
            seg_seq: 2,
            control: None,
            data_len: 1,
            rcv_nxt: 1,
            rcv_wnd: 1,
        }),
        None
    );
}

#[test]
fn segment_overlap_plain_seq0_data2_nxt1_wnd1() {
    assert_eq!(
        segment_overlap(OverlapTestArgs {
            seg_seq: 0,
            control: None,
            data_len: 2,
            rcv_nxt: 1,
            rcv_wnd: 1,
        }),
        Some((SeqNum::new(1), None, 1..2))
    );
}

#[test]
fn segment_overlap_plain_seq1_data2_nxt1_wnd1() {
    assert_eq!(
        segment_overlap(OverlapTestArgs {
            seg_seq: 1,
            control: None,
            data_len: 2,
            rcv_nxt: 1,
            rcv_wnd: 1,
        }),
        Some((SeqNum::new(1), None, 0..1))
    );
}

#[test]
fn segment_overlap_syn_seq0_data1_nxt1_wnd1() {
    assert_eq!(
        segment_overlap(OverlapTestArgs {
            seg_seq: 0,
            control: Some(Control::SYN),
            data_len: 1,
            rcv_nxt: 1,
            rcv_wnd: 1,
        }),
        Some((SeqNum::new(1), None, 0..1))
    );
}

#[test]
fn segment_overlap_syn_seq1_data1_nxt1_wnd1() {
    assert_eq!(
        segment_overlap(OverlapTestArgs {
            seg_seq: 1,
            control: Some(Control::SYN),
            data_len: 1,
            rcv_nxt: 1,
            rcv_wnd: 1,
        }),
        Some((SeqNum::new(1), Some(Control::SYN), 0..0))
    );
}

#[test]
fn segment_overlap_fin_seq0_data1_nxt1_wnd1() {
    assert_eq!(
        segment_overlap(OverlapTestArgs {
            seg_seq: 0,
            control: Some(Control::FIN),
            data_len: 1,
            rcv_nxt: 1,
            rcv_wnd: 1,
        }),
        Some((SeqNum::new(1), Some(Control::FIN), 1..1))
    );
}

#[test]
fn segment_overlap_fin_seq1_data1_nxt1_wnd1() {
    assert_eq!(
        segment_overlap(OverlapTestArgs {
            seg_seq: 1,
            control: Some(Control::FIN),
            data_len: 1,
            rcv_nxt: 1,
            rcv_wnd: 1,
        }),
        Some((SeqNum::new(1), None, 0..1))
    );
}

#[test]
fn segment_overlap_plain_seq1_datamax_nxt1_wnd10() {
    assert_eq!(
        segment_overlap(OverlapTestArgs {
            seg_seq: 1,
            control: None,
            data_len: MAX_PAYLOAD_AND_CONTROL_LEN_U32,
            rcv_nxt: 1,
            rcv_wnd: 10,
        }),
        Some((SeqNum::new(1), None, 0..10))
    );
}

#[test]
fn segment_overlap_plain_seq10_datamax_nxt1_wnd10() {
    assert_eq!(
        segment_overlap(OverlapTestArgs {
            seg_seq: 10,
            control: None,
            data_len: MAX_PAYLOAD_AND_CONTROL_LEN_U32,
            rcv_nxt: 1,
            rcv_wnd: 10,
        }),
        Some((SeqNum::new(10), None, 0..1))
    );
}

#[test]
fn segment_overlap_plain_seq1_data10_nxt1_wndlarge() {
    assert_eq!(
        segment_overlap(OverlapTestArgs {
            seg_seq: 1,
            control: None,
            data_len: 10,
            rcv_nxt: 1,
            rcv_wnd: 1 << 30 - 1,
        }),
        Some((SeqNum::new(1), None, 0..10))
    );
}

#[test]
fn segment_overlap_plain_seq10_data10_nxt1_wndlarge() {
    assert_eq!(
        segment_overlap(OverlapTestArgs {
            seg_seq: 10,
            control: None,
            data_len: 10,
            rcv_nxt: 1,
            rcv_wnd: 1 << 30 - 1,
        }),
        Some((SeqNum::new(10), None, 0..10))
    );
}

#[test]
fn segment_overlap_fin_seq1_data1_nxt3_wnd10() {
    assert_eq!(
        segment_overlap(OverlapTestArgs {
            seg_seq: 1,
            control: Some(Control::FIN),
            data_len: 1,
            rcv_nxt: 3,
            rcv_wnd: 10,
        }),
        Some((SeqNum::new(3), None, 1..1))
    );
}

#[test]
fn segment_overlap_across_wraparound() {
    // The segment starts four before the wrap and the window two before it.
    assert_eq!(
        segment_overlap(OverlapTestArgs {
            seg_seq: u32::MAX - 3,
            control: None,
            data_len: 10,
            rcv_nxt: u32::MAX - 1,
            rcv_wnd: 8,
        }),
        Some((SeqNum::new(u32::MAX - 1), None, 2..10))
    );
}

#[test]
fn segment_overlap_around_window() {
    // A segment that starts before the window and ends after it fails both
    // lines of the test.
    assert_eq!(
        segment_overlap(OverlapTestArgs {
            seg_seq: u32::MAX - 3,
            control: None,
            data_len: 10,
            rcv_nxt: u32::MAX - 1,
            rcv_wnd: 4,
        }),
        None
    );
}

#[test]
fn segment_overlap_window_wraps() {
    assert_eq!(
        segment_overlap(OverlapTestArgs {
            seg_seq: 1,
            control: Some(Control::FIN),
            data_len: 3,
            rcv_nxt: u32::MAX,
            rcv_wnd: 4,
        }),
        Some((SeqNum::new(1), None, 0..2))
    );
}

#[test]
fn segment_overlap_simultaneous_open() {
    // A SYN-ACK whose SYN was already taken ends where the window starts and
    // is accepted with nothing left of it.
    assert_eq!(
        segment_overlap(OverlapTestArgs {
            seg_seq: 7,
            control: Some(Control::SYN),
            data_len: 0,
            rcv_nxt: 8,
            rcv_wnd: 100,
        }),
        Some((SeqNum::new(8), None, 0..0))
    );
}

#[test]
fn segment_overlap_half_the_space_before() {
    // A segment of half the sequence space that starts half the space before
    // the window ends where the window starts.
    assert_eq!(
        segment_overlap(OverlapTestArgs {
            seg_seq: 1 << 31,
            control: None,
            data_len: MAX_PAYLOAD_AND_CONTROL_LEN_U32,
            rcv_nxt: 0,
            rcv_wnd: 5,
        }),
        Some((SeqNum::new(0), None, MAX_PAYLOAD_AND_CONTROL_LEN_U32..MAX_PAYLOAD_AND_CONTROL_LEN_U32))
    );
}

#[test]
fn segment_overlap_keeps_rst() {
    assert_eq!(
        segment_overlap(OverlapTestArgs {
            seg_seq: 0,
            control: Some(Control::RST),
            data_len: 4,
            rcv_nxt: 2,
            rcv_wnd: 2,
        }),
        Some((SeqNum::new(2), Some(Control::RST), 2..4))
    );
}

#[test]
fn segment_overlap_carries_ack_wnd_options() {
    let options = Options { mss: Mss::new(1400), window_scale: WindowScale::new(7) };
    let (seg, discarded) = Segment::with_data_options(
        SeqNum::new(5),
        Some(SeqNum::new(77)),
        Some(Control::SYN),
        UnscaledWindowSize::from(4321),
        &[1u8, 2, 3, 4][..],
        options,
    );
    assert_eq!(discarded, 0);
    let trimmed = seg.overlap(SeqNum::new(7), WindowSize::new(3).unwrap()).unwrap();
    assert_eq!(trimmed.seq, SeqNum::new(7));
    assert_eq!(trimmed.ack, Some(SeqNum::new(77)));
    assert_eq!(trimmed.wnd, UnscaledWindowSize::from(4321));
    assert_eq!(trimmed.options, options);
    assert_eq!(trimmed.contents.control(), None);
    assert_eq!(*trimmed.contents.data(), &[2u8, 3, 4][..]);
    assert_eq!(trimmed.contents.len(), 3);
}

#[test]
fn segment_overlap_is_deterministic() {
    let build = || {
        Segment::with_data(
            SeqNum::new(3),
            None,
            Some(Control::FIN),
            UnscaledWindowSize::from(0),
            &[9u8, 8, 7][..],
        )
        .0
    };
    let first = build().overlap(SeqNum::new(4), WindowSize::new(8).unwrap());
    let second = build().overlap(SeqNum::new(4), WindowSize::new(8).unwrap());
    assert_eq!(first, second);
    let seg = first.unwrap();
    assert_eq!(seg.contents.control, Some(Control::FIN));
    assert_eq!(seg.contents.data, &[8u8, 7][..]);
}

#[test]
fn contents_len_counts_syn_and_fin_only() {
    let data = &[0u8; 5][..];
    assert_eq!(Contents { control: None, data }.len(), 5);
    assert_eq!(Contents { control: Some(Control::SYN), data }.len(), 6);
    assert_eq!(Contents { control: Some(Control::FIN), data }.len(), 6);
    assert_eq!(Contents { control: Some(Control::RST), data }.len(), 5);
    assert_eq!(Contents { control: Some(Control::SYN), data: () }.len(), 1);
}

#[test]
fn with_data_options_keeps_fields() {
    let options = Options { mss: Mss::new(536), window_scale: None };
    let (seg, discarded) = Segment::with_data_options(
        SeqNum::new(11),
        Some(SeqNum::new(12)),
        Some(Control::FIN),
        UnscaledWindowSize::from(13),
        &[1u8, 2, 3][..],
        options,
    );
    assert_eq!(discarded, 0);
    assert_eq!(seg.seq, SeqNum::new(11));
    assert_eq!(seg.ack, Some(SeqNum::new(12)));
    assert_eq!(seg.wnd, UnscaledWindowSize::from(13));
    assert_eq!(seg.options, options);
    assert_eq!(seg.contents.control, Some(Control::FIN));
    assert_eq!(seg.contents.data, &[1u8, 2, 3][..]);
}

#[test]
fn with_data_has_no_options() {
    let (seg, _) =
        Segment::with_data(SeqNum::new(1), None, None, UnscaledWindowSize::from(0), ());
    assert_eq!(seg.options, Options::default());
    assert_eq!(seg.options.mss, None);
    assert_eq!(seg.options.window_scale, None);
}

#[test]
fn truncated_segment_does_not_wrap() {
    let (seg, _) = Segment::with_data(
        SeqNum::new(17),
        None,
        Some(Control::SYN),
        UnscaledWindowSize::from(0),
        TestPayload::new(u32::MAX as usize),
    );
    let len = seg.contents.len();
    assert_eq!(len, MAX_PAYLOAD_AND_CONTROL_LEN_U32);
    assert!(seg.seq.before(seg.seq + len));
}

#[test]
fn segment_new_has_no_data_and_no_options() {
    let seg = Segment::new(
        SeqNum::new(1),
        Some(SeqNum::new(2)),
        Some(Control::FIN),
        UnscaledWindowSize::from(3),
    );
    assert_eq!(seg.seq, SeqNum::new(1));
    assert_eq!(seg.ack, Some(SeqNum::new(2)));
    assert_eq!(seg.wnd, UnscaledWindowSize::from(3));
    assert_eq!(seg.contents, Contents { control: Some(Control::FIN), data: () });
    assert_eq!(seg.options, Options::default());
    assert_eq!(seg.contents.len(), 1);
}

#[test]
fn segment_with_options_keeps_options() {
    let options = Options { mss: Mss::new(1460), window_scale: WindowScale::new(14) };
    let seg =
        Segment::with_options(SeqNum::new(1), None, None, UnscaledWindowSize::from(3), options);
    assert_eq!(seg.options, options);
    assert_eq!(seg.contents.control, None);
    assert_eq!(seg.ack, None);
    assert_eq!(seg.contents.len(), 0);
}

#[test]
fn segment_ack() {
    let seg = Segment::ack(SeqNum::new(5), SeqNum::new(6), UnscaledWindowSize::from(7));
    assert_eq!(seg.seq, SeqNum::new(5));
    assert_eq!(seg.ack, Some(SeqNum::new(6)));
    assert_eq!(seg.wnd, UnscaledWindowSize::from(7));
    assert_eq!(seg.contents.control, None);
    assert_eq!(seg.options, Options::default());
}

#[test]
fn segment_syn() {
    let options = Options { mss: Mss::new(1460), window_scale: WindowScale::new(2) };
    let seg = Segment::syn(SeqNum::new(5), UnscaledWindowSize::from(7), options);
    assert_eq!(seg.seq, SeqNum::new(5));
    assert_eq!(seg.ack, None);
    assert_eq!(seg.wnd, UnscaledWindowSize::from(7));
    assert_eq!(seg.contents.control, Some(Control::SYN));
    assert_eq!(seg.options, options);
    assert_eq!(seg.contents.len(), 1);
}

#[test]
fn segment_syn_ack() {
    let options = Options { mss: Mss::new(1460), window_scale: None };
    let seg =
        Segment::syn_ack(SeqNum::new(5), SeqNum::new(9), UnscaledWindowSize::from(7), options);
    assert_eq!(seg.seq, SeqNum::new(5));
    assert_eq!(seg.ack, Some(SeqNum::new(9)));
    assert_eq!(seg.wnd, UnscaledWindowSize::from(7));
    assert_eq!(seg.contents.control, Some(Control::SYN));
    assert_eq!(seg.options, options);
}

#[test]
fn segment_rst() {
    let seg = Segment::rst(SeqNum::new(5));
    assert_eq!(seg.seq, SeqNum::new(5));
    assert_eq!(seg.ack, None);
    assert_eq!(seg.wnd, UnscaledWindowSize::from(0));
    assert_eq!(seg.contents.control, Some(Control::RST));
    assert_eq!(seg.options, Options::default());
    assert_eq!(seg.contents.len(), 0);
}

#[test]
fn segment_rst_ack() {
    let seg = Segment::rst_ack(SeqNum::new(5), SeqNum::new(6));
    assert_eq!(seg.seq, SeqNum::new(5));
    assert_eq!(seg.ack, Some(SeqNum::new(6)));
    assert_eq!(seg.wnd, UnscaledWindowSize::from(0));
    assert_eq!(seg.contents.control, Some(Control::RST));
}

#[test]
fn segment_fin() {
    let seg = Segment::fin(SeqNum::new(5), SeqNum::new(6), UnscaledWindowSize::from(7));
    assert_eq!(seg.seq, SeqNum::new(5));
    assert_eq!(seg.ack, Some(SeqNum::new(6)));
    assert_eq!(seg.wnd, UnscaledWindowSize::from(7));
    assert_eq!(seg.contents.control, Some(Control::FIN));
    assert_eq!(seg.contents.len(), 1);
}

#[test]
fn segment_data() {
    let seg = Segment::data(
        SeqNum::new(5),
        SeqNum::new(6),
        UnscaledWindowSize::from(7),
        &[1u8, 2, 3][..],
    );
    assert_eq!(seg.seq, SeqNum::new(5));
    assert_eq!(seg.ack, Some(SeqNum::new(6)));
    assert_eq!(seg.wnd, UnscaledWindowSize::from(7));
    assert_eq!(seg.contents.control, None);
    assert_eq!(seg.contents.data, &[1u8, 2, 3][..]);
    assert_eq!(seg.contents.len(), 3);
}

#[test]
fn segment_piggybacked_fin() {
    let seg = Segment::piggybacked_fin(
        SeqNum::new(5),
        SeqNum::new(6),
        UnscaledWindowSize::from(7),
        &[1u8, 2, 3][..],
    );
    assert_eq!(seg.ack, Some(SeqNum::new(6)));
    assert_eq!(seg.contents.control, Some(Control::FIN));
    assert_eq!(seg.contents.data, &[1u8, 2, 3][..]);
    assert_eq!(seg.contents.len(), 4);
}

#[test]
fn segment_with_fake_data_contiguous() {
    static DATA: [u8; 5] = [1, 2, 3, 4, 5];
    let seg = Segment::with_fake_data(SeqNum::new(5), SeqNum::new(6), &DATA[..], false);
    assert_eq!(seg.seq, SeqNum::new(5));
    assert_eq!(seg.ack, Some(SeqNum::new(6)));
    assert_eq!(seg.wnd, UnscaledWindowSize::from(u16::MAX));
    assert_eq!(seg.contents.control, None);
    assert_eq!(seg.contents.data, SendPayload::Contiguous(&DATA[..]));
}

#[test]
fn segment_with_fake_data_split() {
    static DATA: [u8; 5] = [1, 2, 3, 4, 5];
    let seg = Segment::with_fake_data(SeqNum::new(5), SeqNum::new(6), &DATA[..], true);
    assert_eq!(seg.contents.data, SendPayload::Straddle(&DATA[..2], &DATA[2..]));
    assert_eq!(seg.contents.len(), 5);
}

#[test]
fn segment_without_data_into_slice_segment() {
    let options = Options { mss: Mss::new(1460), window_scale: None };
    let from = Segment::syn_ack(SeqNum::new(5), SeqNum::new(9), UnscaledWindowSize::from(7), options);
    let to: Segment<&'static [u8]> = from.into();
    assert_eq!(to.seq, SeqNum::new(5));
    assert_eq!(to.ack, Some(SeqNum::new(9)));
    assert_eq!(to.wnd, UnscaledWindowSize::from(7));
    assert_eq!(to.contents.control, Some(Control::SYN));
    assert_eq!(to.contents.data.len(), 0);
    assert_eq!(to.options, options);
}

#[test]
fn segment_without_data_into_send_payload_segment() {
    let from = Segment::rst_ack(SeqNum::new(5), SeqNum::new(9));
    let to: Segment<SendPayload<'static>> = from.into();
    assert_eq!(to.seq, SeqNum::new(5));
    assert_eq!(to.ack, Some(SeqNum::new(9)));
    assert_eq!(to.contents.control, Some(Control::RST));
    assert_eq!(to.contents.data, SendPayload::Contiguous(&[]));
}

fn before(a: u32, b: u32) -> bool {
    (a.wrapping_sub(b) as i32) < 0
}

fn after(a: u32, b: u32) -> bool {
    (a.wrapping_sub(b) as i32) > 0
}

/// The acceptability test, line by line.
fn table(seq: u32, len: u32, rcv_nxt: u32, rcv_wnd: u32) -> bool {
    let window_end = rcv_nxt.wrapping_add(rcv_wnd);
    let segment_end = seq.wrapping_add(len);
    match (len, rcv_wnd) {
        (0, 0) => seq == rcv_nxt,
        (0, _) => !after(rcv_nxt, seq) && before(seq, window_end),
        (_, 0) => false,
        (_, _) => {
            (!after(rcv_nxt, seq) && before(seq, window_end))
                || (!before(segment_end, rcv_nxt) && !after(segment_end, window_end))
        }
    }
}

/// The part of a segment that the window accepts, by signed distances.
fn part(
    seq: u32,
    control: Option<Control>,
    data_len: u32,
    rcv_nxt: u32,
    rcv_wnd: u32,
) -> Option<(u32, Option<Control>, Range<u32>)> {
    let len = data_len + u32::from(control.is_some_and(Control::has_sequence_no));
    if !table(seq, len, rcv_nxt, rcv_wnd) {
        return None;
    }
    let window_end = rcv_nxt.wrapping_add(rcv_wnd);
    let segment_end = seq.wrapping_add(len);
    let new_seq = if after(seq, rcv_nxt) { seq } else { rcv_nxt };
    let new_end = if after(segment_end, window_end) { window_end } else { segment_end };
    let new_len = u32::try_from(new_end.wrapping_sub(new_seq) as i32).unwrap();
    let start = u32::try_from(new_seq.wrapping_sub(seq) as i32).unwrap();
    let (new_control, range) = match control {
        Some(Control::SYN) => {
            if start == 0 {
                (Some(Control::SYN), start..start + new_len - 1)
            } else {
                (None, start - 1..start + new_len - 1)
            }
        }
        Some(Control::FIN) => {
            if len == start + new_len {
                if new_len > 0 {
                    (Some(Control::FIN), start..start + new_len - 1)
                } else {
                    (None, start - 1..start - 1)
                }
            } else {
                (None, start..start + new_len)
            }
        }
        Some(Control::RST) | None => (control, start..start + new_len),
    };
    Some((new_seq, new_control, range))
}

#[test]
fn segment_overlap_is_some_exactly_where_acceptable() {
    let controls = [None, Some(Control::SYN), Some(Control::FIN), Some(Control::RST)];
    let bases = [0u32, 1, 1000, (1 << 31) - 3, 1 << 31, u32::MAX - 5, u32::MAX];
    let mut accepted = 0;
    let mut refused = 0;
    for base in bases {
        for shift in 0..8u32 {
            let seq = base.wrapping_add(shift);
            for control in controls {
                for data_len in 0..5u32 {
                    for wnd in 0..5u32 {
                        let rcv_nxt = base.wrapping_add(3);
                        let (seg, discarded) = Segment::with_data(
                            SeqNum::new(seq),
                            None,
                            control,
                            UnscaledWindowSize::from(0),
                            TestPayload(0..data_len),
                        );
                        assert_eq!(discarded, 0);
                        let len = seg.contents.len();
                        let trimmed =
                            seg.overlap(SeqNum::new(rcv_nxt), WindowSize::new(wnd as usize).unwrap());
                        assert_eq!(trimmed.is_some(), table(seq, len, rcv_nxt, wnd));
                        assert_eq!(
                            trimmed.as_ref().map(|trimmed| (
                                trimmed.seq.get(),
                                trimmed.contents.control,
                                trimmed.contents.data.0.clone()
                            )),
                            part(seq, control, data_len, rcv_nxt, wnd)
                        );
                        match trimmed {
                            None => refused += 1,
                            Some(trimmed) => {
                                accepted += 1;
                                // The part lies in the segment and in the window.
                                let start = i64::from(trimmed.seq - SeqNum::new(seq));
                                let at = i64::from(trimmed.seq - SeqNum::new(rcv_nxt));
                                let new_len = i64::from(trimmed.contents.len());
                                assert!(0 <= start && start + new_len <= i64::from(len));
                                assert!(0 <= at && at + new_len <= i64::from(wnd));
                                assert_eq!(trimmed.contents.control == Some(Control::RST),
                                    control == Some(Control::RST));
                            }
                        }
                    }
                }
            }
        }
    }
    assert!(accepted > 0 && refused > 0);
}

#[test]
fn segment_truncate_accounts_for_every_unit() {
    let controls = [None, Some(Control::SYN), Some(Control::FIN), Some(Control::RST)];
    let lens = [
        0,
        1,
        MAX_PAYLOAD_AND_CONTROL_LEN - 2,
        MAX_PAYLOAD_AND_CONTROL_LEN - 1,
        MAX_PAYLOAD_AND_CONTROL_LEN,
        MAX_PAYLOAD_AND_CONTROL_LEN + 1,
        MAX_PAYLOAD_AND_CONTROL_LEN + 2,
        u32::MAX as usize,
    ];
    for control in controls {
        for len in lens {
            let (seg, discarded) = Segment::with_data(
                SeqNum::new(9),
                None,
                control,
                UnscaledWindowSize::from(0),
                TestPayload::new(len),
            );
            let units = usize::from(control.is_some_and(Control::has_sequence_no));
            let kept = seg.contents.len() as usize;
            assert!(kept <= MAX_PAYLOAD_AND_CONTROL_LEN);
            assert_eq!(kept + discarded, len + units);
            assert_eq!(kept, (len + units).min(MAX_PAYLOAD_AND_CONTROL_LEN));
            if len + units < MAX_PAYLOAD_AND_CONTROL_LEN {
                assert!(kept <= MAX_PAYLOAD_AND_CONTROL_LEN - 1);
                assert_eq!(discarded, 0);
                assert_eq!(seg.contents.control, control);
            }
            if discarded > 0 {
                assert_ne!(seg.contents.control, Some(Control::FIN));
            }
            assert_eq!(seg.contents.data.0.start, 0);
        }
    }
}
