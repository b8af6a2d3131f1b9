//! The TCP options that a segment carries, and their codec to and from an
//! ordered list of option entries.

use crate::base::Mss;
use crate::seqnum::{WindowScale, MAX_WINDOW_SCALE};
use vstd::prelude::*;

verus! {

/// One block of a selective acknowledgment.
#[derive(Debug, PartialEq, Eq, Clone, Copy)]
pub struct SackBlock {
    /// The first sequence number of the block.
    pub left_edge: u32,
    /// The sequence number that follows the block.
    pub right_edge: u32,
}

/// One entry of a segment's option list.
#[derive(Debug, PartialEq, Eq, Clone, Copy)]
pub enum TcpOption<'a> {
    /// A maximum segment size.
    Mss(u16),
    /// A window scale shift count.
    WindowScale(u8),
    /// Selective acknowledgment is permitted.
    SackPermitted,
    /// A selective acknowledgment.
    Sack(&'a [SackBlock]),
    /// A timestamp.
    Timestamp {
        /// The sender's timestamp.
        ts_val: u32,
        /// The timestamp that the sender echoes.
        ts_echo_reply: u32,
    },
}

/// What a set of options offers, as plain values.
pub struct OptionsView {
    /// The maximum segment size, if one is offered.
    pub mss: Option<u16>,
    /// The window scale shift count, if one is offered.
    pub window_scale: Option<u8>,
}

impl OptionsView {
    /// No option is offered.
    pub open spec fn empty() -> OptionsView {
        OptionsView { mss: None, window_scale: None }
    }

    /// An offered maximum segment size is positive, and an offered window
    /// scale is at most `MAX_WINDOW_SCALE`.
    pub open spec fn wf(self) -> bool {
        &&& self.mss matches Some(mss) ==> mss > 0
        &&& self.window_scale matches Some(ws) ==> ws <= MAX_WINDOW_SCALE
    }
}

/// Contains all supported TCP options.
#[derive(Debug, PartialEq, Eq, Clone, Copy)]
pub struct Options {
    /// The MSS option (only set on handshake).
    pub mss: Option<Mss>,
    /// The WS option (only set on handshake).
    pub window_scale: Option<WindowScale>,
}

impl View for Options {
    type V = OptionsView;

    /// What the options offer.
    open spec fn view(&self) -> OptionsView {
        OptionsView {
            mss: match self.mss {
                Some(mss) => Some(mss@),
                None => None,
            },
            window_scale: match self.window_scale {
                Some(ws) => Some(ws@),
                None => None,
            },
        }
    }
}

impl Default for Options {
    /// Options that offer nothing.
    fn default() -> (options: Self)
        ensures
            options.mss is None,
            options.window_scale is None,
            options@ == OptionsView::empty(),
    {
        Options { mss: None, window_scale: None }
    }
}

/// The option list that stands for `options`: the maximum segment size if
/// one is offered, then the window scale if one is offered.
pub open spec fn encode(options: OptionsView) -> Seq<TcpOption<'static>> {
    let mss = match options.mss {
        Some(mss) => seq![TcpOption::Mss(mss)],
        None => Seq::empty(),
    };
    let window_scale = match options.window_scale {
        Some(ws) => seq![TcpOption::WindowScale(ws)],
        None => Seq::empty(),
    };
    mss + window_scale
}

/// The options after one more entry was read. A maximum segment size of zero
/// offers none; a window scale over the limit offers the limit; the kinds
/// that are not supported change nothing.
pub open spec fn decode_entry(options: OptionsView, entry: TcpOption) -> OptionsView {
    match entry {
        TcpOption::Mss(mss) => OptionsView {
            mss: if mss == 0 {
                None
            } else {
                Some(mss)
            },
            window_scale: options.window_scale,
        },
        TcpOption::WindowScale(ws) => OptionsView {
            mss: options.mss,
            window_scale: Some(
                if ws > MAX_WINDOW_SCALE {
                    MAX_WINDOW_SCALE
                } else {
                    ws
                },
            ),
        },
        TcpOption::SackPermitted | TcpOption::Sack(_) | TcpOption::Timestamp { .. } => options,
    }
}

/// What an option list offers: its entries are read in order, so of two
/// entries of one kind the later one stands.
pub open spec fn decode(entries: Seq<TcpOption>) -> OptionsView
    decreases entries.len(),
{
    if entries.len() == 0 {
        OptionsView::empty()
    } else {
        decode_entry(decode(entries.drop_last()), entries.last())
    }
}

impl Options {
    /// Returns the contained options as a list of entries, in the order in
    /// which they are written to a segment.
    pub fn iter(&self) -> (entries: Vec<TcpOption<'static>>)
        ensures
            entries@ == encode(self@),
    {
        let mut entries: Vec<TcpOption<'static>> = Vec::new();
        if let Some(mss) = self.mss {
            entries.push(TcpOption::Mss(mss.get()));
        }
        if let Some(ws) = self.window_scale {
            entries.push(TcpOption::WindowScale(ws.get()));
        }
        assert(entries@ =~= encode(self@));
        entries
    }

    /// Creates a new [`Options`] from a list of option entries.
    pub fn from_iter(entries: &[TcpOption]) -> (options: Self)
        ensures
            options@ == decode(entries@),
            options@.wf(),
    {
        let mut options = Options::default();
        let mut i: usize = 0;
        while i < entries.len()
            invariant
                i <= entries@.len(),
                options@ == decode(entries@.take(i as int)),
                options@.wf(),
            decreases entries@.len() - i,
        {
            proof {
                let read = entries@.take(i + 1);
                assert(read.drop_last() =~= entries@.take(i as int));
                assert(read.last() == entries@[i as int]);
            }
            match entries[i] {
                TcpOption::Mss(mss) => {
                    options.mss = Mss::new(mss);
                },
                TcpOption::WindowScale(ws) => {
                    // Per RFC 7323 Section 2.3:
                    //   If a Window Scale option is received with a shift.cnt
                    //   value larger than 14, the TCP SHOULD log the error but
                    //   MUST use 14 instead of the specified value.
                    options.window_scale = Some(
                        match WindowScale::new(ws) {
                            Some(ws) => ws,
                            None => WindowScale::max(),
                        },
                    );
                },
                TcpOption::SackPermitted | TcpOption::Sack(_) | TcpOption::Timestamp { .. } => {},
            }
            i += 1;
        }
        assert(entries@.take(i as int) =~= entries@);
        options
    }
}

/// Options that are written out and read back are unchanged: encoding any
/// well-formed options and decoding the list gives the same options.
pub proof fn lemma_encode_decode_round_trip(options: OptionsView)
    requires
        options.wf(),
    ensures
        decode(encode(options)) == options,
{
    let entries = encode(options);
    reveal_with_fuel(decode, 3);
    match (options.mss, options.window_scale) {
        (Some(mss), Some(ws)) => {
            assert(entries.drop_last() =~= seq![TcpOption::Mss(mss)]);
            assert(entries.drop_last().drop_last() =~= Seq::<TcpOption>::empty());
        },
        (Some(mss), None) => {
            assert(entries =~= seq![TcpOption::Mss(mss)]);
            assert(entries.drop_last() =~= Seq::<TcpOption>::empty());
        },
        (None, Some(ws)) => {
            assert(entries =~= seq![TcpOption::WindowScale(ws)]);
            assert(entries.drop_last() =~= Seq::<TcpOption>::empty());
        },
        (None, None) => {
            assert(entries =~= Seq::<TcpOption>::empty());
        },
    }
}

/// Whatever the entries, the decoded options are well-formed: no maximum
/// segment size of zero, no window scale over the limit.
pub proof fn lemma_decode_wf(entries: Seq<TcpOption>)
    ensures
        decode(entries).wf(),
    decreases entries.len(),
{
    if entries.len() > 0 {
        lemma_decode_wf(entries.drop_last());
    }
}

/// A list that ends in a window scale entry decodes to that shift count where
/// it is within the limit, and to exactly the limit where it is over it.
pub proof fn lemma_decode_window_scale_clamped(entries: Seq<TcpOption>, ws: u8)
    ensures
        decode(entries.push(TcpOption::WindowScale(ws))).window_scale == Some(
            if ws > MAX_WINDOW_SCALE {
                MAX_WINDOW_SCALE
            } else {
                ws
            },
        ),
        decode(entries.push(TcpOption::WindowScale(ws))).mss == decode(entries).mss,
{
    let all = entries.push(TcpOption::WindowScale(ws));
    assert(all.drop_last() =~= entries);
}

/// Whether the entry at `i` is the last maximum segment size entry of the
/// list.
pub open spec fn is_last_mss(entries: Seq<TcpOption>, i: int) -> bool {
    &&& 0 <= i < entries.len()
    &&& entries[i] is Mss
    &&& forall|j: int| i < j < entries.len() ==> !(#[trigger] entries[j] is Mss)
}

/// Whether the entry at `i` is the last window scale entry of the list.
pub open spec fn is_last_window_scale(entries: Seq<TcpOption>, i: int) -> bool {
    &&& 0 <= i < entries.len()
    &&& entries[i] is WindowScale
    &&& forall|j: int| i < j < entries.len() ==> !(#[trigger] entries[j] is WindowScale)
}

/// Of the maximum segment size entries the last one stands: a list without
/// such an entry offers none, and a list whose last such entry holds a size
/// offers that size, or none where it is zero.
pub proof fn lemma_decode_last_mss_wins(entries: Seq<TcpOption>, i: int)
    ensures
        (forall|j: int| 0 <= j < entries.len() ==> !(#[trigger] entries[j] is Mss)) ==> decode(
            entries,
        ).mss is None,
        is_last_mss(entries, i) ==> decode(entries).mss == (if entries[i]->Mss_0 == 0 {
            None
        } else {
            Some(entries[i]->Mss_0)
        }),
    decreases entries.len(),
{
    if entries.len() > 0 {
        let before = entries.drop_last();
        lemma_decode_last_mss_wins(before, i);
        assert forall|j: int| 0 <= j < before.len() implies before[j] == entries[j] by {}
        if forall|j: int| 0 <= j < entries.len() ==> !(#[trigger] entries[j] is Mss) {
            assert forall|j: int| 0 <= j < before.len() implies !(#[trigger] before[j] is Mss) by {
                assert(before[j] == entries[j]);
            }
            assert(!(entries[before.len() as int] is Mss));
        }
        if is_last_mss(entries, i) && i < before.len() {
            assert(!(entries[before.len() as int] is Mss));
            assert(before[i] == entries[i]);
            assert forall|j: int| i < j < before.len() implies !(#[trigger] before[j] is Mss) by {
                assert(before[j] == entries[j]);
            }
            assert(is_last_mss(before, i));
        }
    }
}

/// Of the window scale entries the last one stands: a list without such an
/// entry offers none, and a list whose last such entry holds a shift count
/// offers that shift count, or the limit where it is over the limit.
pub proof fn lemma_decode_last_window_scale_wins(entries: Seq<TcpOption>, i: int)
    ensures
        (forall|j: int| 0 <= j < entries.len() ==> !(#[trigger] entries[j] is WindowScale))
            ==> decode(entries).window_scale is None,
        is_last_window_scale(entries, i) ==> decode(entries).window_scale == Some(
            if entries[i]->WindowScale_0 > MAX_WINDOW_SCALE {
                MAX_WINDOW_SCALE
            } else {
                entries[i]->WindowScale_0
            },
        ),
    decreases entries.len(),
{
    if entries.len() > 0 {
        let before = entries.drop_last();
        lemma_decode_last_window_scale_wins(before, i);
        assert forall|j: int| 0 <= j < before.len() implies before[j] == entries[j] by {}
        if forall|j: int| 0 <= j < entries.len() ==> !(#[trigger] entries[j] is WindowScale) {
            assert forall|j: int| 0 <= j < before.len() implies !(#[trigger] before[j]
                is WindowScale) by {
                assert(before[j] == entries[j]);
            }
            assert(!(entries[before.len() as int] is WindowScale));
        }
        if is_last_window_scale(entries, i) && i < before.len() {
            assert(!(entries[before.len() as int] is WindowScale));
            assert(before[i] == entries[i]);
            assert forall|j: int| i < j < before.len() implies !(#[trigger] before[j]
                is WindowScale) by {
                assert(before[j] == entries[j]);
            }
            assert(is_last_window_scale(before, i));
        }
    }
}

} // verus!
