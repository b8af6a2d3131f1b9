//! From a segment as a packet parser hands it over to a [`Segment`].

use crate::base::Control;
use crate::options::{decode, Options, TcpOption};
use crate::payload::lemma_slice_len_fits;
use crate::segment::{discarded_len, kept_control, kept_data_len, Segment};
use crate::seqnum::{SeqNum, UnscaledWindowSize};
use vstd::prelude::*;

verus! {

/// The fields of a TCP segment that was parsed off the wire.
#[derive(Debug, PartialEq, Eq, Clone, Copy)]
pub struct WireSegment<'a, 'o> {
    /// The sequence number.
    pub seq_num: u32,
    /// The acknowledgement number, where the ACK flag is set.
    pub ack_num: Option<u32>,
    /// The sender's window size.
    pub window_size: u16,
    /// The SYN flag.
    pub syn: bool,
    /// The FIN flag.
    pub fin: bool,
    /// The RST flag.
    pub rst: bool,
    /// The options, in the order in which the segment holds them.
    pub options: &'o [TcpOption<'o>],
    /// The segment body.
    pub body: &'a [u8],
}

/// More than one of SYN, FIN and RST is set.
#[derive(Debug, PartialEq, Eq, Clone, Copy)]
pub struct MalformedFlags {
    /// Whether SYN is set.
    pub syn: bool,
    /// Whether FIN is set.
    pub fin: bool,
    /// Whether RST is set.
    pub rst: bool,
}

/// The text that stands for a flag.
pub open spec fn flag_text(flag: bool) -> Seq<char> {
    if flag {
        "true"@
    } else {
        "false"@
    }
}

impl MalformedFlags {
    /// What the error says.
    pub open spec fn message_text(self) -> Seq<char> {
        "multiple mutually exclusive flags are set: syn: "@ + flag_text(self.syn) + ", fin: "@
            + flag_text(self.fin) + ", rst: "@ + flag_text(self.rst)
    }

    /// Says which flags are set.
    pub fn message(&self) -> (text: String)
        ensures
            text@ == self.message_text(),
    {
        let mut text = String::from_str("multiple mutually exclusive flags are set: syn: ");
        text.append(if self.syn { "true" } else { "false" });
        text.append(", fin: ");
        text.append(if self.fin { "true" } else { "false" });
        text.append(", rst: ");
        text.append(if self.rst { "true" } else { "false" });
        text
    }
}

/// How many of the three flags are set.
pub open spec fn flags_set(syn: bool, fin: bool, rst: bool) -> nat {
    (if syn { 1nat } else { 0 }) + (if fin { 1nat } else { 0 }) + (if rst { 1nat } else { 0 })
}

/// The control flag that stands for the flags of a wire segment of which at
/// most one is set.
pub open spec fn control_of_flags(syn: bool, fin: bool, rst: bool) -> Option<Control> {
    if syn {
        Some(Control::SYN)
    } else if fin {
        Some(Control::FIN)
    } else if rst {
        Some(Control::RST)
    } else {
        None
    }
}

impl<'a, 'o> TryFrom<WireSegment<'a, 'o>> for Segment<&'a [u8]> {
    type Error = MalformedFlags;

    /// Converts a parsed wire segment. A segment on which more than one of
    /// SYN, FIN and RST is set is refused; every other one is converted, its
    /// options decoded and its body cut to what a segment can hold.
    fn try_from(from: WireSegment<'a, 'o>) -> (r: Result<Self, MalformedFlags>)
        ensures
            r is Err <==> flags_set(from.syn, from.fin, from.rst) > 1,
            r matches Err(e) ==> e == (MalformedFlags {
                syn: from.syn,
                fin: from.fin,
                rst: from.rst,
            }),
            r matches Ok(seg) ==> {
                let control = control_of_flags(from.syn, from.fin, from.rst);
                &&& seg.seq@ == from.seq_num
                &&& seg.ack is Some <==> from.ack_num is Some
                &&& seg.ack matches Some(ack) ==> from.ack_num == Some(ack@)
                &&& seg.wnd@ == from.window_size
                &&& seg.options@ == decode(from.options@)
                &&& seg.contents.control == kept_control(control, from.body@.len())
                &&& seg.contents.data@ == from.body@.take(
                    kept_data_len(control, from.body@.len()) as int,
                )
                &&& discarded_len(control, from.body@.len()) == 0 ==> seg.contents.data
                    == from.body
                &&& seg.wf()
            },
    {
        let set: u8 = (if from.syn { 1u8 } else { 0u8 }) + (if from.fin { 1u8 } else { 0u8 }) + (
        if from.rst { 1u8 } else { 0u8 });
        if set > 1 {
            return Err(MalformedFlags { syn: from.syn, fin: from.fin, rst: from.rst });
        }
        let control: Option<Control> = if from.syn {
            Some(Control::SYN)
        } else if from.fin {
            Some(Control::FIN)
        } else if from.rst {
            Some(Control::RST)
        } else {
            None
        };
        let options = Options::from_iter(from.options);
        let ack: Option<SeqNum> = match from.ack_num {
            Some(ack) => Some(SeqNum::new(ack)),
            None => None,
        };
        proof {
            lemma_slice_len_fits(from.body);
        }
        let (to, _discarded) = Segment::with_data_options(
            SeqNum::new(from.seq_num),
            ack,
            control,
            UnscaledWindowSize::from(from.window_size),
            from.body,
            options,
        );
        Ok(to)
    }
}

/// What the conversion returns is stated by `try_from` itself, over the views
/// of the segment's parts.
impl<'a, 'o> vstd::std_specs::convert::TryFromSpecImpl<WireSegment<'a, 'o>> for Segment<&'a [u8]> {
    open spec fn obeys_try_from_spec() -> bool {
        false
    }

    open spec fn try_from_spec(from: WireSegment<'a, 'o>) -> Result<Self, MalformedFlags> {
        arbitrary()
    }
}

} // verus!
