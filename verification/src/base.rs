//! Control flags and the maximum segment size.

use vstd::prelude::*;

verus! {

/// Control flags that can alter the state of a TCP control block.
#[derive(Debug, PartialEq, Eq, Clone, Copy, Structural)]
pub enum Control {
    /// Corresponds to the SYN bit in a TCP segment.
    SYN,
    /// Corresponds to the FIN bit in a TCP segment.
    FIN,
    /// Corresponds to the RST bit in a TCP segment.
    RST,
}

impl Control {
    /// SYN and FIN each occupy one unit of sequence space; RST occupies none.
    pub open spec fn occupies_sequence_no(self) -> bool {
        self is SYN || self is FIN
    }

    /// Returns whether the control flag consumes one byte from the sequence
    /// number space.
    #[verifier::when_used_as_spec(occupies_sequence_no)]
    pub fn has_sequence_no(self) -> (b: bool)
        ensures
            b == self.occupies_sequence_no(),
    {
        match self {
            Control::SYN | Control::FIN => true,
            Control::RST => false,
        }
    }
}

/// The sequence space that an optional control flag occupies: 1 for SYN and
/// FIN, 0 for RST and for no flag.
pub open spec fn control_len(control: Option<Control>) -> nat {
    match control {
        Some(c) => if c.occupies_sequence_no() { 1 } else { 0 },
        None => 0,
    }
}

/// Maximum segment size; never zero.
#[derive(Debug, PartialEq, Eq, Clone, Copy, Structural)]
pub struct Mss(u16);

impl View for Mss {
    type V = u16;

    /// The size in bytes.
    closed spec fn view(&self) -> u16 {
        self.0
    }
}

impl Mss {
    /// What holds of every maximum segment size that the program holds.
    #[verifier::type_invariant]
    closed spec fn positive(self) -> bool {
        self.0 > 0
    }

    /// Every maximum segment size is positive.
    pub open spec fn wf(self) -> bool {
        self@ > 0
    }

    /// A maximum segment size of `size`, or nothing where `size` is zero.
    pub fn new(size: u16) -> (r: Option<Self>)
        ensures
            r is Some <==> size != 0,
            r matches Some(mss) ==> mss@ == size && mss.wf(),
    {
        if size == 0 {
            None
        } else {
            Some(Mss(size))
        }
    }

    /// The size in bytes.
    pub fn get(self) -> (x: u16)
        ensures
            x == self@,
            self.wf(),
    {
        proof {
            use_type_invariant(&self);
        }
        self.0
    }
}

} // verus!
