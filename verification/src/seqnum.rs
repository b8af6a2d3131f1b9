//! Sequence numbers and window sizes.
//!
//! A TCP sequence number lives in a cyclic 32-bit space: there is no total
//! order on it, only a signed distance between two numbers that is meaningful
//! while they are less than half the space apart. Everything here is stated
//! over that distance.

use vstd::prelude::*;

verus! {

/// The size of the sequence space, `2^32`.
pub open spec fn space() -> int {
    0x1_0000_0000
}

/// Half of the sequence space, `2^31`.
pub open spec fn half_space() -> int {
    0x8000_0000
}

/// The signed distance from `b` to `a`: the wrapping difference `a - b`
/// read as a signed 32-bit integer. It lies in `[-2^31, 2^31)`.
pub open spec fn distance(a: u32, b: u32) -> int {
    let d = a - b;
    if d >= half_space() {
        d - space()
    } else if d < -half_space() {
        d + space()
    } else {
        d
    }
}

/// The signed distance is the wrapping difference of the two numbers, read as
/// a signed 32-bit integer.
pub proof fn lemma_distance_is_wrapping_difference(a: u32, b: u32)
    ensures
        distance(a, b) == a.wrapping_sub(b) as i32,
        -half_space() <= distance(a, b) < half_space(),
{
    let d: u32 = a.wrapping_sub(b);
    assert((d as i32) as i64 == (if d < 0x8000_0000u32 {
        d as i64
    } else {
        (d as i64 - 0x1_0000_0000i64) as i64
    })) by (bit_vector);
}

/// The sequence number `n` steps after `a`, wrapping around the space.
pub open spec fn advance(a: u32, n: u32) -> u32 {
    if a + n >= space() {
        (a + n - space()) as u32
    } else {
        (a + n) as u32
    }
}

/// The sequence number `n` steps before `a`, wrapping around the space.
pub open spec fn retreat(a: u32, n: u32) -> u32 {
    if a - n < 0 {
        (a - n + space()) as u32
    } else {
        (a - n) as u32
    }
}

/// The later of two sequence numbers; `b` where neither is after the other.
pub open spec fn later(a: u32, b: u32) -> u32 {
    if distance(a, b) > 0 {
        a
    } else {
        b
    }
}

/// The earlier of two sequence numbers; `a` where neither is after the other.
pub open spec fn earlier(a: u32, b: u32) -> u32 {
    if distance(a, b) <= 0 {
        a
    } else {
        b
    }
}

/// The number of steps from `b` forward to `a`, in `[0, 2^32)`.
pub open spec fn offset_from(a: u32, b: u32) -> int {
    if a >= b {
        a - b
    } else {
        a - b + space()
    }
}

/// Sequence number of a TCP segment.
#[derive(Debug, PartialEq, Eq, Clone, Copy, Structural)]
pub struct SeqNum(u32);

impl View for SeqNum {
    type V = u32;

    /// The 32-bit value.
    closed spec fn view(&self) -> u32 {
        self.0
    }
}

impl SeqNum {
    /// Creates a new sequence number.
    pub fn new(x: u32) -> (s: Self)
        ensures
            s@ == x,
    {
        SeqNum(x)
    }

    /// The raw 32-bit value.
    pub fn get(self) -> (x: u32)
        ensures
            x == self@,
    {
        self.0
    }

    /// Whether `self` is before `other` in the cyclic order.
    pub open spec fn is_before(self, other: SeqNum) -> bool {
        distance(self@, other@) < 0
    }

    /// Whether `self` is after `other` in the cyclic order.
    pub open spec fn is_after(self, other: SeqNum) -> bool {
        distance(self@, other@) > 0
    }

    /// A predicate for whether a sequence number is before another.
    #[verifier::when_used_as_spec(is_before)]
    pub fn before(self, other: SeqNum) -> (b: bool)
        ensures
            b == self.is_before(other),
    {
        self - other < 0
    }

    /// A predicate for whether a sequence number is after another.
    #[verifier::when_used_as_spec(is_after)]
    pub fn after(self, other: SeqNum) -> (b: bool)
        ensures
            b == self.is_after(other),
    {
        self - other > 0
    }

    /// The number of steps from `other` forward to `self`, as an unsigned
    /// offset.
    pub fn offset_from(self, other: SeqNum) -> (n: u32)
        ensures
            n == offset_from(self@, other@),
    {
        self.0.wrapping_sub(other.0)
    }

    /// The later of two sequence numbers; `other` where neither is after
    /// the other.
    pub open spec fn spec_latest(self, other: SeqNum) -> SeqNum {
        if self.is_after(other) {
            self
        } else {
            other
        }
    }

    /// The earlier of two sequence numbers; `self` where neither is after
    /// the other.
    pub open spec fn spec_earliest(self, other: SeqNum) -> SeqNum {
        if self.is_after(other) {
            other
        } else {
            self
        }
    }

    /// The later of two sequence numbers.
    #[verifier::when_used_as_spec(spec_latest)]
    pub fn latest(self, other: SeqNum) -> (s: Self)
        ensures
            s == self.spec_latest(other),
            s@ == later(self@, other@),
    {
        if self.after(other) {
            self
        } else {
            other
        }
    }

    /// The earlier of two sequence numbers.
    #[verifier::when_used_as_spec(spec_earliest)]
    pub fn earliest(self, other: SeqNum) -> (s: Self)
        ensures
            s == self.spec_earliest(other),
            s@ == earlier(self@, other@),
    {
        if self.after(other) {
            other
        } else {
            self
        }
    }
}

impl From<u32> for SeqNum {
    /// The sequence number of the given value.
    fn from(x: u32) -> (s: Self)
        ensures
            s@ == x,
    {
        SeqNum::new(x)
    }
}

impl vstd::std_specs::convert::FromSpecImpl<u32> for SeqNum {
    open spec fn obeys_from_spec() -> bool {
        true
    }

    closed spec fn from_spec(x: u32) -> Self {
        SeqNum(x)
    }
}

impl core::ops::Add<u32> for SeqNum {
    type Output = SeqNum;

    /// The sequence number `rhs` steps after this one.
    fn add(self, rhs: u32) -> (s: SeqNum)
        ensures
            s@ == advance(self@, rhs),
    {
        SeqNum(self.0.wrapping_add(rhs))
    }
}

impl vstd::std_specs::ops::AddSpecImpl<u32> for SeqNum {
    open spec fn obeys_add_spec() -> bool {
        true
    }

    open spec fn add_req(self, rhs: u32) -> bool {
        true
    }

    closed spec fn add_spec(self, rhs: u32) -> SeqNum {
        SeqNum(advance(self.0, rhs))
    }
}

impl core::ops::Add<WindowSize> for SeqNum {
    type Output = SeqNum;

    /// The right edge of a window of `rhs` that starts here.
    fn add(self, rhs: WindowSize) -> (s: SeqNum)
        ensures
            s@ == advance(self@, rhs@),
    {
        SeqNum(self.0.wrapping_add(rhs.get()))
    }
}

impl vstd::std_specs::ops::AddSpecImpl<WindowSize> for SeqNum {
    open spec fn obeys_add_spec() -> bool {
        true
    }

    open spec fn add_req(self, rhs: WindowSize) -> bool {
        true
    }

    closed spec fn add_spec(self, rhs: WindowSize) -> SeqNum {
        SeqNum(advance(self.0, rhs.0))
    }
}

impl core::ops::Sub<u32> for SeqNum {
    type Output = SeqNum;

    /// The sequence number `rhs` steps before this one.
    fn sub(self, rhs: u32) -> (s: SeqNum)
        ensures
            s@ == retreat(self@, rhs),
    {
        SeqNum(self.0.wrapping_sub(rhs))
    }
}

impl vstd::std_specs::ops::SubSpecImpl<u32> for SeqNum {
    open spec fn obeys_sub_spec() -> bool {
        true
    }

    open spec fn sub_req(self, rhs: u32) -> bool {
        true
    }

    closed spec fn sub_spec(self, rhs: u32) -> SeqNum {
        SeqNum(retreat(self.0, rhs))
    }
}

impl core::ops::Sub<SeqNum> for SeqNum {
    type Output = i32;

    /// The signed distance from `rhs` to this sequence number.
    fn sub(self, rhs: SeqNum) -> (d: i32)
        ensures
            d == distance(self@, rhs@),
    {
        proof {
            lemma_distance_is_wrapping_difference(self.0, rhs.0);
        }
        self.0.wrapping_sub(rhs.0) as i32
    }
}

impl vstd::std_specs::ops::SubSpecImpl<SeqNum> for SeqNum {
    open spec fn obeys_sub_spec() -> bool {
        true
    }

    open spec fn sub_req(self, rhs: SeqNum) -> bool {
        true
    }

    closed spec fn sub_spec(self, rhs: SeqNum) -> i32 {
        distance(self.0, rhs.0) as i32
    }
}

/// The order is one of numbers less than half the space apart: of two
/// such numbers one is before the other exactly where the other is after it,
/// and the distance one way is the opposite of the distance the other way.
/// Two numbers exactly half the space apart are each before the other.
pub proof fn lemma_before_is_opposite_of_after(a: u32, b: u32)
    ensures
        distance(a, b) == 0 <==> a == b,
        distance(a, b) != -half_space() ==> distance(b, a) == -distance(a, b),
        distance(a, b) == -half_space() <==> distance(b, a) == -half_space(),
        distance(a, b) != -half_space() ==> (distance(a, b) < 0 <==> distance(b, a) > 0),
{
}

/// Going `n` steps forward from a sequence number leaves it `n` steps behind
/// as an offset, and as a distance too while `n` is less than half the space.
/// Going the offset from one number to another forward from the first
/// arrives at the other.
pub proof fn lemma_advance_and_offset(a: u32, b: u32, n: u32)
    ensures
        offset_from(advance(a, n), a) == n,
        n < half_space() ==> distance(advance(a, n), a) == n,
        advance(b, offset_from(a, b) as u32) == a,
        retreat(advance(a, n), n) == a,
{
}

/// Two sequence numbers are equal exactly where their values are.
pub proof fn lemma_seq_num_eq(a: SeqNum, b: SeqNum)
    ensures
        a == b <==> a@ == b@,
{
}

/// The largest window a receiver can advertise, `2^30 - 1`.
pub const MAX_WINDOW_SIZE: u32 = 0x3FFF_FFFF;

/// The largest shift count of a window scale option.
pub const MAX_WINDOW_SCALE: u8 = 14;

/// A receive window after the scale factor was applied; at most `2^30 - 1`.
#[derive(Debug, PartialEq, Eq, Clone, Copy, Structural)]
pub struct WindowSize(u32);

impl View for WindowSize {
    type V = u32;

    /// The window in bytes.
    closed spec fn view(&self) -> u32 {
        self.0
    }
}

impl WindowSize {
    /// What holds of every window size that the program holds.
    #[verifier::type_invariant]
    closed spec fn within_limit(self) -> bool {
        self.0 <= MAX_WINDOW_SIZE
    }

    /// Every window size is at most `MAX_WINDOW_SIZE`.
    pub open spec fn wf(self) -> bool {
        self@ <= MAX_WINDOW_SIZE
    }

    /// The empty window.
    pub fn zero() -> (w: Self)
        ensures
            w@ == 0,
            w.wf(),
    {
        WindowSize(0)
    }

    /// The largest window.
    pub fn max() -> (w: Self)
        ensures
            w@ == MAX_WINDOW_SIZE,
            w.wf(),
    {
        WindowSize(MAX_WINDOW_SIZE)
    }

    /// A window of `wnd` bytes, or nothing where `wnd` is over the limit.
    pub fn new(wnd: usize) -> (r: Option<Self>)
        ensures
            r is Some <==> wnd <= MAX_WINDOW_SIZE,
            r matches Some(w) ==> w@ == wnd && w.wf(),
    {
        if wnd <= 0x3FFF_FFFFusize {
            Some(WindowSize(wnd as u32))
        } else {
            None
        }
    }

    /// The window in bytes.
    pub fn get(self) -> (x: u32)
        ensures
            x == self@,
            self.wf(),
    {
        proof {
            use_type_invariant(&self);
        }
        self.0
    }
}

/// The shift count of a window scale option; at most 14.
#[derive(Debug, PartialEq, Eq, Clone, Copy, Structural)]
pub struct WindowScale(u8);

impl View for WindowScale {
    type V = u8;

    /// The shift count.
    closed spec fn view(&self) -> u8 {
        self.0
    }
}

impl WindowScale {
    /// What holds of every window scale that the program holds.
    #[verifier::type_invariant]
    closed spec fn within_limit(self) -> bool {
        self.0 <= MAX_WINDOW_SCALE
    }

    /// Every window scale is at most `MAX_WINDOW_SCALE`.
    pub open spec fn wf(self) -> bool {
        self@ <= MAX_WINDOW_SCALE
    }

    /// The largest window scale.
    pub fn max() -> (ws: Self)
        ensures
            ws@ == MAX_WINDOW_SCALE,
            ws.wf(),
    {
        WindowScale(MAX_WINDOW_SCALE)
    }

    /// A window scale of `shift`, or nothing where `shift` is over the limit.
    pub fn new(shift: u8) -> (r: Option<Self>)
        ensures
            r is Some <==> shift <= MAX_WINDOW_SCALE,
            r matches Some(ws) ==> ws@ == shift && ws.wf(),
    {
        if shift <= MAX_WINDOW_SCALE {
            Some(WindowScale(shift))
        } else {
            None
        }
    }

    /// The shift count.
    pub fn get(self) -> (x: u8)
        ensures
            x == self@,
            self.wf(),
    {
        proof {
            use_type_invariant(&self);
        }
        self.0
    }
}

/// A window size as carried on the wire, before scaling.
#[derive(Debug, PartialEq, Eq, Clone, Copy, Structural)]
pub struct UnscaledWindowSize(u16);

impl View for UnscaledWindowSize {
    type V = u16;

    /// The raw 16-bit value.
    closed spec fn view(&self) -> u16 {
        self.0
    }
}

impl UnscaledWindowSize {
    /// The raw 16-bit value.
    pub fn get(self) -> (x: u16)
        ensures
            x == self@,
    {
        self.0
    }
}

impl From<u16> for UnscaledWindowSize {
    /// The window size of the given raw value.
    fn from(value: u16) -> (w: Self)
        ensures
            w@ == value,
    {
        UnscaledWindowSize(value)
    }
}

impl vstd::std_specs::convert::FromSpecImpl<u16> for UnscaledWindowSize {
    open spec fn obeys_from_spec() -> bool {
        true
    }

    closed spec fn from_spec(value: u16) -> Self {
        UnscaledWindowSize(value)
    }
}

} // verus!
