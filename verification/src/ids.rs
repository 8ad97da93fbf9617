//! Identifiers of the ROS 2 data model: DDS entity GUIDs, goal UUIDs,
//! timestamps, and the correlation id that matches a service reply to its
//! request.

use vstd::prelude::*;

verus! {

/// 16-byte globally unique identifier of a DDS reader or writer, held as two
/// 64-bit halves (`hi` holds the first eight wire bytes, big-endian).
/// Stable for the entity's lifetime.
#[derive(Clone, Copy, PartialEq, Eq, Structural, Debug, Hash)]
pub struct Guid {
    pub hi: u64,
    pub lo: u64,
}

/// The same 16 bytes in ROS framing. Nothing but the framing differs, so the
/// library uses one representation for both.
pub type Gid = Guid;

/// 16-byte UUID identifying one invocation of an action. The all-zero id is
/// the sentinel meaning "all goals" in a cancel request.
#[derive(Clone, Copy, PartialEq, Eq, Structural, Debug, Hash)]
pub struct GoalId {
    pub hi: u64,
    pub lo: u64,
}

impl GoalId {
    pub open spec fn spec_is_zero(self) -> bool {
        self.hi == 0 && self.lo == 0
    }

    /// The sentinel "all goals" id.
    pub fn zero() -> (r: GoalId)
        ensures
            r.spec_is_zero(),
            r == (GoalId { hi: 0u64, lo: 0u64 }),
    {
        GoalId { hi: 0, lo: 0 }
    }

    pub fn is_zero(&self) -> (r: bool)
        ensures
            r == self.spec_is_zero(),
    {
        self.hi == 0 && self.lo == 0
    }

    /// Splits a 128-bit value into the two halves of a goal id.
    pub fn from_u128(x: u128) -> (r: GoalId)
        ensures
            r.hi == (x >> 64u128) as u64,
            r.lo == (x & 0xffff_ffff_ffff_ffffu128) as u64,
    {
        GoalId { hi: (x >> 64u128) as u64, lo: (x & 0xffff_ffff_ffff_ffffu128) as u64 }
    }
}

/// A point in time as carried in ROS 2 messages: seconds and nanoseconds.
/// The all-zero time is the sentinel meaning "regardless of time" in a
/// cancel request.
#[derive(Clone, Copy, PartialEq, Eq, Structural, Debug, Hash)]
pub struct Time {
    pub sec: i32,
    pub nanosec: u32,
}

impl Time {
    pub open spec fn spec_is_zero(self) -> bool {
        self.sec == 0 && self.nanosec == 0
    }

    /// Lexicographic order: seconds first, then nanoseconds.
    pub open spec fn spec_le(self, other: Time) -> bool {
        self.sec < other.sec || (self.sec == other.sec && self.nanosec <= other.nanosec)
    }

    pub fn zero() -> (r: Time)
        ensures
            r.spec_is_zero(),
            r == (Time { sec: 0i32, nanosec: 0u32 }),
    {
        Time { sec: 0, nanosec: 0 }
    }

    pub fn is_zero(&self) -> (r: bool)
        ensures
            r == self.spec_is_zero(),
    {
        self.sec == 0 && self.nanosec == 0
    }

    pub fn le(&self, other: &Time) -> (r: bool)
        ensures
            r == self.spec_le(*other),
    {
        self.sec < other.sec || (self.sec == other.sec && self.nanosec <= other.nanosec)
    }
}

/// Correlation id of an outstanding service request: the requesting writer's
/// GUID plus a sequence number that the client allocates monotonically, so
/// ids are unique per client for the client's lifetime.
#[derive(Clone, Copy, PartialEq, Eq, Structural, Debug, Hash)]
pub struct RmwRequestId {
    pub writer_guid: Guid,
    pub seq: u64,
}

} // verus!
