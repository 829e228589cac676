use vstd::prelude::*;

verus! {

/// The bit pattern of a single-precision IEEE-754 number (`f32::to_bits`),
/// used for latitudes and longitudes.
#[derive(Clone, Copy, Debug, PartialEq, Eq, Structural)]
pub struct Coordinate {
    pub bits: u32,
}

/// Bit pattern of the `f32` value `90.0`.
pub const NINETY_DEGREES_BITS: u32 = 0x42b4_0000u32;

/// Mask that clears the sign bit of an `f32` bit pattern (its absolute value).
pub const MAGNITUDE_MASK: u32 = 0x7fff_ffffu32;

/// For every `f32` `x`, `x.abs() <= 90.0` holds exactly when the bits of
/// `x` without the sign bit are at most the bits of `90.0`: non-negative
/// finite values are ordered like their bit patterns, and every NaN and
/// infinity lies above `90.0` in that order.
pub open spec fn within_ninety_degrees(c: Coordinate) -> bool {
    (c.bits & MAGNITUDE_MASK) <= NINETY_DEGREES_BITS
}

/// Whether the coordinate's absolute value is at most 90 degrees.
pub fn coordinate_within_ninety_degrees(c: Coordinate) -> (r: bool)
    ensures
        r == within_ninety_degrees(c),
{
    (c.bits & MAGNITUDE_MASK) <= NINETY_DEGREES_BITS
}

/// A recorded position of a tracker at a UNIX time in seconds.
#[derive(Clone, Copy, Debug, PartialEq, Eq, Structural)]
pub struct Position {
    pub latitude: Coordinate,
    pub longitude: Coordinate,
    pub tracker_id: i32,
    pub timestamp: i64,
}

/// A position sent by a tracker.
#[derive(Clone, Copy, Debug, PartialEq, Eq, Structural)]
pub struct PositionRequest {
    pub tracker_id: i32,
    pub latitude: Coordinate,
    pub longitude: Coordinate,
}

/// A tracker; `status` 1 means that it has left its safe zone.
#[derive(Clone, Copy, Debug, PartialEq, Eq, Structural)]
pub struct Tracker {
    pub id: i32,
    pub status: i32,
    pub latitude: Coordinate,
    pub longitude: Coordinate,
}

/// The data of a tracker to be created.
#[derive(Clone, Copy, Debug, PartialEq, Eq, Structural)]
pub struct TrackerInsert {
    pub latitude: Coordinate,
    pub longitude: Coordinate,
}

/// A registered user, with the encoded password hash and its salt.
#[derive(Clone, Debug)]
pub struct Watcher {
    pub id: i32,
    pub login: String,
    pub password: String,
    pub salt: Vec<u8>,
}

/// The data of a user to be created.
#[derive(Clone, Debug)]
pub struct WatcherInsert {
    pub login: String,
    pub password: String,
    pub salt: Vec<u8>,
}

/// A user follows a tracker under a name of the user's choice.
#[derive(Clone, Debug)]
pub struct Monitoring {
    pub watcher_id: i32,
    pub tracker_id: i32,
    pub tracker_name: String,
}

/// Names a (user, tracker) pair.
#[derive(Clone, Copy, Debug, PartialEq, Eq, Structural)]
pub struct MonitoringRequest {
    pub watcher_id: i32,
    pub tracker_id: i32,
}

#[derive(Clone, Debug)]
pub struct SignupRequest {
    pub login: String,
    pub password: String,
}

#[derive(Clone, Copy, Debug, PartialEq, Eq, Structural)]
pub struct SignupResponse {
    pub user_id: i32,
    pub success: bool,
}

#[derive(Clone, Debug)]
pub struct LoginRequest {
    pub login: String,
    pub password: String,
}

#[derive(Clone, Debug)]
pub struct LoginResponse {
    pub user_id: i32,
    pub access_token: String,
}

/// The claims carried by an access token.
#[derive(Clone, Copy, Debug, PartialEq, Eq, Structural)]
pub struct Claims {
    pub subject_id: i32,
    pub exp: usize,
}

/// An authenticated request's token claims.
#[derive(Clone, Copy, Debug, PartialEq, Eq, Structural)]
pub struct JWT {
    pub claims: Claims,
}

impl Monitoring {
    /// A copy of the monitoring.
    pub fn duplicate(&self) -> (r: Monitoring)
        ensures
            r == *self,
    {
        Monitoring {
            watcher_id: self.watcher_id,
            tracker_id: self.tracker_id,
            tracker_name: self.tracker_name.clone(),
        }
    }
}

impl Watcher {
    /// A copy of the watcher.
    pub fn duplicate(&self) -> (r: Watcher)
        ensures
            r.id == self.id,
            r.login == self.login,
            r.password == self.password,
            r.salt@ == self.salt@,
    {
        let mut salt: Vec<u8> = Vec::new();
        let mut i: usize = 0;
        while i < self.salt.len()
            invariant
                i <= self.salt.len(),
                salt@ == self.salt@.take(i as int),
            decreases self.salt.len() - i,
        {
            salt.push(self.salt[i]);
            i += 1;
            assert(salt@ =~= self.salt@.take(i as int));
        }
        assert(self.salt@.take(self.salt.len() as int) =~= self.salt@);
        Watcher {
            id: self.id,
            login: self.login.clone(),
            password: self.password.clone(),
            salt,
        }
    }
}

} // verus!
