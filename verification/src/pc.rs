//! Presence of the companion computer: whether it is powered on, and whether
//! its session is locked.

use vstd::prelude::*;

verus! {

/// What became of one echo request sent to the computer.
#[derive(Clone, Copy, Debug, PartialEq, Eq, Structural)]
pub enum Echo {
    /// A reply arrived in time.
    Reply,
    /// No reply arrived before the timeout.
    TimedOut,
    /// The network reported that the host cannot be reached.
    Unreachable,
    /// The request could not be sent or the reply not be read, for any other
    /// reason.
    Failed,
}

/// The liveness probe itself failed, so nothing is known of the computer.
#[derive(Clone, Copy, Debug, PartialEq, Eq, Structural)]
pub enum ProbeError {
    Transport,
}

/// Whether the computer's session is locked, as far as it could be found out.
#[derive(Clone, Copy, Debug, PartialEq, Eq, Structural)]
pub enum LockStatus {
    Locked,
    Unlocked,
    /// The status endpoint gave no usable answer.
    Unknown,
}

/// The body with which the status endpoint reports a locked session.
pub open spec fn locked_body() -> Seq<u8> {
    seq![0x31u8]
}

/// The lock status that a response of the status endpoint stands for.
pub open spec fn lock_status_of(response: Option<Seq<u8>>) -> LockStatus {
    match response {
        None => LockStatus::Unknown,
        Some(body) => if body == locked_body() {
            LockStatus::Locked
        } else {
            LockStatus::Unlocked
        },
    }
}

impl LockStatus {
    /// Whether the policy treats the session as locked. An unknown status
    /// counts as unlocked.
    pub open spec fn blocks(self) -> bool {
        self == LockStatus::Locked
    }

    pub fn from_locked(locked: bool) -> (s: LockStatus)
        ensures
            s == (if locked { LockStatus::Locked } else { LockStatus::Unlocked }),
    {
        if locked {
            LockStatus::Locked
        } else {
            LockStatus::Unlocked
        }
    }

    /// The status as a boolean, where it is known.
    pub fn to_bool(self) -> (r: Option<bool>)
        ensures
            r == match self {
                LockStatus::Locked => Some(true),
                LockStatus::Unlocked => Some(false),
                LockStatus::Unknown => None::<bool>,
            },
    {
        match self {
            LockStatus::Locked => Some(true),
            LockStatus::Unlocked => Some(false),
            LockStatus::Unknown => None,
        }
    }

    /// Whether the session is to be treated as locked.
    pub fn is_locked(self) -> (r: bool)
        ensures
            r == self.blocks(),
    {
        match self {
            LockStatus::Locked => true,
            _ => false,
        }
    }
}

/// Whether the computer is powered on, judged by one echo request. Silence is
/// evidence that it is off, not an error.
pub fn is_on(echo: Echo) -> (r: Result<bool, ProbeError>)
    ensures
        r == match echo {
            Echo::Reply => Ok::<bool, ProbeError>(true),
            Echo::TimedOut => Ok(false),
            Echo::Unreachable => Ok(false),
            Echo::Failed => Err(ProbeError::Transport),
        },
{
    match echo {
        Echo::Reply => Ok(true),
        Echo::TimedOut => Ok(false),
        Echo::Unreachable => Ok(false),
        Echo::Failed => Err(ProbeError::Transport),
    }
}

/// The lock status told by the status endpoint. `response` is the body it
/// returned, or `None` where the request failed or the body could not be
/// read. Never fails: a missing answer is `Unknown`.
pub fn is_locked(response: Option<&[u8]>) -> (r: LockStatus)
    ensures
        r == lock_status_of(
            match response {
                Some(body) => Some(body@),
                None => None,
            },
        ),
{
    match response {
        None => LockStatus::Unknown,
        Some(body) => {
            let locked: bool = body.len() == 1 && body[0] == 0x31;
            proof {
                if locked {
                    assert(body@ =~= locked_body());
                } else if body@.len() == 1 {
                    assert(locked_body()[0] == 0x31u8);
                } else {
                    assert(locked_body().len() == 1);
                }
            }
            LockStatus::from_locked(locked)
        },
    }
}

} // verus!
