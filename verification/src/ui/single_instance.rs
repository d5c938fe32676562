//! One instance per user session.

use vstd::prelude::*;

verus! {

/// Name of the mutex that an instance holds. It is local to the user's
/// session, so that two users can run one instance each.
pub const SINGLE_INSTANCE_MUTEX: &'static str = "Local\\airtalk-singleton-v1";

/// Another instance holds the mutex.
#[derive(Debug, Clone, Copy, PartialEq, Eq, Structural)]
pub struct AlreadyRunning;

/// Why the mutex was not taken.
#[derive(Debug)]
pub enum AcquireError {
    AlreadyRunning(AlreadyRunning),
    /// The mutex could not be made, with the system's description.
    CreateFailed(String),
}

impl AlreadyRunning {
    pub fn message(&self) -> (r: String)
        ensures
            r@ == "another airtalk instance is already running"@,
    {
        "another airtalk instance is already running".to_owned()
    }
}

impl AcquireError {
    pub fn message(&self) -> (r: String)
        ensures
            r@ == (match *self {
                AcquireError::AlreadyRunning(_) => "another airtalk instance is already running"@,
                AcquireError::CreateFailed(what) => what@,
            }),
    {
        match self {
            AcquireError::AlreadyRunning(e) => e.message(),
            AcquireError::CreateFailed(what) => what.clone(),
        }
    }
}

/// The result of asking for the mutex: `created` says how making it went, and
/// `already_there` whether somebody else had made it. A mutex that was there is
/// given back.
pub fn acquired(created: Result<(), String>, already_there: bool) -> (r: Result<(), AcquireError>)
    ensures
        match created {
            Err(what) => r matches Err(AcquireError::CreateFailed(got)) && got@ == "CreateMutexW: "@
                + what@,
            Ok(_) => r == (if already_there {
                Err(AcquireError::AlreadyRunning(AlreadyRunning))
            } else {
                Ok(())
            }),
        },
{
    match created {
        Err(what) => Err(
            AcquireError::CreateFailed("CreateMutexW: ".to_owned().concat(what.as_str())),
        ),
        Ok(_) => if already_there {
            Err(AcquireError::AlreadyRunning(AlreadyRunning))
        } else {
            Ok(())
        },
    }
}

} // verus!
