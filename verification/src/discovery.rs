//! Finding a camera by its UID: which methods a setting enables, and how the
//! race between them is decided.

use vstd::prelude::*;
use vstd::string::StringExecFns;
use crate::errors::Error;

verus! {

/// An IP address held as plain numbers.
#[derive(Clone, Copy, Debug, PartialEq, Eq)]
pub enum IpAddress {
    /// The four octets of an IPv4 address.
    V4([u8; 4]),
    /// The eight segments of an IPv6 address.
    V6([u16; 8]),
}

/// A resolved transport address.
#[derive(Clone, Copy, Debug, PartialEq, Eq)]
pub struct SocketAddress {
    pub ip: IpAddress,
    pub port: u16,
}

/// How far discovery may go to reach a camera known by UID.
#[derive(Clone, Copy, Debug, PartialEq, Eq)]
pub enum DiscoveryMethods {
    /// No discovery at all.
    Disabled,
    /// A probe on the local network only.
    Local,
    /// Also ask the vendor's registration servers for the camera's address.
    Remote,
    /// Also negotiate hole punching through the vendor's servers.
    MapServer,
    /// Also fall back to the vendor's relay.
    Relay,
    /// The relay alone; meant for testing the relay path.
    Debug,
}

/// The discovery tasks that a setting starts.
#[derive(Clone, Copy, Debug, PartialEq, Eq, Structural)]
pub struct AllowedMethods {
    pub local: bool,
    pub remote: bool,
    pub map: bool,
    pub relay: bool,
}

impl AllowedMethods {
    /// Every task that `self` starts, `other` starts too.
    pub open spec fn within(self, other: AllowedMethods) -> bool {
        &&& self.local ==> other.local
        &&& self.remote ==> other.remote
        &&& self.map ==> other.map
        &&& self.relay ==> other.relay
    }

    /// How many tasks are started.
    pub open spec fn count(self) -> nat {
        (if self.local { 1nat } else { 0nat })
            + (if self.remote { 1nat } else { 0nat })
            + (if self.map { 1nat } else { 0nat })
            + (if self.relay { 1nat } else { 0nat })
    }
}

impl DiscoveryMethods {
    /// The tasks enabled by each setting.
    pub open spec fn allowed(self) -> AllowedMethods {
        match self {
            DiscoveryMethods::Disabled => AllowedMethods { local: false, remote: false, map: false, relay: false },
            DiscoveryMethods::Local => AllowedMethods { local: true, remote: false, map: false, relay: false },
            DiscoveryMethods::Remote => AllowedMethods { local: true, remote: true, map: false, relay: false },
            DiscoveryMethods::MapServer => AllowedMethods { local: true, remote: true, map: true, relay: false },
            DiscoveryMethods::Relay => AllowedMethods { local: true, remote: true, map: true, relay: true },
            DiscoveryMethods::Debug => AllowedMethods { local: false, remote: false, map: false, relay: true },
        }
    }

    /// Position of a setting in the chain from `Disabled` to `Relay`; `Debug`
    /// stands outside the chain.
    pub open spec fn level(self) -> Option<nat> {
        match self {
            DiscoveryMethods::Disabled => Some(0nat),
            DiscoveryMethods::Local => Some(1nat),
            DiscoveryMethods::Remote => Some(2nat),
            DiscoveryMethods::MapServer => Some(3nat),
            DiscoveryMethods::Relay => Some(4nat),
            DiscoveryMethods::Debug => None,
        }
    }

    /// The tasks to start for this setting.
    pub fn allowed_methods(self) -> (mask: AllowedMethods)
        ensures
            mask == self.allowed(),
    {
        match self {
            DiscoveryMethods::Disabled => AllowedMethods { local: false, remote: false, map: false, relay: false },
            DiscoveryMethods::Local => AllowedMethods { local: true, remote: false, map: false, relay: false },
            DiscoveryMethods::Remote => AllowedMethods { local: true, remote: true, map: false, relay: false },
            DiscoveryMethods::MapServer => AllowedMethods { local: true, remote: true, map: true, relay: false },
            DiscoveryMethods::Relay => AllowedMethods { local: true, remote: true, map: true, relay: true },
            DiscoveryMethods::Debug => AllowedMethods { local: false, remote: false, map: false, relay: true },
        }
    }
}

/// Along the chain `Disabled`, `Local`, `Remote`, `MapServer`, `Relay` each setting
/// enables everything the one before it enables and exactly one task more:
/// a setting at level `n` starts `n` tasks, and a lower setting's tasks are
/// among a higher setting's.
pub proof fn lemma_methods_widen(a: DiscoveryMethods, b: DiscoveryMethods)
    requires
        a.level() is Some,
        b.level() is Some,
        a.level().unwrap() <= b.level().unwrap(),
    ensures
        a.allowed().within(b.allowed()),
        a.allowed().count() == a.level().unwrap(),
        a.level().unwrap() < b.level().unwrap() ==> a.allowed() != b.allowed(),
{
}

/// Seconds after which discovery as a whole is given up, whatever the
/// methods still running.
pub const DISCOVERY_CEILING_SECS: u64 = 30;

/// Where discovery found the camera.
#[derive(Clone, Copy, Debug, PartialEq, Eq)]
pub struct Discovery {
    /// The address to speak to.
    pub addr: SocketAddress,
    /// The session id agreed with the camera.
    pub session_id: u32,
}

/// How one discovery task ended.
#[derive(Debug, PartialEq, Eq)]
pub enum TaskOutcome {
    /// The task reached the camera.
    Found(Discovery),
    /// The task gave up; the race goes on.
    Failed,
    /// The task could not be joined; the text describes why.
    Panicked(String),
}

/// Every outcome before position `i` is a plain failure.
pub open spec fn all_failed_before(outcomes: Seq<TaskOutcome>, i: int) -> bool {
    forall|j: int| 0 <= j < i ==> (#[trigger] outcomes[j]) is Failed
}

/// The text that precedes the description of a task that could not be joined.
pub open spec fn panic_prefix() -> Seq<char> {
    "Panic while joining Discovery threads: "@
}

/// What one arrival means for the race: `None` to keep waiting, or the
/// race's result. `event` is `None` when no task is left to wait for.
pub open spec fn step_verdict(
    event: Option<TaskOutcome>,
    verdict: Option<Result<Discovery, Error>>,
) -> bool {
    match event {
        Some(TaskOutcome::Found(disc)) => verdict == Some(Ok::<Discovery, Error>(disc)),
        Some(TaskOutcome::Failed) => verdict is None,
        Some(TaskOutcome::Panicked(detail)) => match verdict {
            Some(Err(Error::OtherString(text))) => text@ == panic_prefix() + detail@,
            _ => false,
        },
        None => verdict == Some(Err::<Discovery, Error>(Error::DiscoveryTimeout)),
    }
}

/// Decides what one arrival means for the race. A success ends it with that
/// discovery; a failure is passed over; a task that could not be joined ends
/// it with an error that carries the description; and when no task is left
/// the race has timed out.
pub fn race_step(event: Option<&TaskOutcome>) -> (verdict: Option<Result<Discovery, Error>>)
    ensures
        step_verdict(
            match event {
                Some(outcome) => Some(*outcome),
                None => None,
            },
            verdict,
        ),
{
    match event {
        Some(TaskOutcome::Found(disc)) => Some(Ok(*disc)),
        Some(TaskOutcome::Failed) => None,
        Some(TaskOutcome::Panicked(detail)) => {
            let text = String::from_str("Panic while joining Discovery threads: ").concat(
                detail.as_str(),
            );
            Some(Err(Error::OtherString(text)))
        },
        None => Some(Err(Error::DiscoveryTimeout)),
    }
}

/// The result of a whole race, given how the tasks ended in the order in
/// which they ended: the first outcome that is not a plain failure decides,
/// whichever method it came from, and a race of failures alone times out.
pub fn settle_race(outcomes: &Vec<TaskOutcome>) -> (result: Result<Discovery, Error>)
    ensures
        match result {
            Ok(disc) => exists|i: int|
                0 <= i < outcomes@.len() && all_failed_before(outcomes@, i)
                    && #[trigger] outcomes@[i] == TaskOutcome::Found(disc),
            Err(Error::OtherString(text)) => exists|i: int|
                0 <= i < outcomes@.len() && all_failed_before(outcomes@, i)
                    && (#[trigger] outcomes@[i]) is Panicked
                    && text@ == panic_prefix() + outcomes@[i]->Panicked_0@,
            Err(Error::DiscoveryTimeout) => all_failed_before(outcomes@, outcomes@.len() as int),
            Err(_) => false,
        },
{
    let mut i: usize = 0;
    while i < outcomes.len()
        invariant
            i <= outcomes@.len(),
            all_failed_before(outcomes@, i as int),
        decreases outcomes@.len() - i,
    {
        match race_step(Some(&outcomes[i])) {
            Some(result) => {
                return result;
            },
            None => {},
        }
        i += 1;
    }
    match race_step(None) {
        Some(result) => result,
        None => Err(Error::DiscoveryTimeout),
    }
}

} // verus!
