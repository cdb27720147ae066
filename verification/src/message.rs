use vstd::prelude::*;

verus! {

/// Terminal and lifecycle notifications delivered from the dispatch path to
/// the caller: the outcome of a finalized configuration, snapshot
/// completion or teardown of the manager, and a protocol version too old to
/// drive.
#[derive(Clone, Copy, Debug, PartialEq, Eq)]
pub enum Message {
    ConfigurationCancelled,
    ConfigurationFailed,
    ConfigurationSucceeded,
    ManagerDone,
    ManagerFinished,
    Unsupported,
}

} // verus!
