//! What the service manager is told of the daemon.
use crate::numbers::{signed_decimal, to_signed_decimal};
use vstd::prelude::*;

verus! {

/// What is done to tell something.
#[derive(Clone, Copy, Debug, PartialEq, Eq, Structural)]
pub enum NotifyStep {
    /// Send the message.
    Send,
    /// Connect to the socket that the environment names, then send the message.
    ConnectAndSend,
    /// There is nobody to tell.
    Skip,
}

/// How something is told: `connected` tells whether there is a socket already,
/// `named` whether the environment names one.
pub fn notify(connected: bool, named: bool) -> (r: NotifyStep)
    ensures
        r == (if connected {
            NotifyStep::Send
        } else if named {
            NotifyStep::ConnectAndSend
        } else {
            NotifyStep::Skip
        }),
{
    if connected {
        NotifyStep::Send
    } else if named {
        NotifyStep::ConnectAndSend
    } else {
        NotifyStep::Skip
    }
}

/// The message that the daemon is ready.
pub fn ready() -> (r: String)
    ensures
        r@ == "READY=1\n"@,
{
    "READY=1\n".to_owned()
}

/// The message that the daemon reloads, with the monotonic time, given in
/// seconds and nanoseconds, in microseconds. A time has no negative nanoseconds.
pub fn begin_reload(seconds: i64, nanoseconds: i64) -> (r: String)
    requires
        0 <= nanoseconds,
        i64::MIN <= seconds * 1_000_000 <= i64::MAX,
        seconds * 1_000_000 + nanoseconds / 1_000 <= i64::MAX,
    ensures
        r@ == "RELOADING=1\nMONOTONIC_USEC="@ + signed_decimal(
            seconds * 1_000_000 + nanoseconds as int / 1_000,
        ) + "\n"@,
{
    let timestamp: i64 = seconds * 1_000_000 + nanoseconds / 1_000;
    let mut r: String = "RELOADING=1\nMONOTONIC_USEC=".to_owned();
    r.append(to_signed_decimal(timestamp).as_str());
    r.append("\n");
    r
}

} // verus!
