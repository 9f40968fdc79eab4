use vstd::prelude::*;

verus! {

/// Errors the decision core reports. Local protocol misuse (calling an
/// operation in the wrong state) is recoverable and returned to the caller;
/// the host layer escalates handshake violations on the target side to
/// process termination, because continuing without a confirmed policy is the
/// failure this library exists to prevent.
#[derive(Clone, Copy, Debug, PartialEq, Eq, Structural)]
pub enum SandboxError {
    /// `run` or `kill` was called on a child whose exit status is already
    /// cached: protocol misuse, nothing is signalled.
    AlreadyExited,
    /// `run` was called a second time on a child that was already resumed:
    /// protocol misuse, the process is not signalled again.
    AlreadyResumed,
    /// The one-shot policy channel endpoint was already consumed.
    ChannelConsumed,
    /// A policy frame may be produced only after the child is confirmed
    /// stopped and resumed.
    NotResumed,
    /// The rendered policy does not fit the maximum on-wire frame size;
    /// sending it is unsupported and fails loudly instead of truncating.
    PolicyTooLarge,
    /// The child exited before reaching its pre-exec stop point, and the
    /// error-report descriptor carried this operating-system error code.
    EarlyExec(u32),
    /// Target-side lockdown was already performed for this process.
    AlreadyLockedDown,
    /// The broker's first message was malformed, of the wrong kind, or the
    /// channel closed before a policy arrived: fatal on the target.
    ProtocolViolation,
    /// The handoff token recovered from the environment does not decode to a
    /// channel endpoint.
    InvalidHandoff,
    /// The program path handed to a spawn was not absolute.
    RelativeProgramPath,
}

} // verus!
