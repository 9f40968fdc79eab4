//! Broker/target role services. A process's role is decided exactly once at
//! start, from the presence of a handoff token in its environment: a token
//! means the process was launched as a target and can recover its policy
//! channel from it; no token means the process is a broker.

use vstd::prelude::*;

use crate::encoding;
use crate::error::SandboxError;
use crate::policy::Policy;
use crate::wire;

verus! {

/// Broker-role services: evidence that this process decided it is the broker.
/// Only role resolution constructs one.
pub struct BrokerServices {
    marker: (),
}

/// Target-role services: the recovered policy channel endpoint, consumed at
/// most once by lockdown.
pub struct TargetServices {
    channel_fd: i32,
    channel_open: bool,
}

/// The role this process runs under, resolved once at start.
pub enum Services {
    Broker(BrokerServices),
    Target(TargetServices),
}

impl TargetServices {
    /// The descriptor of the inbound policy channel.
    pub closed spec fn spec_channel_fd(&self) -> i32 {
        self.channel_fd
    }

    /// Whether the one-shot policy channel is still unconsumed.
    pub closed spec fn spec_channel_open(&self) -> bool {
        self.channel_open
    }

    pub closed spec fn wf(&self) -> bool {
        self.channel_fd >= 0
    }

    /// Begins lockdown: consumes the one-shot policy channel and hands its
    /// descriptor to the host layer, which blocks on it for the one inbound
    /// frame. A second call fails fast rather than silently repeating, since a
    /// silent no-op could mask a missed policy application.
    pub fn lockdown_begin(&mut self) -> (r: Result<i32, SandboxError>)
        ensures
            r is Ok <==> old(self).spec_channel_open(),
            r matches Ok(fd) ==> fd == old(self).spec_channel_fd(),
            r is Err ==> r == Result::<i32, SandboxError>::Err(SandboxError::AlreadyLockedDown),
            !final(self).spec_channel_open(),
            final(self).spec_channel_fd() == old(self).spec_channel_fd(),
            final(self).wf() == old(self).wf(),
    {
        if self.channel_open {
            self.channel_open = false;
            Ok(self.channel_fd)
        } else {
            Err(SandboxError::AlreadyLockedDown)
        }
    }
}

/// Decides what lockdown does with the one inbound message: enact the policy
/// of a well-formed policy-specification frame, and treat everything else —
/// a channel that closed before any message, or a malformed or oversized
/// frame — as a fatal protocol violation. The host layer aborts the process
/// on the violation; it must never continue unsandboxed.
pub fn lockdown_decision(frame: Option<&Vec<u8>>) -> (r: Result<Policy, SandboxError>)
    ensures
        frame is None ==> r == Result::<Policy, SandboxError>::Err(
            SandboxError::ProtocolViolation,
        ),
        frame matches Some(b) ==> ((r matches Ok(p) ==> b@ == wire::spec_policy_frame(
            p.spec_profile(),
            p.spec_params(),
        )) && (forall|pf: Seq<u8>, ps: Seq<(Seq<u8>, Seq<u8>)>|
            (b@ == #[trigger] wire::spec_policy_frame(pf, ps) && b@.len()
                <= crate::MAX_MESSAGE_SIZE) ==> (r matches Ok(p) && p.spec_profile() == pf
                && p.spec_params() == ps)) && (r is Err ==> r == Result::<Policy, SandboxError>::Err(
            SandboxError::ProtocolViolation,
        ))),
{
    match frame {
        None => Err(SandboxError::ProtocolViolation),
        Some(b) => wire::decode_policy_frame(b),
    }
}

/// Resolves the role of the current process from the handoff token found (or
/// not found) in its environment. No token: the process is the broker. A
/// token that decodes to a channel descriptor: a target, holding that
/// channel. A token that does not decode is rejected.
pub fn init_from_token(token: Option<&Vec<u8>>) -> (r: Result<Services, SandboxError>)
    ensures
        token is None ==> (r matches Ok(s) && s is Broker),
        token matches Some(t) ==> if encoding::spec_parse_decimal(t@, 0x7fffffff) is Some {
            r matches Ok(s) && (s matches Services::Target(target)
                && target.spec_channel_fd() as nat == encoding::spec_parse_decimal(
                t@,
                0x7fffffff,
            )->Some_0 && target.spec_channel_open() && target.wf())
        } else {
            r == Result::<Services, SandboxError>::Err(SandboxError::InvalidHandoff)
        },
{
    match token {
        None => Ok(Services::Broker(BrokerServices { marker: () })),
        Some(t) => {
            match encoding::parse_decimal(t, 0x7fffffff) {
                Some(fd) => {
                    let fd_i32: i32 = fd as i32;
                    Ok(
                        Services::Target(
                            TargetServices { channel_fd: fd_i32, channel_open: true },
                        ),
                    )
                },
                None => Err(SandboxError::InvalidHandoff),
            }
        },
    }
}

/// Renders the handoff token a broker plants in a target's environment: the
/// channel descriptor in decimal.
pub fn encode_handoff_token(fd: i32) -> (r: Vec<u8>)
    requires
        fd >= 0,
    ensures
        r@ == encoding::spec_decimal_digits(fd as nat),
{
    encoding::format_decimal(fd as u64)
}

} // verus!
