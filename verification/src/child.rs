//! Broker-side handle for a spawned target: the handshake state machine.
//!
//! A child is created stopped, before its program code has run. `run` is the
//! only transition to the resumed state, and it happens at most once; the
//! policy frame is produced only after that transition, and the one-shot
//! channel that carries it is consumed in the act. The exit status, once
//! observed, is cached and never changes; the early-error descriptor is
//! drained at most once. The host layer performs the waits and signals and
//! feeds what it observed into these functions; every decision — what to
//! signal, what to send, which error to surface — is made here.
//!
//! The resume-then-send ordering leaves a deliberate window in which the
//! target runs but has not yet received its policy; the design accepts it
//! because the target has no attacker-controlled input before lockdown.

use vstd::prelude::*;

use crate::error::SandboxError;
use crate::policy::Policy;
use crate::wire;

verus! {

/// Broker-side handle of one spawned target process.
pub struct Child {
    process_id: i32,
    exit_status: Option<i32>,
    resumed: bool,
    error_source_open: bool,
    channel_open: bool,
    policy_sent: bool,
    policy: Policy,
}

impl Child {
    /// The operating-system id of the child process.
    pub closed spec fn spec_pid(&self) -> i32 {
        self.process_id
    }

    /// The cached raw exit status, set at most once.
    pub closed spec fn spec_exit_status(&self) -> Option<i32> {
        self.exit_status
    }

    /// Whether the child was already resumed from its initial stop.
    pub closed spec fn spec_resumed(&self) -> bool {
        self.resumed
    }

    /// Whether the early-error descriptor is still undrained.
    pub closed spec fn spec_error_source_open(&self) -> bool {
        self.error_source_open
    }

    /// Whether the one-shot policy channel endpoint is still unconsumed.
    pub closed spec fn spec_channel_open(&self) -> bool {
        self.channel_open
    }

    /// Whether a policy frame was produced for this child.
    pub closed spec fn spec_policy_sent(&self) -> bool {
        self.policy_sent
    }

    /// The policy this child is to run under.
    pub closed spec fn spec_policy(&self) -> Policy {
        self.policy
    }

    /// The handle's invariant: a policy frame exists only for a resumed
    /// child, and producing it consumed the channel.
    pub open spec fn wf(&self) -> bool {
        &&& self.spec_pid() > 0
        &&& (self.spec_policy_sent() ==> self.spec_resumed())
        &&& (self.spec_policy_sent() ==> !self.spec_channel_open())
    }

    /// A freshly spawned child: stopped, nothing consumed, nothing cached.
    pub fn new(process_id: i32, policy: Policy) -> (r: Child)
        requires
            process_id > 0,
        ensures
            r.wf(),
            r.spec_pid() == process_id,
            r.spec_exit_status() is None,
            !r.spec_resumed(),
            r.spec_error_source_open(),
            r.spec_channel_open(),
            !r.spec_policy_sent(),
            r.spec_policy() == policy,
    {
        Child {
            process_id,
            exit_status: None,
            resumed: false,
            error_source_open: true,
            channel_open: true,
            policy_sent: false,
            policy,
        }
    }

    /// The child's process id.
    pub fn id(&self) -> (r: u32)
        requires
            self.wf(),
        ensures
            r == self.spec_pid() as u32,
            r as int == self.spec_pid() as int,
    {
        self.process_id as u32
    }

    /// Precondition check of `run`: a child may be resumed only while it is in
    /// its initial stopped state. On an already-exited or already-resumed child
    /// this is protocol misuse; the caller must not touch the process.
    pub fn begin_run(&self) -> (r: Result<(), SandboxError>)
        ensures
            r is Ok <==> (self.spec_exit_status() is None && !self.spec_resumed()),
            self.spec_exit_status() is Some ==> r == Result::<(), SandboxError>::Err(
                SandboxError::AlreadyExited,
            ),
            (self.spec_exit_status() is None && self.spec_resumed()) ==> r == Result::<
                (),
                SandboxError,
            >::Err(SandboxError::AlreadyResumed),
    {
        if self.exit_status.is_some() {
            Err(SandboxError::AlreadyExited)
        } else if self.resumed {
            Err(SandboxError::AlreadyResumed)
        } else {
            Ok(())
        }
    }

    /// Records that the child was confirmed stopped and the continue signal
    /// was delivered. At most one call ever succeeds: on a child that is
    /// already resumed, or whose exit status is cached, nothing changes and
    /// the misuse error is returned, so a repeated `run` cannot re-signal.
    pub fn note_resumed(&mut self) -> (r: Result<(), SandboxError>)
        ensures
            r is Ok <==> (old(self).spec_exit_status() is None && !old(self).spec_resumed()),
            old(self).spec_exit_status() is Some ==> r == Result::<(), SandboxError>::Err(
                SandboxError::AlreadyExited,
            ),
            (old(self).spec_exit_status() is None && old(self).spec_resumed()) ==> r == Result::<
                (),
                SandboxError,
            >::Err(SandboxError::AlreadyResumed),
            r is Ok ==> final(self).spec_resumed(),
            r is Err ==> *final(self) == *old(self),
            final(self).spec_pid() == old(self).spec_pid(),
            final(self).spec_exit_status() == old(self).spec_exit_status(),
            final(self).spec_error_source_open() == old(self).spec_error_source_open(),
            final(self).spec_channel_open() == old(self).spec_channel_open(),
            final(self).spec_policy_sent() == old(self).spec_policy_sent(),
            final(self).spec_policy() == old(self).spec_policy(),
            old(self).wf() ==> final(self).wf(),
    {
        if self.exit_status.is_some() {
            Err(SandboxError::AlreadyExited)
        } else if self.resumed {
            Err(SandboxError::AlreadyResumed)
        } else {
            self.resumed = true;
            Ok(())
        }
    }

    /// Caches an observed raw exit status. The cache is monotonic: the first
    /// observation sticks, a later call never overwrites it, so `wait` and
    /// `try_wait` surface the identical status every time.
    pub fn cache_exit_status(&mut self, raw_status: i32)
        ensures
            old(self).spec_exit_status() is None ==> final(self).spec_exit_status() == Some(
                raw_status,
            ),
            old(self).spec_exit_status() is Some ==> final(self).spec_exit_status() == old(
                self,
            ).spec_exit_status(),
            final(self).spec_pid() == old(self).spec_pid(),
            final(self).spec_resumed() == old(self).spec_resumed(),
            final(self).spec_error_source_open() == old(self).spec_error_source_open(),
            final(self).spec_channel_open() == old(self).spec_channel_open(),
            final(self).spec_policy_sent() == old(self).spec_policy_sent(),
            final(self).spec_policy() == old(self).spec_policy(),
            old(self).wf() ==> final(self).wf(),
    {
        if self.exit_status.is_none() {
            self.exit_status = Some(raw_status);
        }
    }

    /// The cached exit status, if any. Pure: `wait` and `try_wait` consult it
    /// first and return it unchanged once it is set.
    pub fn status_cached(&self) -> (r: Option<i32>)
        ensures
            r == self.spec_exit_status(),
    {
        self.exit_status
    }

    /// Takes the one-shot early-error descriptor: reports whether it was
    /// still there, and consumes it either way, so it is drained at most
    /// once.
    pub fn take_error_source(&mut self) -> (r: bool)
        ensures
            r == old(self).spec_error_source_open(),
            !final(self).spec_error_source_open(),
            final(self).spec_pid() == old(self).spec_pid(),
            final(self).spec_exit_status() == old(self).spec_exit_status(),
            final(self).spec_resumed() == old(self).spec_resumed(),
            final(self).spec_channel_open() == old(self).spec_channel_open(),
            final(self).spec_policy_sent() == old(self).spec_policy_sent(),
            final(self).spec_policy() == old(self).spec_policy(),
            old(self).wf() ==> final(self).wf(),
    {
        let had = self.error_source_open;
        self.error_source_open = false;
        had
    }

    /// Produces the policy frame to send over the one-shot channel,
    /// consuming the channel. Only a resumed child may be sent policy; a
    /// frame over the wire-size bound is an explicit unsupported case, and
    /// the channel is consumed even then, as the send was attempted.
    pub fn next_policy_frame(&mut self) -> (r: Result<Vec<u8>, SandboxError>)
        ensures
            r is Ok <==> (old(self).spec_resumed() && old(self).spec_channel_open()
                && wire::spec_policy_frame(
                old(self).spec_policy().spec_profile(),
                old(self).spec_policy().spec_params(),
            ).len() <= crate::MAX_MESSAGE_SIZE),
            r matches Ok(frame) ==> frame@ == wire::spec_policy_frame(
                old(self).spec_policy().spec_profile(),
                old(self).spec_policy().spec_params(),
            ),
            !old(self).spec_resumed() ==> r == Result::<Vec<u8>, SandboxError>::Err(
                SandboxError::NotResumed,
            ) && *final(self) == *old(self),
            (old(self).spec_resumed() && !old(self).spec_channel_open()) ==> r == Result::<
                Vec<u8>,
                SandboxError,
            >::Err(SandboxError::ChannelConsumed) && *final(self) == *old(self),
            (old(self).spec_resumed() && old(self).spec_channel_open()) ==> (
            !final(self).spec_channel_open() && final(self).spec_policy_sent() == (r is Ok)),
            (old(self).spec_resumed() && old(self).spec_channel_open() && r is Err) ==> r
                == Result::<Vec<u8>, SandboxError>::Err(SandboxError::PolicyTooLarge),
            final(self).spec_pid() == old(self).spec_pid(),
            final(self).spec_exit_status() == old(self).spec_exit_status(),
            final(self).spec_resumed() == old(self).spec_resumed(),
            final(self).spec_error_source_open() == old(self).spec_error_source_open(),
            final(self).spec_policy() == old(self).spec_policy(),
            old(self).wf() ==> final(self).wf(),
    {
        if !self.resumed {
            return Err(SandboxError::NotResumed);
        }
        if !self.channel_open {
            return Err(SandboxError::ChannelConsumed);
        }
        self.channel_open = false;
        match wire::encode_policy_frame(&self.policy) {
            Ok(frame) => {
                self.policy_sent = true;
                Ok(frame)
            },
            Err(e) => {
                self.policy_sent = false;
                Err(e)
            },
        }
    }

    /// The error `run` surfaces when the child turned out to have exited
    /// before reaching its stop point: the operating-system code recovered
    /// from the error-report descriptor when there is one, the generic
    /// already-exited error otherwise.
    pub fn early_failure_error(early: Option<u32>) -> (r: SandboxError)
        ensures
            early matches Some(code) ==> r == SandboxError::EarlyExec(code),
            early is None ==> r == SandboxError::AlreadyExited,
    {
        match early {
            Some(code) => SandboxError::EarlyExec(code),
            None => SandboxError::AlreadyExited,
        }
    }

    /// What `wait` returns once an exit status is in hand: the early-exec
    /// error when the error-report descriptor carried one, the status
    /// itself otherwise.
    pub fn wait_outcome(raw_status: i32, early: Option<u32>) -> (r: Result<i32, SandboxError>)
        ensures
            early matches Some(code) ==> r == Result::<i32, SandboxError>::Err(
                SandboxError::EarlyExec(code),
            ),
            early is None ==> r == Result::<i32, SandboxError>::Ok(raw_status),
    {
        match early {
            Some(code) => Err(SandboxError::EarlyExec(code)),
            None => Ok(raw_status),
        }
    }

    /// Precondition check of `kill`: a termination signal may be sent only while no
    /// exit status is cached. On an already-exited child this is protocol
    /// misuse and nothing is signalled.
    pub fn begin_kill(&self) -> (r: Result<(), SandboxError>)
        ensures
            r is Ok <==> self.spec_exit_status() is None,
            self.spec_exit_status() is Some ==> r == Result::<(), SandboxError>::Err(
                SandboxError::AlreadyExited,
            ),
    {
        if self.exit_status.is_some() {
            Err(SandboxError::AlreadyExited)
        } else {
            Ok(())
        }
    }
}

/// A policy frame exists only for a child that went through the resume
/// transition: the target cannot have been sent policy while it was still
/// stopped.
pub proof fn lemma_policy_only_after_resume(c: Child)
    requires
        c.wf(),
        c.spec_policy_sent(),
    ensures
        c.spec_resumed(),
        !c.spec_channel_open(),
{
}

} // verus!
