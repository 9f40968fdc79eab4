use sandbox::MAX_MESSAGE_SIZE;
use sandbox::child::Child;
use sandbox::error::SandboxError;
use sandbox::policy::Policy;
use sandbox::services::BrokerServices;
use sandbox::services::Services;
use sandbox::services::encode_handoff_token;
use sandbox::services::init_from_token;
use sandbox::services::lockdown_decision;
use sandbox::wire::POLICY_TAG;
use sandbox::wire::decode_policy_frame;
use sandbox::wire::encode_policy_frame;

fn broker() -> BrokerServices {
    match init_from_token(None).unwrap() {
        Services::Broker(b) => b,
        Services::Target(_) => panic!("no token must mean broker role"),
    }
}

fn compute_only_policy() -> Policy {
    let mut b = broker();
    Policy::compute_only(&mut b).unwrap()
}

/// A well-formed frame built by hand: tag, profile, then `params` entries.
fn frame_of(profile: &[u8], params: &[(&[u8], &[u8])]) -> Vec<u8> {
    let mut f = vec![POLICY_TAG];
    f.extend_from_slice(&(profile.len() as u32).to_be_bytes());
    f.extend_from_slice(profile);
    f.extend_from_slice(&(params.len() as u32).to_be_bytes());
    for (k, v) in params {
        f.extend_from_slice(&(k.len() as u32).to_be_bytes());
        f.extend_from_slice(k);
        f.extend_from_slice(&(v.len() as u32).to_be_bytes());
        f.extend_from_slice(v);
    }
    f
}

#[test]
fn frame_round_trips_through_the_wire() {
    let policy = compute_only_policy();
    let frame = encode_policy_frame(&policy).unwrap();
    assert!(frame.len() <= MAX_MESSAGE_SIZE);
    assert_eq!(frame, frame_of(b"(version 1)\n(deny default)\n", &[]));
    let received = decode_policy_frame(&frame).unwrap();
    assert_eq!(received.profile(), policy.profile());
    assert!(received.parameters().is_empty());
}

#[test]
fn frame_with_parameters_round_trips() {
    let frame = frame_of(b"(version 1)\n(deny default)\n", &[(b"HOME", b"/tmp"), (b"K", b"")]);
    let policy = decode_policy_frame(&frame).unwrap();
    assert_eq!(policy.profile().as_slice(), b"(version 1)\n(deny default)\n");
    assert_eq!(policy.parameters().len(), 2);
    assert_eq!(policy.parameters()[0].0.as_slice(), b"HOME");
    assert_eq!(policy.parameters()[0].1.as_slice(), b"/tmp");
    assert_eq!(policy.parameters()[1].0.as_slice(), b"K");
    assert_eq!(policy.parameters()[1].1.as_slice(), b"");
    let again = encode_policy_frame(&policy).unwrap();
    assert_eq!(again, frame);
}

#[test]
fn malformed_frames_are_protocol_violations() {
    let good = frame_of(b"(version 1)\n(deny default)\n", &[]);
    let mut bad_tag = good.clone();
    bad_tag[0] = b'Q';
    assert_eq!(decode_policy_frame(&bad_tag).err(), Some(SandboxError::ProtocolViolation));
    let mut truncated = good.clone();
    truncated.pop();
    assert_eq!(decode_policy_frame(&truncated).err(), Some(SandboxError::ProtocolViolation));
    let mut trailing = good.clone();
    trailing.push(0);
    assert_eq!(decode_policy_frame(&trailing).err(), Some(SandboxError::ProtocolViolation));
    assert_eq!(decode_policy_frame(&Vec::new()).err(), Some(SandboxError::ProtocolViolation));
}

#[test]
fn oversized_policy_is_rejected_on_send_not_truncated() {
    // A frame over the wire bound still parses structurally; what must fail,
    // loudly, is sending a policy whose frame would exceed the bound.
    let big_profile = vec![b'x'; MAX_MESSAGE_SIZE];
    let big_frame = frame_of(&big_profile, &[]);
    let big_policy = decode_policy_frame(&big_frame).unwrap();
    assert_eq!(encode_policy_frame(&big_policy), Err(SandboxError::PolicyTooLarge));

    let mut child = Child::new(77, big_policy);
    assert_eq!(child.begin_run(), Ok(()));
    assert_eq!(child.note_resumed(), Ok(()));
    assert_eq!(child.next_policy_frame(), Err(SandboxError::PolicyTooLarge));
}

#[test]
fn run_transitions_at_most_once() {
    let mut child = Child::new(42, compute_only_policy());
    assert_eq!(child.id(), 42);
    assert_eq!(child.begin_run(), Ok(()));
    assert_eq!(child.note_resumed(), Ok(()));
    // A second run is protocol misuse and must not re-signal the process.
    assert_eq!(child.begin_run(), Err(SandboxError::AlreadyResumed));
    assert_eq!(child.note_resumed(), Err(SandboxError::AlreadyResumed));
}

#[test]
fn run_on_exited_child_is_rejected() {
    let mut child = Child::new(42, compute_only_policy());
    child.cache_exit_status(3);
    assert_eq!(child.begin_run(), Err(SandboxError::AlreadyExited));
    assert_eq!(child.note_resumed(), Err(SandboxError::AlreadyExited));
}

#[test]
fn policy_frame_only_after_resume_and_only_once() {
    let mut child = Child::new(42, compute_only_policy());
    assert_eq!(child.next_policy_frame(), Err(SandboxError::NotResumed));
    child.note_resumed().unwrap();
    let frame = child.next_policy_frame().unwrap();
    assert_eq!(frame[0], POLICY_TAG);
    // The one-shot channel is consumed with the first send.
    assert_eq!(child.next_policy_frame(), Err(SandboxError::ChannelConsumed));
}

#[test]
fn wait_status_is_cached_and_idempotent() {
    let mut child = Child::new(42, compute_only_policy());
    assert_eq!(child.status_cached(), None);
    child.cache_exit_status(0);
    assert_eq!(child.status_cached(), Some(0));
    // A later observation never overwrites the first.
    child.cache_exit_status(9);
    assert_eq!(child.status_cached(), Some(0));
    assert_eq!(child.status_cached(), Some(0));
    assert_eq!(Child::wait_outcome(0, None), Ok(0));
    assert_eq!(Child::wait_outcome(0, Some(13)), Err(SandboxError::EarlyExec(13)));
}

#[test]
fn kill_on_exited_child_is_rejected() {
    let mut child = Child::new(42, compute_only_policy());
    assert_eq!(child.begin_kill(), Ok(()));
    child.cache_exit_status(1);
    assert_eq!(child.begin_kill(), Err(SandboxError::AlreadyExited));
}

#[test]
fn early_error_source_is_drained_at_most_once() {
    let mut child = Child::new(42, compute_only_policy());
    assert!(child.take_error_source());
    assert!(!child.take_error_source());
    assert_eq!(Child::early_failure_error(Some(2)), SandboxError::EarlyExec(2));
    assert_eq!(Child::early_failure_error(None), SandboxError::AlreadyExited);
}

#[test]
fn role_is_decided_by_the_handoff_token() {
    match init_from_token(None).unwrap() {
        Services::Broker(_) => {},
        Services::Target(_) => panic!("no token must mean broker role"),
    }
    let token = encode_handoff_token(5);
    assert_eq!(token, b"5".to_vec());
    match init_from_token(Some(&token)).unwrap() {
        Services::Target(mut t) => {
            assert_eq!(t.lockdown_begin(), Ok(5));
            // Lockdown is valid at most once per process.
            assert_eq!(t.lockdown_begin(), Err(SandboxError::AlreadyLockedDown));
        },
        Services::Broker(_) => panic!("a token must mean target role"),
    }
    assert_eq!(
        init_from_token(Some(&b"not a number".to_vec())).map(|_| ()),
        Err(SandboxError::InvalidHandoff)
    );
    assert_eq!(init_from_token(Some(&Vec::new())).map(|_| ()), Err(SandboxError::InvalidHandoff));
}

#[test]
fn lockdown_enacts_exactly_the_policy_sent() {
    // The broker side of the handshake, then the target side, over one frame.
    let policy = compute_only_policy();
    let mut child = Child::new(101, policy.clone());
    child.begin_run().unwrap();
    child.note_resumed().unwrap();
    let frame = child.next_policy_frame().unwrap();

    let token = encode_handoff_token(9);
    let mut target = match init_from_token(Some(&token)).unwrap() {
        Services::Target(t) => t,
        Services::Broker(_) => panic!("a token must mean target role"),
    };
    assert_eq!(target.lockdown_begin(), Ok(9));
    let received = lockdown_decision(Some(&frame)).unwrap();
    assert_eq!(received.profile(), policy.profile());

    // A channel that closes before any policy arrives is fatal.
    assert_eq!(lockdown_decision(None).map(|_| ()), Err(SandboxError::ProtocolViolation));
}
