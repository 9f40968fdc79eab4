use sandbox::command::Command;
use sandbox::command::EnvAction;
use sandbox::command::resolve_env_entry;
use sandbox::error::SandboxError;
use sandbox::policy::Access;
use sandbox::policy::Policy;
use sandbox::policy::PolicyBuilder;
use sandbox::policy::PolicyBuilderExt;
use sandbox::policy::PolicyPreset;
use sandbox::services::BrokerServices;
use sandbox::services::Services;
use sandbox::services::init_from_token;

fn broker() -> BrokerServices {
    match init_from_token(None).unwrap() {
        Services::Broker(b) => b,
        Services::Target(_) => panic!("no token must mean broker role"),
    }
}

#[test]
fn compute_only_renders_default_deny() {
    let mut b = broker();
    let policy = Policy::compute_only(&mut b).unwrap();
    assert_eq!(policy.profile().as_slice(), b"(version 1)\n(deny default)\n");
    assert!(policy.parameters().is_empty());
}

#[test]
fn unrestricted_renders_default_allow() {
    let mut b = broker();
    let policy = PolicyBuilder::new(&mut b, PolicyPreset::Unrestricted).build().unwrap();
    assert_eq!(policy.profile().as_slice(), b"(version 1)\n(allow default)\n");
    assert!(policy.parameters().is_empty());
}

#[test]
fn builder_default_access_override() {
    let mut b = broker();
    let mut builder = Policy::builder(&mut b, PolicyPreset::ComputeOnly);
    builder.set_default_access(Access::Allow);
    let policy = builder.build().unwrap();
    assert_eq!(policy.profile().as_slice(), b"(version 1)\n(allow default)\n");
}

#[test]
fn policy_clone_carries_profile() {
    let mut b = broker();
    let policy = Policy::compute_only(&mut b).unwrap();
    let copy = policy.clone();
    assert_eq!(copy.profile(), policy.profile());
    assert_eq!(copy.parameters().len(), policy.parameters().len());
}

#[test]
fn spawn_check_rejects_relative_program() {
    let mut b = broker();
    let policy = Policy::compute_only(&mut b).unwrap();
    let cmd = Command::new("bin/target", &policy);
    assert_eq!(cmd.spawn_check(), Err(SandboxError::RelativeProgramPath));
    let empty = Command::new("", &policy);
    assert_eq!(empty.spawn_check(), Err(SandboxError::RelativeProgramPath));
    let ok = Command::new("/usr/bin/true", &policy);
    assert_eq!(ok.spawn_check(), Ok(()));
}

fn final_env(cmd: &Command) -> Vec<(String, Option<String>)> {
    // Replay the action list under its last-entry-wins reading.
    let mut table: Vec<(String, Option<String>)> = Vec::new();
    for (key, action) in cmd.env_actions() {
        let resolved = resolve_env_entry(action, Some(String::from("ambient")));
        table.retain(|(k, _)| k != key);
        table.push((key.clone(), resolved));
    }
    table
}

#[test]
fn env_is_explicit_and_last_entry_wins() {
    let mut b = broker();
    let policy = Policy::compute_only(&mut b).unwrap();
    let mut cmd = Command::new("/usr/bin/true", &policy);
    assert!(cmd.env_actions().is_empty());
    cmd.env("HOME", "/home/one");
    cmd.env("PATH", "/bin");
    cmd.env("HOME", "/home/two");
    let env = final_env(&cmd);
    assert_eq!(env.len(), 2);
    assert!(env.contains(&(String::from("PATH"), Some(String::from("/bin")))));
    assert!(env.contains(&(String::from("HOME"), Some(String::from("/home/two")))));
}

#[test]
fn env_remove_and_clear() {
    let mut b = broker();
    let policy = Policy::compute_only(&mut b).unwrap();
    let mut cmd = Command::new("/usr/bin/true", &policy);
    cmd.env("A", "1");
    cmd.env("B", "2");
    cmd.env_remove("A");
    let env = final_env(&cmd);
    assert_eq!(env, vec![(String::from("B"), Some(String::from("2")))]);
    cmd.env_clear();
    assert!(cmd.env_actions().is_empty());
}

#[test]
fn env_inherit_resolves_from_ambient_value() {
    let inherited = resolve_env_entry(&EnvAction::Inherit, Some(String::from("RUST_LOG=debug")));
    assert_eq!(inherited, Some(String::from("RUST_LOG=debug")));
    let absent = resolve_env_entry(&EnvAction::Inherit, None);
    assert_eq!(absent, None);
    let explicit = resolve_env_entry(&EnvAction::Value(String::from("v")), None);
    assert_eq!(explicit, Some(String::from("v")));
}

#[test]
fn args_accumulate_in_order() {
    let mut b = broker();
    let policy = Policy::compute_only(&mut b).unwrap();
    let mut cmd = Command::new("/usr/bin/true", &policy);
    cmd.arg("--first");
    cmd.args(&vec![String::from("a"), String::from("b")]);
    assert_eq!(
        cmd.arguments().as_slice(),
        &[String::from("--first"), String::from("a"), String::from("b")]
    );
    assert!(cmd.working_dir().is_none());
    cmd.current_dir("/tmp");
    assert_eq!(cmd.working_dir(), &Some(String::from("/tmp")));
}
