//! Configuration of one target process to spawn: program path, argument
//! list, explicit environment, optional working directory, and the policy it
//! is to run under.
//!
//! Unlike an ordinary process builder, a command passes no environment to
//! the child by default: every variable the target needs is either set
//! explicitly or flagged for inheritance, so a broker secret cannot leak in
//! by accident. The program path must be absolute; a relative path is
//! rejected at spawn time.

use vstd::prelude::*;

use crate::error::SandboxError;
use crate::policy::Policy;

verus! {

/// What a spawn does about one environment variable.
pub enum EnvAction {
    /// Pass the broker's own value of the variable through, if it has one.
    Inherit,
    /// Set the variable to exactly this value.
    Value(String),
}

/// An environment action, read at the specification level.
pub ghost enum EnvSpec {
    Inherit,
    Value(Seq<char>),
}

pub open spec fn env_action_view(a: EnvAction) -> EnvSpec {
    match a {
        EnvAction::Inherit => EnvSpec::Inherit,
        EnvAction::Value(v) => EnvSpec::Value(v@),
    }
}

/// The variable table an action list denotes; a later entry for the same
/// variable overrides an earlier one.
pub open spec fn env_list_map(l: Seq<(String, EnvAction)>) -> Map<Seq<char>, EnvSpec>
    decreases l.len(),
{
    if l.len() == 0 {
        Map::empty()
    } else {
        env_list_map(l.drop_last()).insert(l.last().0@, env_action_view(l.last().1))
    }
}

/// The variable table after a batch of explicit settings, applied in order.
pub open spec fn envs_after(
    m: Map<Seq<char>, EnvSpec>,
    vars: Seq<(String, String)>,
) -> Map<Seq<char>, EnvSpec>
    decreases vars.len(),
{
    if vars.len() == 0 {
        m
    } else {
        envs_after(m, vars.drop_last()).insert(vars.last().0@, EnvSpec::Value(vars.last().1@))
    }
}

/// Everything a command configures, read at the specification level.
#[verifier::ext_equal]
pub ghost struct CommandView {
    pub program: Seq<char>,
    pub profile: Seq<u8>,
    pub params: Seq<(Seq<u8>, Seq<u8>)>,
    pub args: Seq<Seq<char>>,
    pub envs: Map<Seq<char>, EnvSpec>,
    pub current_dir: Option<Seq<char>>,
}

/// Configuration of one target process to spawn.
pub struct Command {
    program: String,
    policy: Policy,
    arguments: Vec<String>,
    envs: Vec<(String, EnvAction)>,
    current_dir: Option<String>,
}

impl View for Command {
    type V = CommandView;

    closed spec fn view(&self) -> CommandView {
        CommandView {
            program: self.program@,
            profile: self.policy.spec_profile(),
            params: self.policy.spec_params(),
            args: self.arguments@.map_values(|s: String| s@),
            envs: env_list_map(self.envs@),
            current_dir: match self.current_dir {
                Option::None => None,
                Option::Some(d) => Some(d@),
            },
        }
    }
}

impl Command {
    /// A command for a program under a policy: no arguments, no environment,
    /// no working directory yet.
    pub fn new(program: &str, policy: &Policy) -> (r: Command)
        ensures
            r@ == (CommandView {
                program: program@,
                profile: policy.spec_profile(),
                params: policy.spec_params(),
                args: Seq::<Seq<char>>::empty(),
                envs: Map::<Seq<char>, EnvSpec>::empty(),
                current_dir: None,
            }),
    {
        let r = Command {
            program: program.to_owned(),
            policy: policy.clone(),
            arguments: Vec::new(),
            envs: Vec::new(),
            current_dir: None,
        };
        proof {
            assert(r.arguments@.map_values(|s: String| s@) =~= Seq::<Seq<char>>::empty());
            assert(env_list_map(r.envs@) =~= Map::<Seq<char>, EnvSpec>::empty());
        }
        r
    }

    /// Appends one argument.
    pub fn arg(&mut self, arg: &str) -> (r: &mut Self)
        ensures
            (*r)@ == (CommandView { args: old(self)@.args.push(arg@), ..old(self)@ }),
            *final(self) == *final(r),
    {
        self.arguments.push(arg.to_owned());
        proof {
            assert(self.arguments@.map_values(|s: String| s@) =~= old(self)@.args.push(arg@));
            assert(self@ =~= (CommandView { args: old(self)@.args.push(arg@), ..old(self)@ }));
        }
        self
    }

    /// Appends a list of arguments, in order.
    pub fn args(&mut self, args: &Vec<String>) -> (r: &mut Self)
        ensures
            (*r)@ == (CommandView {
                args: old(self)@.args + args@.map_values(|s: String| s@),
                ..old(self)@
            }),
            *final(self) == *final(r),
    {
        let mut i: usize = 0;
        while i < args.len()
            invariant
                i <= args@.len(),
                self.program == old(self).program,
                self.policy == old(self).policy,
                self.envs == old(self).envs,
                self.current_dir == old(self).current_dir,
                self.arguments@.map_values(|s: String| s@) =~= old(self)@.args + args@.subrange(
                    0,
                    i as int,
                ).map_values(|s: String| s@),
            decreases args@.len() - i,
        {
            let ghost prev_args = self.arguments@;
            self.arguments.push(args[i].clone());
            i = i + 1;
            proof {
                assert(self.arguments@ =~= prev_args.push(args@[i - 1]));
                assert(args@.subrange(0, i as int) =~= args@.subrange(0, i - 1 as int).push(
                    args@[i - 1],
                ));
                assert(self.arguments@.map_values(|s: String| s@) =~= prev_args.map_values(
                    |s: String| s@,
                ).push(args@[i - 1]@));
                assert(args@.subrange(0, i as int).map_values(|s: String| s@) =~= args@.subrange(
                    0,
                    i - 1 as int,
                ).map_values(|s: String| s@).push(args@[i - 1]@));
                assert(self.arguments@.map_values(|s: String| s@) =~= old(self)@.args
                    + args@.subrange(0, i as int).map_values(|s: String| s@));
            }
        }
        proof {
            assert(args@.subrange(0, args@.len() as int) =~= args@);
            assert(self@ =~= (CommandView {
                args: old(self)@.args + args@.map_values(|s: String| s@),
                ..old(self)@
            }));
        }
        self
    }

    /// Sets one variable to an explicit value in the child's environment.
    pub fn env(&mut self, key: &str, value: &str) -> (r: &mut Self)
        ensures
            (*r)@ == (CommandView {
                envs: old(self)@.envs.insert(key@, EnvSpec::Value(value@)),
                ..old(self)@
            }),
            *final(self) == *final(r),
    {
        self.envs.push((key.to_owned(), EnvAction::Value(value.to_owned())));
        proof {
            assert(self.envs@.drop_last() =~= old(self).envs@);
            assert(self@ =~= (CommandView {
                envs: old(self)@.envs.insert(key@, EnvSpec::Value(value@)),
                ..old(self)@
            }));
        }
        self
    }

    /// Sets a batch of variables, in order.
    pub fn envs(&mut self, vars: &Vec<(String, String)>) -> (r: &mut Self)
        ensures
            (*r)@ == (CommandView { envs: envs_after(old(self)@.envs, vars@), ..old(self)@ }),
            *final(self) == *final(r),
    {
        let mut i: usize = 0;
        while i < vars.len()
            invariant
                i <= vars@.len(),
                self.program == old(self).program,
                self.policy == old(self).policy,
                self.arguments == old(self).arguments,
                self.current_dir == old(self).current_dir,
                env_list_map(self.envs@) =~= envs_after(
                    old(self)@.envs,
                    vars@.subrange(0, i as int),
                ),
            decreases vars@.len() - i,
        {
            let ghost prev_envs = self.envs@;
            let key = vars[i].0.clone();
            let value = vars[i].1.clone();
            self.envs.push((key, EnvAction::Value(value)));
            i = i + 1;
            proof {
                assert(self.envs@.drop_last() =~= prev_envs);
                assert(vars@.subrange(0, i as int).drop_last() =~= vars@.subrange(0, i - 1 as int));
                assert(vars@.subrange(0, i as int).last() == vars@[i - 1]);
                assert(self.envs@.last().0@ == vars@[i - 1].0@);
                assert(env_action_view(self.envs@.last().1) == EnvSpec::Value(vars@[i - 1].1@));
                assert(env_list_map(self.envs@) =~= envs_after(
                    old(self)@.envs,
                    vars@.subrange(0, i as int),
                ));
            }
        }
        proof {
            assert(vars@.subrange(0, vars@.len() as int) =~= vars@);
            assert(self@ =~= (CommandView {
                envs: envs_after(old(self)@.envs, vars@),
                ..old(self)@
            }));
        }
        self
    }

    /// Removes a variable from the child's environment.
    pub fn env_remove(&mut self, key: &str) -> (r: &mut Self)
        ensures
            (*r)@ == (CommandView { envs: old(self)@.envs.remove(key@), ..old(self)@ }),
            *final(self) == *final(r),
    {
        let k = key.to_owned();
        let mut kept: Vec<(String, EnvAction)> = Vec::new();
        let mut i: usize = 0;
        while i < self.envs.len()
            invariant
                i <= self.envs@.len(),
                k@ == key@,
                env_list_map(kept@) =~= env_list_map(self.envs@.subrange(0, i as int)).remove(
                    key@,
                ),
            decreases self.envs@.len() - i,
        {
            let ghost prev = kept@;
            if !(self.envs[i].0 == k) {
                let entry_key = self.envs[i].0.clone();
                let entry_action = clone_env_action(&self.envs[i].1);
                kept.push((entry_key, entry_action));
            }
            i = i + 1;
            proof {
                assert(self.envs@.subrange(0, i as int).drop_last() =~= self.envs@.subrange(
                    0,
                    i - 1 as int,
                ));
                if self.envs@[i - 1].0@ == key@ {
                    assert(env_list_map(kept@) =~= env_list_map(
                        self.envs@.subrange(0, i as int),
                    ).remove(key@));
                } else {
                    assert(kept@.drop_last() =~= prev);
                    assert(env_list_map(kept@) =~= env_list_map(
                        self.envs@.subrange(0, i as int),
                    ).remove(key@));
                }
            }
        }
        proof {
            assert(self.envs@.subrange(0, self.envs@.len() as int) =~= self.envs@);
        }
        self.envs = kept;
        proof {
            assert(self@ =~= (CommandView { envs: old(self)@.envs.remove(key@), ..old(self)@ }));
        }
        self
    }

    /// Clears the child's environment entirely.
    pub fn env_clear(&mut self) -> (r: &mut Self)
        ensures
            (*r)@ == (CommandView { envs: Map::<Seq<char>, EnvSpec>::empty(), ..old(self)@ }),
            *final(self) == *final(r),
    {
        self.envs = Vec::new();
        proof {
            assert(env_list_map(self.envs@) =~= Map::<Seq<char>, EnvSpec>::empty());
            assert(self@ =~= (CommandView {
                envs: Map::<Seq<char>, EnvSpec>::empty(),
                ..old(self)@
            }));
        }
        self
    }

    /// Flags a variable for inheritance: the child gets the broker's own
    /// value of it at spawn time, if the broker has one.
    pub fn env_inherit(&mut self, key: &str) -> (r: &mut Self)
        ensures
            (*r)@ == (CommandView {
                envs: old(self)@.envs.insert(key@, EnvSpec::Inherit),
                ..old(self)@
            }),
            *final(self) == *final(r),
    {
        self.envs.push((key.to_owned(), EnvAction::Inherit));
        proof {
            assert(self.envs@.drop_last() =~= old(self).envs@);
            assert(self@ =~= (CommandView {
                envs: old(self)@.envs.insert(key@, EnvSpec::Inherit),
                ..old(self)@
            }));
        }
        self
    }

    /// Sets the child's working directory.
    pub fn current_dir(&mut self, dir: &str) -> (r: &mut Self)
        ensures
            (*r)@ == (CommandView { current_dir: Some(dir@), ..old(self)@ }),
            *final(self) == *final(r),
    {
        self.current_dir = Some(dir.to_owned());
        proof {
            assert(self@ =~= (CommandView { current_dir: Some(dir@), ..old(self)@ }));
        }
        self
    }

    /// Precondition check of spawning: the program path must be absolute. A relative
    /// path is rejected before anything is launched.
    pub fn spawn_check(&self) -> (r: Result<(), SandboxError>)
        ensures
            r is Ok <==> (self@.program.len() > 0 && self@.program[0] == '/'),
            r is Err ==> r == Result::<(), SandboxError>::Err(SandboxError::RelativeProgramPath),
    {
        let n = self.program.as_str().unicode_len();
        if n == 0 {
            return Err(SandboxError::RelativeProgramPath);
        }
        let first = self.program.as_str().get_char(0);
        if first == '/' {
            Ok(())
        } else {
            Err(SandboxError::RelativeProgramPath)
        }
    }

    /// The program path.
    pub fn program(&self) -> (r: &String)
        ensures
            r@ == self@.program,
    {
        &self.program
    }

    /// The policy the target is to run under.
    pub fn policy(&self) -> (r: &Policy)
        ensures
            r.spec_profile() == self@.profile,
            r.spec_params() == self@.params,
    {
        &self.policy
    }

    /// The argument list, in order.
    pub fn arguments(&self) -> (r: &Vec<String>)
        ensures
            r@.map_values(|s: String| s@) == self@.args,
    {
        &self.arguments
    }

    /// The environment actions, in the order they were configured; a later
    /// entry for a variable overrides an earlier one.
    pub fn env_actions(&self) -> (r: &Vec<(String, EnvAction)>)
        ensures
            env_list_map(r@) == self@.envs,
    {
        &self.envs
    }

    /// The configured working directory, if any.
    pub fn working_dir(&self) -> (r: &Option<String>)
        ensures
            r is Some <==> self@.current_dir is Some,
            r matches Some(d) ==> self@.current_dir == Some(d@),
    {
        &self.current_dir
    }
}

/// Copies one environment action.
fn clone_env_action(a: &EnvAction) -> (r: EnvAction)
    ensures
        env_action_view(r) == env_action_view(*a),
{
    match a {
        EnvAction::Inherit => EnvAction::Inherit,
        EnvAction::Value(v) => EnvAction::Value(v.clone()),
    }
}

/// What one configured environment entry contributes to the environment the
/// child is spawned with: an explicit value as it stands; an inherited
/// variable resolves to the broker's own value of it, or to nothing when the
/// broker has none.
pub fn resolve_env_entry(action: &EnvAction, ambient: Option<String>) -> (r: Option<String>)
    ensures
        env_action_view(*action) matches EnvSpec::Value(v) ==> (r matches Some(s) && s@ == v),
        env_action_view(*action) is Inherit ==> r == ambient,
{
    match action {
        EnvAction::Inherit => ambient,
        EnvAction::Value(v) => Some(v.clone()),
    }
}

} // verus!
