//! What the resolver may ask of the machine it runs on: environment variables
//! and facts about the system, gathered by the caller and handed in.
use vstd::prelude::*;
use crate::ast::Text;

verus! {

/// Facts about the system, each already in the text form that `$sys.<key>`
/// stands for; `None` where the system could not tell.
pub struct SysInfo {
    pub os: Option<String>,
    pub kernel_version: Option<String>,
    pub os_version: Option<String>,
    pub host_name: Option<String>,
    pub product_name: Option<String>,
    pub cpu_arch: Option<String>,
    pub cpu_count: Option<String>,
    pub memory_total: Option<String>,
    pub memory_free: Option<String>,
    pub memory_used: Option<String>,
    pub uptime: Option<String>,
}

/// The environment variables (name, value) and the system facts that `$env`
/// and `$sys` read.
pub struct Host {
    pub env: Vec<(String, String)>,
    pub sys: SysInfo,
}

impl SysInfo {
    /// No facts at all: every `$sys` key is then unresolvable.
    pub fn unknown() -> (r: SysInfo)
        ensures
            r.os is None && r.kernel_version is None && r.os_version is None && r.host_name is None
                && r.product_name is None && r.cpu_arch is None && r.cpu_count is None
                && r.memory_total is None && r.memory_free is None && r.memory_used is None
                && r.uptime is None,
    {
        SysInfo {
            os: None,
            kernel_version: None,
            os_version: None,
            host_name: None,
            product_name: None,
            cpu_arch: None,
            cpu_count: None,
            memory_total: None,
            memory_free: None,
            memory_used: None,
            uptime: None,
        }
    }
}

impl Host {
    /// A host with the given environment and system facts.
    pub fn new(env: Vec<(String, String)>, sys: SysInfo) -> (r: Host)
        ensures
            r.env == env,
            r.sys == sys,
    {
        Host { env, sys }
    }

    /// A host with no environment variables and no system facts.
    pub fn empty() -> (r: Host)
        ensures
            r.env@.len() == 0,
            r.sys == SysInfo::unknown_spec(),
    {
        Host { env: Vec::new(), sys: SysInfo::unknown() }
    }
}

impl SysInfo {
    pub open spec fn unknown_spec() -> SysInfo {
        SysInfo {
            os: None,
            kernel_version: None,
            os_version: None,
            host_name: None,
            product_name: None,
            cpu_arch: None,
            cpu_count: None,
            memory_total: None,
            memory_free: None,
            memory_used: None,
            uptime: None,
        }
    }
}

/// The value of the first variable named `name`.
pub open spec fn env_lookup(env: Seq<(String, String)>, name: Text) -> Option<Text>
    decreases env.len(),
{
    if env.len() == 0 {
        None
    } else if env[0].0@ == name {
        Some(env[0].1@)
    } else {
        env_lookup(env.drop_first(), name)
    }
}

/// Look up an environment variable.
pub fn env_var(env: &Vec<(String, String)>, name: &String) -> (r: Option<String>)
    ensures
        r is Some <==> env_lookup(env@, name@) is Some,
        r is Some ==> r->0@ == env_lookup(env@, name@)->0,
{
    let mut i: usize = 0;
    assert(env@.skip(0) =~= env@);
    while i < env.len()
        invariant
            i <= env.len(),
            env_lookup(env@.skip(i as int), name@) == env_lookup(env@, name@),
        decreases env.len() - i,
    {
        assert(env@.skip(i as int).drop_first() =~= env@.skip(i + 1));
        if env[i].0 == *name {
            return Some(env[i].1.clone());
        }
        i += 1;
    }
    None
}

} // verus!
