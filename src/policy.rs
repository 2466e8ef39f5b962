use vstd::prelude::*;
use crate::capability::{all_known, parse_capabilities};
use crate::filter::{table_view, unique_names, SyscallEntry};
use crate::seccomp::{ArgCmp, SYSCALL_ARGS};

verus! {

/// Why a policy could not be had.
#[derive(Debug, Clone, Copy, PartialEq, Eq, Structural)]
pub enum ConfigError {
    /// No policy file exists for the executable.
    NotFound,
    /// The policy file does not conform to the schema.
    ParseError,
    /// The executable path has no base name to derive a policy name from.
    InvalidExecutableName,
    /// The policy names a capability the platform does not know.
    UnknownCapabilityName,
}

pub uninterp spec fn file_stem_of(path: Seq<char>) -> Option<Seq<char>>;

/// Relies on `std::path::Path::file_stem`: the final component of the path
/// without its extension, or none where the path has no final name.
#[verifier::external_body]
fn file_stem(path: &str) -> (r: Option<String>)
    ensures
        file_stem_of(path@) == (match r {
            Some(s) => Some(s@),
            None => None,
        }),
        path@.len() == 0 ==> r.is_none(),
        r is Some ==> forall|i: int| 0 <= i < r->Some_0@.len() ==> r->Some_0@[i] != '/',
{
    std::path::Path::new(path).file_stem().map(|s| s.to_string_lossy().into_owned())
}

/// Extension of policy files.
pub open spec fn policy_extension() -> Seq<char> {
    ".yaml"@
}

/// The name of the policy file for the executable at `exe`: its base name
/// without extension, followed by the policy extension.
pub fn policy_file_name(exe: &str) -> (r: Result<String, ConfigError>)
    ensures
        match file_stem_of(exe@) {
            Some(stem) => r is Ok && r->Ok_0@ == stem + policy_extension(),
            None => r == Err::<String, ConfigError>(ConfigError::InvalidExecutableName),
        },
{
    match file_stem(exe) {
        Some(stem) => {
            let mut name = stem;
            name.append(".yaml");
            Ok(name)
        },
        None => Err(ConfigError::InvalidExecutableName),
    }
}

/// Every argument rule of the table names one of the argument registers.
pub open spec fn args_in_range(t: Seq<(Seq<char>, Seq<ArgCmp>)>) -> bool {
    forall|i: int, j: int| 0 <= i < t.len() && 0 <= j < t[i].1.len() ==> (#[trigger] t[i].1[j]).arg < SYSCALL_ARGS
}

fn has_unique_names(t: &Vec<SyscallEntry>) -> (r: bool)
    ensures
        r == unique_names(table_view(t@)),
{
    let ghost tv = table_view(t@);
    let mut j: usize = 0;
    while j < t.len()
        invariant
            j <= t.len(),
            tv == table_view(t@),
            forall|a: int, b: int| 0 <= a < b < j ==> tv[a].0 != tv[b].0,
        decreases t.len() - j,
    {
        let mut i: usize = 0;
        while i < j
            invariant
                i <= j < t.len(),
                tv == table_view(t@),
                forall|a: int, b: int| 0 <= a < b < j ==> tv[a].0 != tv[b].0,
                forall|a: int| 0 <= a < i ==> tv[a].0 != tv[j as int].0,
            decreases j - i,
        {
            if t[i].name == t[j].name {
                assert(tv[i as int].0 == tv[j as int].0);
                return false;
            }
            i = i + 1;
        }
        j = j + 1;
    }
    true
}

fn has_args_in_range(t: &Vec<SyscallEntry>) -> (r: bool)
    ensures
        r == args_in_range(table_view(t@)),
{
    let ghost tv = table_view(t@);
    let mut i: usize = 0;
    while i < t.len()
        invariant
            i <= t.len(),
            tv == table_view(t@),
            forall|a: int, b: int| 0 <= a < i && 0 <= b < tv[a].1.len() ==> (#[trigger] tv[a].1[b]).arg < SYSCALL_ARGS,
        decreases t.len() - i,
    {
        let rules = &t[i].rules;
        assert(tv[i as int].1 == rules@);
        let mut j: usize = 0;
        while j < rules.len()
            invariant
                i < t.len(),
                j <= rules.len(),
                tv == table_view(t@),
                tv[i as int].1 == rules@,
                forall|a: int, b: int| 0 <= a < i && 0 <= b < tv[a].1.len() ==> (#[trigger] tv[a].1[b]).arg < SYSCALL_ARGS,
                forall|b: int| 0 <= b < j ==> (#[trigger] rules@[b]).arg < SYSCALL_ARGS,
            decreases rules.len() - j,
        {
            if rules[j].arg >= SYSCALL_ARGS {
                assert(tv[i as int].1[j as int].arg >= SYSCALL_ARGS);
                return false;
            }
            j = j + 1;
        }
        i = i + 1;
    }
    true
}

/// A security policy for one executable.
#[derive(Debug)]
pub struct Config {
    /// Lowercase hex SHA-512 digest the executable must have.
    checksum: String,
    /// Capabilities whitelist; none means every capability is dropped.
    capabilities: Option<Vec<String>>,
    /// Syscall whitelist.
    syscalls: Vec<SyscallEntry>,
}

impl Config {
    /// Well-formed: each syscall is listed once and every argument rule
    /// names an argument register.
    pub open spec fn wf(&self) -> bool {
        &&& unique_names(self.syscalls_view())
        &&& args_in_range(self.syscalls_view())
        &&& match self.capabilities_view() {
            Some(v) => all_known(v),
            None => true,
        }
    }

    pub closed spec fn checksum_view(&self) -> Seq<char> {
        self.checksum@
    }

    pub closed spec fn capabilities_view(&self) -> Option<Seq<String>> {
        match self.capabilities {
            Some(v) => Some(v@),
            None => None,
        }
    }

    pub closed spec fn syscalls_view(&self) -> Seq<(Seq<char>, Seq<ArgCmp>)> {
        table_view(self.syscalls@)
    }

    /// A policy from its parsed fields; `ParseError` where a syscall is
    /// listed twice or an argument rule names no argument register, else
    /// `UnknownCapabilityName` where a listed capability is unknown.
    pub fn new(checksum: String, capabilities: Option<Vec<String>>, syscalls: Vec<SyscallEntry>) -> (r: Result<Config, ConfigError>)
        ensures
            !(unique_names(table_view(syscalls@)) && args_in_range(table_view(syscalls@)))
                ==> r == Err::<Config, ConfigError>(ConfigError::ParseError),
            (unique_names(table_view(syscalls@)) && args_in_range(table_view(syscalls@))) ==> (match capabilities {
                Some(v) => if all_known(v@) {
                    r is Ok
                } else {
                    r == Err::<Config, ConfigError>(ConfigError::UnknownCapabilityName)
                },
                None => r is Ok,
            }),
            r is Ok ==> ({
                let c = r->Ok_0;
                &&& c.wf()
                &&& c.checksum_view() == checksum@
                &&& c.capabilities_view() == (match capabilities {
                    Some(v) => Some(v@),
                    None => None::<Seq<String>>,
                })
                &&& c.syscalls_view() == table_view(syscalls@)
            }),
    {
        if !(has_unique_names(&syscalls) && has_args_in_range(&syscalls)) {
            return Err(ConfigError::ParseError);
        }
        if parse_capabilities(&capabilities).is_err() {
            return Err(ConfigError::UnknownCapabilityName);
        }
        Ok(Config { checksum, capabilities, syscalls })
    }

    /// The expected digest of the executable.
    pub fn sha512(&self) -> (r: &str)
        ensures
            r@ == self.checksum_view(),
    {
        self.checksum.as_str()
    }

    /// The capability names of the policy, if it lists any.
    pub fn capability_names(&self) -> (r: &Option<Vec<String>>)
        ensures
            self.capabilities_view() == (match *r {
                Some(v) => Some(v@),
                None => None::<Seq<String>>,
            }),
    {
        &self.capabilities
    }

    /// A copy of the syscall whitelist.
    pub fn syscalls(&self) -> (r: Vec<SyscallEntry>)
        ensures
            table_view(r@) == self.syscalls_view(),
    {
        let ghost tv = table_view(self.syscalls@);
        let mut out: Vec<SyscallEntry> = Vec::new();
        let mut i: usize = 0;
        while i < self.syscalls.len()
            invariant
                i <= self.syscalls.len(),
                tv == table_view(self.syscalls@),
                table_view(out@) == tv.take(i as int),
            decreases self.syscalls.len() - i,
        {
            let e = self.syscalls[i].duplicate();
            assert(e@ == tv[i as int]);
            let ghost prev = table_view(out@);
            out.push(e);
            assert(table_view(out@) =~= prev.push(e@));
            assert(tv.take(i as int + 1) =~= tv.take(i as int).push(tv[i as int]));
            i = i + 1;
        }
        assert(tv.take(i as int) =~= tv);
        out
    }
}

} // verus!
