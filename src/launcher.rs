use vstd::prelude::*;
use crate::capability::{all_known, capability_list, drop_set, is_known_capability, CapabilityError};
use crate::filter::{baseline_table, build_rules, rules_view, table_rules, table_view, with_baseline, FilterRule, SyscallEntry};
use crate::integrity::{sha512_hex_of, verify_digest, ChecksumError};
use crate::policy::Config;

verus! {

/// Where a launch stands. Phases only move forward; any failure ends in
/// `Failed`.
#[derive(Debug, Clone, Copy, PartialEq, Eq, Structural)]
pub enum Phase {
    Init,
    ConfigLoaded,
    ChecksumVerified,
    CapabilitiesDropped,
    FilterInstalled,
    Execed,
    Failed,
}

/// The work a launch does to leave a phase.
#[derive(Debug, Clone, Copy, PartialEq, Eq, Structural)]
pub enum Step {
    LoadConfig,
    VerifyChecksum,
    DropCapabilities,
    InstallFilter,
    Exec,
}

/// The step that leaves phase `p`; none in a terminal phase.
pub open spec fn pending(p: Phase) -> Option<Step> {
    match p {
        Phase::Init => Some(Step::LoadConfig),
        Phase::ConfigLoaded => Some(Step::VerifyChecksum),
        Phase::ChecksumVerified => Some(Step::DropCapabilities),
        Phase::CapabilitiesDropped => Some(Step::InstallFilter),
        Phase::FilterInstalled => Some(Step::Exec),
        Phase::Execed => None,
        Phase::Failed => None,
    }
}

/// The phase after the pending step of `p` succeeded or failed.
pub open spec fn next_phase(p: Phase, succeeded: bool) -> Phase {
    match p {
        Phase::Execed => Phase::Execed,
        Phase::Failed => Phase::Failed,
        _ => if !succeeded {
            Phase::Failed
        } else {
            match p {
                Phase::Init => Phase::ConfigLoaded,
                Phase::ConfigLoaded => Phase::ChecksumVerified,
                Phase::ChecksumVerified => Phase::CapabilitiesDropped,
                Phase::CapabilitiesDropped => Phase::FilterInstalled,
                _ => Phase::Execed,
            }
        },
    }
}

/// The steps a launch performs from phase `p` when its steps succeed or
/// fail as `outcomes` says, one outcome per step.
pub open spec fn steps_from(p: Phase, outcomes: Seq<bool>) -> Seq<Step>
    decreases outcomes.len(),
{
    match pending(p) {
        None => Seq::empty(),
        Some(s) => if outcomes.len() == 0 {
            Seq::empty()
        } else {
            seq![s] + steps_from(next_phase(p, outcomes[0]), outcomes.drop_first())
        },
    }
}

impl Phase {
    /// The step to perform next, if the launch has not ended.
    pub fn pending_step(&self) -> (r: Option<Step>)
        ensures
            r == pending(*self),
    {
        match self {
            Phase::Init => Some(Step::LoadConfig),
            Phase::ConfigLoaded => Some(Step::VerifyChecksum),
            Phase::ChecksumVerified => Some(Step::DropCapabilities),
            Phase::CapabilitiesDropped => Some(Step::InstallFilter),
            Phase::FilterInstalled => Some(Step::Exec),
            Phase::Execed => None,
            Phase::Failed => None,
        }
    }

    /// The phase after the pending step succeeded or failed.
    pub fn advance(self, succeeded: bool) -> (r: Phase)
        ensures
            r == next_phase(self, succeeded),
    {
        match self {
            Phase::Execed => Phase::Execed,
            Phase::Failed => Phase::Failed,
            Phase::Init => if succeeded { Phase::ConfigLoaded } else { Phase::Failed },
            Phase::ConfigLoaded => if succeeded { Phase::ChecksumVerified } else { Phase::Failed },
            Phase::ChecksumVerified => if succeeded { Phase::CapabilitiesDropped } else { Phase::Failed },
            Phase::CapabilitiesDropped => if succeeded { Phase::FilterInstalled } else { Phase::Failed },
            Phase::FilterInstalled => if succeeded { Phase::Execed } else { Phase::Failed },
        }
    }
}

/// A failed launch performs no further step.
pub proof fn lemma_failed_is_final(outcomes: Seq<bool>)
    ensures
        steps_from(Phase::Failed, outcomes) == Seq::<Step>::empty(),
{
}

/// When the integrity check fails, it is the last step of the launch: no
/// capability is dropped, no filter is installed and nothing is executed.
pub proof fn lemma_checksum_failure_stops(outcomes: Seq<bool>)
    requires
        outcomes.len() > 0,
        !outcomes[0],
    ensures
        steps_from(Phase::ConfigLoaded, outcomes) == seq![Step::VerifyChecksum],
{
    lemma_failed_is_final(outcomes.drop_first());
    assert(seq![Step::VerifyChecksum] + Seq::<Step>::empty() =~= seq![Step::VerifyChecksum]);
}

/// Launches one executable under a policy.
#[derive(Debug)]
pub struct Executor {
    cfg: Config,
}

impl Executor {
    pub closed spec fn config(&self) -> Config {
        self.cfg
    }

    pub fn new(cfg: Config) -> (r: Self)
        ensures
            r.config() == cfg,
    {
        Self { cfg }
    }

    /// Checks the executable's contents against the policy's digest.
    pub fn verify_checksum(&self, contents: &[u8]) -> (r: Result<(), ChecksumError>)
        ensures
            r is Ok <==> sha512_hex_of(contents@) == self.config().checksum_view(),
            r is Err ==> r == Err::<(), ChecksumError>(ChecksumError::Mismatch),
    {
        verify_digest(contents, self.cfg.sha512())
    }

    /// The capabilities to drop: every known one the policy does not allow.
    pub fn capabilities_to_drop(&self) -> (r: Result<Vec<u8>, CapabilityError>)
        ensures
            match self.config().capabilities_view() {
                None => r is Ok,
                Some(v) => all_known(v) <==> r is Ok,
            },
            r is Err ==> r == Err::<Vec<u8>, CapabilityError>(CapabilityError::UnknownCapabilityName),
            r is Ok ==> ({
                let keep = match self.config().capabilities_view() {
                    None => Seq::<u8>::empty(),
                    Some(v) => capability_list(v),
                };
                forall|c: u8| #[trigger] r->Ok_0@.contains(c) <==> is_known_capability(c) && !keep.contains(c)
            }),
    {
        drop_set(&self.cfg)
    }

    /// The syscall table to enforce when the executable's path buffer is at
    /// `path_addr`.
    pub fn allowed_syscalls(&self, path_addr: u64) -> (r: Vec<SyscallEntry>)
        ensures
            table_view(r@) == baseline_table(self.config().syscalls_view(), path_addr),
    {
        with_baseline(&self.cfg.syscalls(), path_addr)
    }

    /// The rules of the filter to install when the executable's path buffer
    /// is at `path_addr`.
    pub fn filter_rules(&self, path_addr: u64) -> (r: Vec<FilterRule>)
        ensures
            rules_view(r@) == table_rules(baseline_table(self.config().syscalls_view(), path_addr)),
    {
        build_rules(&self.allowed_syscalls(path_addr))
    }
}

} // verus!
