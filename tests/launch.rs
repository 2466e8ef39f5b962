use secexec::capability::{capabilities_to_drop, parse_capabilities, CapabilityError};
use secexec::filter::{build_rules, default_filter_action, evaluate, with_baseline, FilterRule, SyscallEntry, EPERM};
use secexec::integrity::{checksum_matches, verify_digest, ChecksumError};
use secexec::launcher::{Executor, Phase, Step};
use secexec::policy::{policy_file_name, Config, ConfigError};
use secexec::seccomp::{Action, ArgCmp, Op, SeccompInitFailed};

const ABC_SHA512: &str = "ddaf35a193617abacc417349ae20413112e6fa4e89a97ea20a9eeee64b55d39a2192992a274fc1a836ba3c23a3feebbd454d4423643ce80e2a9ac94fa54ca49f";
const AGENT: &[u8] = b"agent binary v1";
const AGENT_SHA512: &str = "5bb057cecdb9f5ff18cb2c28fc82d52a10c659c59ab0c7444e224be19e09de8e7a0cd79d9769550948f703aeb043f2a1c0994a59f90f8d39f98e242a08624aaf";
const PATH_ADDR: u64 = 0x7ffd_1234_5678;

fn entry(name: &str, rules: Vec<ArgCmp>) -> SyscallEntry {
    SyscallEntry { name: name.to_string(), rules }
}

fn agent_config() -> Config {
    Config::new(
        AGENT_SHA512.to_string(),
        Some(vec!["NET_BIND_SERVICE".to_string()]),
        vec![
            entry("read", vec![]),
            entry("write", vec![]),
            entry("openat", vec![ArgCmp::new(0, Op::Eq, 3, 0)]),
        ],
    )
    .unwrap()
}

fn decide(rules: &Vec<FilterRule>, name: &str, args: [u64; 6]) -> Action {
    evaluate(rules, &name.to_string(), &args)
}

fn count_rules(rules: &[FilterRule], name: &str) -> usize {
    rules.iter().filter(|r| r.syscall == name).count()
}

#[test]
fn arg_cmp_new_keeps_fields() {
    let c = ArgCmp::new(2, Op::MaskedEq, 0x10, 0xf0);
    assert_eq!(c.arg, 2);
    assert_eq!(c.op, Op::MaskedEq);
    assert_eq!(c.a, 0x10);
    assert_eq!(c.b, 0xf0);
}

#[test]
fn kernel_operands_mask_both_sides() {
    assert_eq!(ArgCmp::new(0, Op::Eq, 7, 9).kernel_operands(), (7, 9));
    assert_eq!(ArgCmp::new(0, Op::MaskedEq, 0x1f, 0xf0).kernel_operands(), (0xf0, 0x10));
}

#[test]
fn action_codes() {
    assert_eq!(Action::Allow.code(), 0x7fff0000);
    assert_eq!(Action::Kill.code(), 0);
    assert_eq!(Action::Trap.code(), 0x00030000);
    assert_eq!(Action::Errno(EPERM).code(), 0x00050001);
    assert_eq!(Action::Errno(0x12345).code(), 0x00052345);
    assert_eq!(Action::Trace(7).code(), 0x7ff00007);
}

#[test]
fn init_failure_message() {
    assert_eq!(SeccompInitFailed.message(), "seccomp initialization failed");
}

#[test]
fn policy_name_from_base_name() {
    assert_eq!(policy_file_name("/usr/bin/agent"), Ok("agent.yaml".to_string()));
    assert_eq!(policy_file_name("tools/run.sh"), Ok("run.yaml".to_string()));
    assert_eq!(policy_file_name("agent"), Ok("agent.yaml".to_string()));
}

#[test]
fn policy_name_needs_a_base_name() {
    assert_eq!(policy_file_name(""), Err(ConfigError::InvalidExecutableName));
    assert_eq!(policy_file_name("/"), Err(ConfigError::InvalidExecutableName));
    assert_eq!(policy_file_name(".."), Err(ConfigError::InvalidExecutableName));
}

#[test]
fn config_rejects_repeated_syscall() {
    let r = Config::new(String::new(), None, vec![entry("read", vec![]), entry("read", vec![])]);
    assert_eq!(r.err(), Some(ConfigError::ParseError));
}

#[test]
fn config_rejects_argument_out_of_range() {
    let r = Config::new(String::new(), None, vec![entry("openat", vec![ArgCmp::new(6, Op::Eq, 1, 0)])]);
    assert_eq!(r.err(), Some(ConfigError::ParseError));
    let ok = Config::new(String::new(), None, vec![entry("openat", vec![ArgCmp::new(5, Op::Eq, 1, 0)])]);
    assert!(ok.is_ok());
}

#[test]
fn config_getters() {
    let cfg = agent_config();
    assert_eq!(cfg.sha512(), AGENT_SHA512);
    assert_eq!(cfg.capability_names(), &Some(vec!["NET_BIND_SERVICE".to_string()]));
    let names: Vec<String> = cfg.syscalls().into_iter().map(|e| e.name).collect();
    assert_eq!(names, vec!["read", "write", "openat"]);
}

#[test]
fn capability_names_are_canonicalised() {
    let names = Some(vec!["net_bind_service".to_string(), "CAP_CHOWN".to_string(), "Kill".to_string()]);
    assert_eq!(parse_capabilities(&names), Ok(vec![10, 0, 5]));
}

#[test]
fn config_capabilities() {
    assert_eq!(agent_config().capabilities(), Ok(vec![10]));
    let none = Config::new(String::new(), None, vec![]).unwrap();
    assert_eq!(none.capabilities(), Ok(vec![]));
}

#[test]
fn omitted_capabilities_allow_none() {
    assert_eq!(parse_capabilities(&None), Ok(vec![]));
}

#[test]
fn unknown_capability_is_rejected() {
    let names = Some(vec!["CHOWN".to_string(), "FLY".to_string()]);
    assert_eq!(parse_capabilities(&names), Err(CapabilityError::UnknownCapabilityName));
}

#[test]
fn drop_list_is_the_complement() {
    assert_eq!(capabilities_to_drop(&vec![0, 5, 10, 21], &vec![10, 3]), vec![0, 5, 21]);
    assert_eq!(capabilities_to_drop(&vec![1, 2], &vec![]), vec![1, 2]);
    assert_eq!(capabilities_to_drop(&vec![1, 2], &vec![2, 1]), Vec::<u8>::new());
}

#[test]
fn guard_drops_all_but_the_allow_list() {
    let exec = Executor::new(agent_config());
    let drop = exec.capabilities_to_drop().unwrap();
    assert!(!drop.contains(&10));
    assert_eq!(drop.len(), 40);
    for c in 0u8..=40 {
        if c != 10 {
            assert!(drop.contains(&c));
        }
    }
}

#[test]
fn guard_without_list_drops_everything() {
    let cfg = Config::new(AGENT_SHA512.to_string(), None, vec![]).unwrap();
    let drop = Executor::new(cfg).capabilities_to_drop().unwrap();
    assert_eq!(drop.len(), 41);
}

#[test]
fn unknown_capability_rejected_when_parsed() {
    let r = Config::new(AGENT_SHA512.to_string(), Some(vec!["NET_BIND_SERVICE".to_string(), "NOPE".to_string()]), vec![]);
    assert_eq!(r.err(), Some(ConfigError::UnknownCapabilityName));
    let r = Config::new(String::new(), Some(vec!["cap_nothing".to_string()]), vec![entry("read", vec![]), entry("read", vec![])]);
    assert_eq!(r.err(), Some(ConfigError::ParseError));
}

#[test]
fn digest_is_lowercase_hex() {
    let d = ABC_SHA512.to_string();
    assert_eq!(verify_digest(b"abc", &d), Ok(()));
    assert_eq!(d.len(), 128);
    assert_eq!(verify_digest(b"abc", &d[..127]), Err(ChecksumError::Mismatch));
}

#[test]
fn default_action_denies_with_eperm() {
    assert_eq!(default_filter_action(), Action::Errno(1));
}

#[test]
fn digest_of_known_contents() {
    assert_eq!(verify_digest(b"abc", ABC_SHA512), Ok(()));
    assert_eq!(verify_digest(b"abd", ABC_SHA512), Err(ChecksumError::Mismatch));
}

#[test]
fn digest_comparison_is_case_sensitive() {
    let upper = ABC_SHA512.to_uppercase();
    assert_eq!(verify_digest(b"abc", &upper), Err(ChecksumError::Mismatch));
    assert!(checksum_matches("ab", "ab"));
    assert!(!checksum_matches("ab", "AB"));
}

#[test]
fn tampered_binary_stops_before_any_restriction() {
    let exec = Executor::new(agent_config());
    let mut phase = Phase::ConfigLoaded;
    assert_eq!(phase.pending_step(), Some(Step::VerifyChecksum));
    let ok = exec.verify_checksum(b"agent binary v2").is_ok();
    assert!(!ok);
    assert_eq!(exec.verify_checksum(b"agent binary v2"), Err(ChecksumError::Mismatch));
    phase = phase.advance(ok);
    assert_eq!(phase, Phase::Failed);
    assert_eq!(phase.pending_step(), None);
    assert_eq!(phase.advance(true), Phase::Failed);
}

#[test]
fn phases_run_in_order() {
    let mut phase = Phase::Init;
    let mut steps = Vec::new();
    while let Some(step) = phase.pending_step() {
        steps.push(step);
        phase = phase.advance(true);
    }
    assert_eq!(
        steps,
        vec![Step::LoadConfig, Step::VerifyChecksum, Step::DropCapabilities, Step::InstallFilter, Step::Exec]
    );
    assert_eq!(phase, Phase::Execed);
    assert_eq!(Phase::CapabilitiesDropped.advance(false), Phase::Failed);
}

#[test]
fn agent_scenario() {
    let exec = Executor::new(agent_config());
    assert_eq!(exec.verify_checksum(AGENT), Ok(()));
    let drop = exec.capabilities_to_drop().unwrap();
    assert!(!drop.contains(&10));
    let rules = exec.filter_rules(PATH_ADDR);
    let allow = Action::Allow;
    let deny = Action::Errno(EPERM);
    assert_eq!(decide(&rules, "read", [0, 1, 2, 3, 4, 5]), allow);
    assert_eq!(decide(&rules, "write", [9, 9, 9, 9, 9, 9]), allow);
    assert_eq!(decide(&rules, "openat", [3, 0, 0, 0, 0, 0]), allow);
    assert_eq!(decide(&rules, "openat", [4, 0, 0, 0, 0, 0]), deny);
    assert_eq!(decide(&rules, "execve", [PATH_ADDR, 0, 0, 0, 0, 0]), allow);
    assert_eq!(decide(&rules, "execve", [PATH_ADDR + 8, 0, 0, 0, 0, 0]), deny);
    assert_eq!(decide(&rules, "exit", [1, 0, 0, 0, 0, 0]), allow);
    assert_eq!(decide(&rules, "exit_group", [0, 0, 0, 0, 0, 0]), allow);
    assert_eq!(decide(&rules, "socket", [2, 1, 0, 0, 0, 0]), deny);
    assert_eq!(decide(&rules, "ptrace", [0, 0, 0, 0, 0, 0]), deny);
}

#[test]
fn each_argument_rule_is_one_alternative() {
    let table = vec![
        entry("read", vec![]),
        entry("ioctl", vec![ArgCmp::new(1, Op::Eq, 0x5401, 0), ArgCmp::new(1, Op::MaskedEq, 0x8000, 0xf000)]),
    ];
    let rules = build_rules(&table);
    assert_eq!(rules.len(), 3);
    assert_eq!(count_rules(&rules, "read"), 1);
    assert_eq!(count_rules(&rules, "ioctl"), 2);
    assert_eq!(decide(&rules, "ioctl", [0, 0x5401, 0, 0, 0, 0]), Action::Allow);
    assert_eq!(decide(&rules, "ioctl", [0, 0x8abc, 0, 0, 0, 0]), Action::Allow);
    assert_eq!(decide(&rules, "ioctl", [0, 0x7abc, 0, 0, 0, 0]), Action::Errno(EPERM));
    assert_eq!(decide(&rules, "read", [u64::MAX, 0, 0, 0, 0, 7]), Action::Allow);
}

#[test]
fn baseline_overrides_policy_entries() {
    let table = vec![
        entry("execve", vec![]),
        entry("exit", vec![ArgCmp::new(0, Op::Eq, 0, 0)]),
        entry("read", vec![]),
    ];
    let enforced = with_baseline(&table, PATH_ADDR);
    let names: Vec<&str> = enforced.iter().map(|e| e.name.as_str()).collect();
    assert_eq!(names, vec!["read", "execve", "exit_group", "exit"]);
    assert_eq!(enforced[1].rules, vec![ArgCmp::new(0, Op::Eq, PATH_ADDR, 0)]);
    let rules = build_rules(&enforced);
    assert_eq!(decide(&rules, "execve", [1, 0, 0, 0, 0, 0]), Action::Errno(EPERM));
    assert_eq!(decide(&rules, "exit", [3, 0, 0, 0, 0, 0]), Action::Allow);
}

#[test]
fn baseline_on_empty_policy() {
    let rules = build_rules(&with_baseline(&vec![], PATH_ADDR));
    assert_eq!(rules.len(), 3);
    assert_eq!(decide(&rules, "exit_group", [5, 5, 5, 5, 5, 5]), Action::Allow);
    assert_eq!(decide(&rules, "read", [0, 0, 0, 0, 0, 0]), Action::Errno(EPERM));
}
