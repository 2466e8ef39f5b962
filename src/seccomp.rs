use vstd::prelude::*;

verus! {

/// Comparison operator.
#[derive(Debug, Copy, Clone, PartialEq, Eq, Structural)]
pub enum Op {
    /// Strict equality.
    Eq,
    /// Matches when the masked argument value is equal to the masked datum
    /// value.
    MaskedEq,
}

/// Argument value comparison.
#[derive(Debug, Copy, Clone, PartialEq, Eq, Structural)]
pub struct ArgCmp {
    /// Argument position.
    pub arg: u32,
    /// Comparison operator.
    pub op: Op,
    /// Comparison right hand value.
    pub a: u64,
    /// Mask applied to both sides when the operator is `MaskedEq`.
    pub b: u64,
}

/// Number of argument registers a syscall filter can inspect.
pub const SYSCALL_ARGS: u32 = 6;

/// Whether `c` holds for the argument registers `args` of a syscall.
pub open spec fn cmp_matches(c: ArgCmp, args: Seq<u64>) -> bool {
    &&& c.arg < SYSCALL_ARGS
    &&& match c.op {
        Op::Eq => args[c.arg as int] == c.a,
        Op::MaskedEq => args[c.arg as int] & c.b == c.a & c.b,
    }
}

impl ArgCmp {
    pub fn new(arg: u32, op: Op, a: u64, b: u64) -> (r: Self)
        ensures
            r == (ArgCmp { arg, op, a, b }),
    {
        Self { arg, op, a, b }
    }

    /// The two data operands handed to the kernel filter engine, which
    /// compares `arg == first` for `Eq` and `arg & first == second` for
    /// `MaskedEq`.
    pub fn kernel_operands(&self) -> (r: (u64, u64))
        ensures
            self.op == Op::Eq ==> r == (self.a, self.b),
            self.op == Op::MaskedEq ==> r == (self.b, self.a & self.b),
    {
        match self.op {
            Op::Eq => (self.a, self.b),
            Op::MaskedEq => (self.b, self.a & self.b),
        }
    }
}

/// Seccomp actions.
#[derive(Debug, Clone, Copy, PartialEq, Eq, Structural)]
pub enum Action {
    /// Allow the syscall to be executed
    Allow,
    /// Kill the process
    Kill,
    /// Throw a SIGSYS signal
    Trap,
    /// Return the specified error code
    Errno(i32),
    /// Notify a tracing process with the specified value
    Trace(u32),
}

/// The kernel's encoding of each filter action.
pub open spec fn action_code(a: Action) -> u32 {
    match a {
        Action::Allow => 0x7fff0000u32,
        Action::Kill => 0x00000000u32,
        Action::Trap => 0x00030000u32,
        Action::Errno(v) => 0x00050000u32 | ((v as u32) & 0x0000ffffu32),
        Action::Trace(v) => 0x7ff00000u32 | (v & 0x0000ffffu32),
    }
}

impl Action {
    /// The value this action has in a filter program.
    pub fn code(self) -> (r: u32)
        ensures
            r == action_code(self),
    {
        match self {
            Action::Allow => 0x7fff0000u32,
            Action::Kill => 0x00000000u32,
            Action::Trap => 0x00030000u32,
            Action::Errno(v) => 0x00050000u32 | ((v as u32) & 0x0000ffffu32),
            Action::Trace(v) => 0x7ff00000u32 | (v & 0x0000ffffu32),
        }
    }
}

/// The filter context could not be created.
#[derive(Debug, Clone, Copy, PartialEq, Eq, Structural)]
pub struct SeccompInitFailed;

impl SeccompInitFailed {
    /// Human-readable description of the failure.
    pub fn message(&self) -> (r: String)
        ensures
            r@ == "seccomp initialization failed"@,
    {
        "seccomp initialization failed".to_string()
    }
}

} // verus!
