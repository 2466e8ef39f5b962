use vstd::prelude::*;
use crate::seccomp::{cmp_matches, Action, ArgCmp, Op, SYSCALL_ARGS};

verus! {

/// Error code returned by the filter for every syscall it does not allow.
pub const EPERM: i32 = 1;

/// The action taken for a syscall that no rule allows: it fails with a
/// permission error instead of terminating the process.
pub open spec fn default_action() -> Action {
    Action::Errno(EPERM)
}

/// The action of a new filter for every syscall no rule allows.
pub fn default_filter_action() -> (r: Action)
    ensures
        r == default_action(),
{
    Action::Errno(EPERM)
}

/// One whitelisted syscall with its alternative argument rules. An empty
/// list allows the syscall for any arguments.
#[derive(Debug)]
pub struct SyscallEntry {
    pub name: String,
    pub rules: Vec<ArgCmp>,
}

impl View for SyscallEntry {
    type V = (Seq<char>, Seq<ArgCmp>);

    open spec fn view(&self) -> (Seq<char>, Seq<ArgCmp>) {
        (self.name@, self.rules@)
    }
}

/// One rule of a syscall filter: `action` is taken for `syscall` when `cmp`
/// is absent or holds.
#[derive(Debug)]
pub struct FilterRule {
    pub syscall: String,
    pub action: Action,
    pub cmp: Option<ArgCmp>,
}

impl View for FilterRule {
    type V = (Seq<char>, Action, Option<ArgCmp>);

    open spec fn view(&self) -> (Seq<char>, Action, Option<ArgCmp>) {
        (self.syscall@, self.action, self.cmp)
    }
}

pub open spec fn table_view(t: Seq<SyscallEntry>) -> Seq<(Seq<char>, Seq<ArgCmp>)> {
    t.map_values(|e: SyscallEntry| e@)
}

pub open spec fn rules_view(r: Seq<FilterRule>) -> Seq<(Seq<char>, Action, Option<ArgCmp>)> {
    r.map_values(|x: FilterRule| x@)
}

/// No syscall is listed twice.
pub open spec fn unique_names(t: Seq<(Seq<char>, Seq<ArgCmp>)>) -> bool {
    forall|i: int, j: int| 0 <= i < j < t.len() ==> t[i].0 != t[j].0
}

/// The allow rules for one entry: one unconditional rule when it has no
/// argument rules, else one rule per argument rule.
pub open spec fn entry_rules(e: (Seq<char>, Seq<ArgCmp>)) -> Seq<(Seq<char>, Action, Option<ArgCmp>)> {
    if e.1.len() == 0 {
        seq![(e.0, Action::Allow, None)]
    } else {
        e.1.map_values(|c: ArgCmp| (e.0, Action::Allow, Some(c)))
    }
}

/// The allow rules for a whole table, entry after entry.
pub open spec fn table_rules(t: Seq<(Seq<char>, Seq<ArgCmp>)>) -> Seq<(Seq<char>, Action, Option<ArgCmp>)>
    decreases t.len(),
{
    if t.len() == 0 {
        Seq::empty()
    } else {
        table_rules(t.drop_last()) + entry_rules(t.last())
    }
}

/// Whether rule `r` allows syscall `name` with argument registers `args`.
pub open spec fn rule_permits(r: (Seq<char>, Action, Option<ArgCmp>), name: Seq<char>, args: Seq<u64>) -> bool {
    &&& r.1 == Action::Allow
    &&& r.0 == name
    &&& match r.2 {
        None => true,
        Some(c) => cmp_matches(c, args),
    }
}

/// Whether any of `rules` allows the call.
pub open spec fn filter_permits(rules: Seq<(Seq<char>, Action, Option<ArgCmp>)>, name: Seq<char>, args: Seq<u64>) -> bool {
    exists|i: int| 0 <= i < rules.len() && rule_permits(#[trigger] rules[i], name, args)
}

/// The action a filter made of `rules` takes for the call.
pub open spec fn filter_decision(rules: Seq<(Seq<char>, Action, Option<ArgCmp>)>, name: Seq<char>, args: Seq<u64>) -> Action {
    if filter_permits(rules, name, args) {
        Action::Allow
    } else {
        default_action()
    }
}

fn copy_rules(rules: &Vec<ArgCmp>) -> (r: Vec<ArgCmp>)
    ensures
        r@ == rules@,
{
    let mut out: Vec<ArgCmp> = Vec::new();
    let mut j: usize = 0;
    while j < rules.len()
        invariant
            j <= rules.len(),
            out@ == rules@.take(j as int),
        decreases rules.len() - j,
    {
        out.push(rules[j]);
        j = j + 1;
        assert(out@ =~= rules@.take(j as int));
    }
    assert(rules@.take(rules.len() as int) =~= rules@);
    out
}

impl SyscallEntry {
    /// A copy of this entry.
    pub fn duplicate(&self) -> (r: SyscallEntry)
        ensures
            r@ == self@,
    {
        SyscallEntry { name: self.name.clone(), rules: copy_rules(&self.rules) }
    }
}

/// Turns a syscall table into filter rules: per entry, one
/// unconditional allow rule when it has no argument rules, else one allow
/// rule per argument rule, each sufficient on its own.
pub fn build_rules(table: &Vec<SyscallEntry>) -> (r: Vec<FilterRule>)
    ensures
        rules_view(r@) == table_rules(table_view(table@)),
{
    let ghost tv = table_view(table@);
    let mut out: Vec<FilterRule> = Vec::new();
    let mut i: usize = 0;
    while i < table.len()
        invariant
            i <= table.len(),
            tv == table_view(table@),
            rules_view(out@) == table_rules(tv.take(i as int)),
        decreases table.len() - i,
    {
        let e = &table[i];
        let ghost before = rules_view(out@);
        assert(tv.take(i as int + 1).drop_last() =~= tv.take(i as int));
        assert(tv[i as int] == e@);
        if e.rules.len() == 0 {
            out.push(FilterRule { syscall: e.name.clone(), action: Action::Allow, cmp: None });
            assert(rules_view(out@) =~= before + entry_rules(e@));
        } else {
            let mut j: usize = 0;
            while j < e.rules.len()
                invariant
                    j <= e.rules.len(),
                    e.rules.len() > 0,
                    rules_view(out@) == before + entry_rules(e@).take(j as int),
                decreases e.rules.len() - j,
            {
                let ghost prev = rules_view(out@);
                let rule = FilterRule { syscall: e.name.clone(), action: Action::Allow, cmp: Some(e.rules[j]) };
                assert(rule@ == entry_rules(e@)[j as int]);
                out.push(rule);
                assert(rules_view(out@) =~= prev.push(rule@));
                assert(entry_rules(e@).take(j as int + 1) =~= entry_rules(e@).take(j as int).push(rule@));
                j = j + 1;
                assert(rules_view(out@) =~= before + entry_rules(e@).take(j as int));
            }
            assert(entry_rules(e@).take(j as int) =~= entry_rules(e@));
        }
        i = i + 1;
    }
    assert(tv.take(table.len() as int) =~= tv);
    out
}

fn cmp_holds(c: ArgCmp, args: &[u64; 6]) -> (r: bool)
    ensures
        r == cmp_matches(c, args@),
{
    if c.arg >= SYSCALL_ARGS {
        false
    } else {
        let v = args[c.arg as usize];
        match c.op {
            Op::Eq => v == c.a,
            Op::MaskedEq => v & c.b == c.a & c.b,
        }
    }
}

/// The action a filter made of `rules` takes for a call of `name` with
/// argument registers `args`: allowed when some rule allows it, else denied
/// with a permission error.
pub fn evaluate(rules: &Vec<FilterRule>, name: &String, args: &[u64; 6]) -> (r: Action)
    ensures
        r == filter_decision(rules_view(rules@), name@, args@),
{
    let ghost rv = rules_view(rules@);
    let mut i: usize = 0;
    while i < rules.len()
        invariant
            i <= rules.len(),
            rv == rules_view(rules@),
            forall|k: int| 0 <= k < i ==> !rule_permits(#[trigger] rv[k], name@, args@),
        decreases rules.len() - i,
    {
        let r = &rules[i];
        assert(rv[i as int] == r@);
        let hit = match r.cmp {
            None => true,
            Some(c) => cmp_holds(c, args),
        };
        if r.action == Action::Allow && r.syscall == *name && hit {
            return Action::Allow;
        }
        i = i + 1;
    }
    default_filter_action()
}

pub open spec fn execve_name() -> Seq<char> {
    "execve"@
}

pub open spec fn exit_group_name() -> Seq<char> {
    "exit_group"@
}

pub open spec fn exit_name() -> Seq<char> {
    "exit"@
}

/// Syscalls whose rules the mandatory baseline decides, whatever the policy
/// says of them.
pub open spec fn is_baseline_name(n: Seq<char>) -> bool {
    n == execve_name() || n == exit_group_name() || n == exit_name()
}

/// The only rule under which the process image may be replaced: the path
/// operand must be the very buffer at address `path_addr`.
pub open spec fn exec_rule(path_addr: u64) -> ArgCmp {
    ArgCmp { arg: 0, op: Op::Eq, a: path_addr, b: 0 }
}

/// The policy's table with the mandatory baseline in place of any entries
/// the policy had for the baseline syscalls.
pub open spec fn baseline_table(t: Seq<(Seq<char>, Seq<ArgCmp>)>, path_addr: u64) -> Seq<(Seq<char>, Seq<ArgCmp>)> {
    t.filter(|e: (Seq<char>, Seq<ArgCmp>)| !is_baseline_name(e.0)) + seq![
        (execve_name(), seq![exec_rule(path_addr)]),
        (exit_group_name(), Seq::<ArgCmp>::empty()),
        (exit_name(), Seq::<ArgCmp>::empty()),
    ]
}

fn is_baseline(n: &String) -> (r: bool)
    ensures
        r == is_baseline_name(n@),
{
    let execve = "execve".to_string();
    let exit_group = "exit_group".to_string();
    let exit = "exit".to_string();
    *n == execve || *n == exit_group || *n == exit
}

/// The syscall table to enforce: the policy's entries, except those for
/// `execve`, `exit_group` and `exit`, followed by an `execve` entry bound to
/// the path buffer at `path_addr` and unconditional `exit_group` and `exit`.
pub fn with_baseline(table: &Vec<SyscallEntry>, path_addr: u64) -> (r: Vec<SyscallEntry>)
    ensures
        table_view(r@) == baseline_table(table_view(table@), path_addr),
{
    let ghost tv = table_view(table@);
    let ghost pred = |e: (Seq<char>, Seq<ArgCmp>)| !is_baseline_name(e.0);
    let mut out: Vec<SyscallEntry> = Vec::new();
    let mut i: usize = 0;
    while i < table.len()
        invariant
            i <= table.len(),
            tv == table_view(table@),
            pred == (|e: (Seq<char>, Seq<ArgCmp>)| !is_baseline_name(e.0)),
            table_view(out@) == tv.take(i as int).filter(pred),
        decreases table.len() - i,
    {
        let ghost prev = table_view(out@);
        assert(tv.take(i as int + 1).drop_last() =~= tv.take(i as int));
        assert(tv[i as int] == table[i as int]@);
        reveal(Seq::filter);
        if !is_baseline(&table[i].name) {
            let e = table[i].duplicate();
            out.push(e);
            assert(table_view(out@) =~= prev.push(e@));
        } else {
            assert(table_view(out@) =~= prev);
        }
        i = i + 1;
    }
    assert(tv.take(table.len() as int) =~= tv);
    let ghost kept = table_view(out@);
    let mut exec_rules: Vec<ArgCmp> = Vec::new();
    exec_rules.push(ArgCmp::new(0, Op::Eq, path_addr, 0));
    out.push(SyscallEntry { name: "execve".to_string(), rules: exec_rules });
    out.push(SyscallEntry { name: "exit_group".to_string(), rules: Vec::new() });
    out.push(SyscallEntry { name: "exit".to_string(), rules: Vec::new() });
    assert(exec_rules@ =~= seq![exec_rule(path_addr)]);
    assert(table_view(out@) =~= baseline_table(tv, path_addr));
    out
}

/// Whether a syscall whose entry carries `rules` is allowed with `args`:
/// always when there are no rules, else when any one of them holds.
pub open spec fn entry_permits(rules: Seq<ArgCmp>, args: Seq<u64>) -> bool {
    rules.len() == 0 || exists|j: int| 0 <= j < rules.len() && cmp_matches(#[trigger] rules[j], args)
}

proof fn lemma_permits_concat(a: Seq<(Seq<char>, Action, Option<ArgCmp>)>, b: Seq<(Seq<char>, Action, Option<ArgCmp>)>, name: Seq<char>, args: Seq<u64>)
    ensures
        filter_permits(a + b, name, args) <==> (filter_permits(a, name, args) || filter_permits(b, name, args)),
{
    let ab = a + b;
    if filter_permits(ab, name, args) {
        let i = choose|i: int| 0 <= i < ab.len() && rule_permits(#[trigger] ab[i], name, args);
        if i < a.len() {
            assert(a[i] == ab[i]);
        } else {
            assert(b[i - a.len()] == ab[i]);
        }
    }
    if filter_permits(a, name, args) {
        let i = choose|i: int| 0 <= i < a.len() && rule_permits(#[trigger] a[i], name, args);
        assert(ab[i] == a[i]);
    }
    if filter_permits(b, name, args) {
        let i = choose|i: int| 0 <= i < b.len() && rule_permits(#[trigger] b[i], name, args);
        assert(ab[i + a.len()] == b[i]);
    }
}

proof fn lemma_entry_permits(e: (Seq<char>, Seq<ArgCmp>), name: Seq<char>, args: Seq<u64>)
    ensures
        filter_permits(entry_rules(e), name, args) <==> (e.0 == name && entry_permits(e.1, args)),
{
    let r = entry_rules(e);
    if e.1.len() == 0 {
        if e.0 == name {
            assert(rule_permits(r[0], name, args));
        }
    } else {
        if filter_permits(r, name, args) {
            let i = choose|i: int| 0 <= i < r.len() && rule_permits(#[trigger] r[i], name, args);
            assert(cmp_matches(e.1[i], args));
        }
        if e.0 == name && entry_permits(e.1, args) {
            let j = choose|j: int| 0 <= j < e.1.len() && cmp_matches(#[trigger] e.1[j], args);
            assert(rule_permits(r[j], name, args));
        }
    }
}

/// A call is allowed by the rules built from a table exactly when the table
/// has an entry for the syscall whose argument rules let the call through.
pub proof fn lemma_table_permits(t: Seq<(Seq<char>, Seq<ArgCmp>)>, name: Seq<char>, args: Seq<u64>)
    ensures
        filter_permits(table_rules(t), name, args) <==> exists|k: int|
            0 <= k < t.len() && (#[trigger] t[k]).0 == name && entry_permits(t[k].1, args),
    decreases t.len(),
{
    if t.len() > 0 {
        let d = t.drop_last();
        lemma_table_permits(d, name, args);
        lemma_permits_concat(table_rules(d), entry_rules(t.last()), name, args);
        lemma_entry_permits(t.last(), name, args);
        if exists|k: int| 0 <= k < d.len() && (#[trigger] d[k]).0 == name && entry_permits(d[k].1, args) {
            let k = choose|k: int| 0 <= k < d.len() && (#[trigger] d[k]).0 == name && entry_permits(d[k].1, args);
            assert(t[k] == d[k]);
        }
        if exists|k: int| 0 <= k < t.len() && (#[trigger] t[k]).0 == name && entry_permits(t[k].1, args) {
            let k = choose|k: int| 0 <= k < t.len() && (#[trigger] t[k]).0 == name && entry_permits(t[k].1, args);
            if k < d.len() {
                assert(d[k] == t[k]);
            }
        }
    }
}

/// The rules of `rules` that concern syscall `name`, in order.
pub open spec fn rules_for(rules: Seq<(Seq<char>, Action, Option<ArgCmp>)>, name: Seq<char>) -> Seq<(Seq<char>, Action, Option<ArgCmp>)> {
    rules.filter(concerns(name))
}

/// Whether a rule is about syscall `name`.
pub open spec fn concerns(name: Seq<char>) -> spec_fn((Seq<char>, Action, Option<ArgCmp>)) -> bool {
    |r: (Seq<char>, Action, Option<ArgCmp>)| r.0 == name
}

proof fn lemma_rules_for_entry(e: (Seq<char>, Seq<ArgCmp>), name: Seq<char>)
    ensures
        rules_for(entry_rules(e), name) == (if e.0 == name { entry_rules(e) } else { Seq::empty() }),
{
    lemma_filter_uniform(entry_rules(e), concerns(name), e.0 == name);
}

proof fn lemma_filter_uniform<A>(s: Seq<A>, pred: spec_fn(A) -> bool, keep: bool)
    requires
        forall|i: int| 0 <= i < s.len() ==> pred(#[trigger] s[i]) == keep,
    ensures
        s.filter(pred) == (if keep { s } else { Seq::<A>::empty() }),
    decreases s.len(),
{
    reveal(Seq::filter);
    if s.len() == 0 {
        assert(s =~= Seq::<A>::empty());
    } else {
        let d = s.drop_last();
        assert forall|i: int| 0 <= i < d.len() implies pred(#[trigger] d[i]) == keep by {
            assert(d[i] == s[i]);
        }
        lemma_filter_uniform(d, pred, keep);
        assert(pred(s[s.len() - 1]) == keep);
        if keep {
            assert(d.push(s.last()) =~= s);
        }
    }
}

/// The rules built from a table that concern a syscall are those of its
/// entry; none where the table does not list it.
pub proof fn lemma_rules_for_table(t: Seq<(Seq<char>, Seq<ArgCmp>)>, name: Seq<char>)
    ensures
        unique_names(t) ==> forall|k: int| 0 <= k < t.len() && (#[trigger] t[k]).0 == name
            ==> rules_for(table_rules(t), name) == entry_rules(t[k]),
        (forall|k: int| 0 <= k < t.len() ==> (#[trigger] t[k]).0 != name)
            ==> rules_for(table_rules(t), name) == Seq::<(Seq<char>, Action, Option<ArgCmp>)>::empty(),
    decreases t.len(),
{
    if t.len() == 0 {
        reveal(Seq::filter);
        assert(table_rules(t) =~= Seq::empty());
    } else {
        let d = t.drop_last();
        let l = t.last();
        let pred = concerns(name);
        lemma_rules_for_table(d, name);
        lemma_rules_for_entry(l, name);
        Seq::filter_distributes_over_add(table_rules(d), entry_rules(l), pred);
        assert(rules_for(table_rules(t), name) == rules_for(table_rules(d), name) + rules_for(entry_rules(l), name));
        if unique_names(t) {
            assert(unique_names(d)) by {
                assert forall|i: int, j: int| 0 <= i < j < d.len() implies d[i].0 != d[j].0 by {
                    assert(d[i] == t[i] && d[j] == t[j]);
                }
            }
            assert forall|k: int| 0 <= k < t.len() && (#[trigger] t[k]).0 == name
                implies rules_for(table_rules(t), name) == entry_rules(t[k]) by {
                if k == t.len() - 1 {
                    assert forall|m: int| 0 <= m < d.len() implies (#[trigger] d[m]).0 != name by {
                        assert(d[m] == t[m]);
                    }
                    assert(rules_for(table_rules(t), name) =~= entry_rules(t[k]));
                } else {
                    assert(d[k] == t[k]);
                    assert(l.0 != name);
                    assert(rules_for(table_rules(t), name) =~= entry_rules(t[k]));
                }
            }
        }
        if forall|k: int| 0 <= k < t.len() ==> (#[trigger] t[k]).0 != name {
            assert forall|m: int| 0 <= m < d.len() implies (#[trigger] d[m]).0 != name by {
                assert(d[m] == t[m]);
            }
            assert(t[t.len() - 1].0 != name);
            assert(rules_for(table_rules(t), name) =~= Seq::empty());
        }
    }
}

/// For a listed syscall with no argument rules every call is allowed by one
/// unconditional rule; with N argument rules, exactly N rules concern it, one
/// per argument rule, a call is allowed exactly when one of them holds, and
/// is otherwise denied with a permission error rather than killed.
pub proof fn lemma_argument_rules(t: Seq<(Seq<char>, Seq<ArgCmp>)>, k: int, args: Seq<u64>)
    requires
        unique_names(t),
        0 <= k < t.len(),
        args.len() == SYSCALL_ARGS,
    ensures
        t[k].1.len() == 0 ==> filter_decision(table_rules(t), t[k].0, args) == Action::Allow,
        t[k].1.len() > 0 ==> (filter_decision(table_rules(t), t[k].0, args) == Action::Allow
            <==> exists|j: int| 0 <= j < t[k].1.len() && cmp_matches(#[trigger] t[k].1[j], args)),
        filter_decision(table_rules(t), t[k].0, args) != Action::Allow
            ==> filter_decision(table_rules(t), t[k].0, args) == Action::Errno(EPERM),
        rules_for(table_rules(t), t[k].0).len() == (if t[k].1.len() == 0 { 1 } else { t[k].1.len() }),
        t[k].1.len() > 0 ==> forall|j: int| 0 <= j < t[k].1.len()
            ==> #[trigger] rules_for(table_rules(t), t[k].0)[j] == (t[k].0, Action::Allow, Some(t[k].1[j])),
{
    lemma_rules_for_table(t, t[k].0);
    lemma_table_permits(t, t[k].0, args);
    assert(t[k].0 == t[k].0);
    if filter_permits(table_rules(t), t[k].0, args) {
        let m = choose|m: int| 0 <= m < t.len() && (#[trigger] t[m]).0 == t[k].0 && entry_permits(t[m].1, args);
        assert(m == k);
    }
}

/// Whatever the policy says, the enforced table lets the process terminate
/// by either syscall with any arguments, and lets it replace its image only
/// with the path buffer at `path_addr`.
pub proof fn lemma_baseline(t: Seq<(Seq<char>, Seq<ArgCmp>)>, path_addr: u64, args: Seq<u64>)
    requires
        args.len() == SYSCALL_ARGS,
    ensures
        filter_decision(table_rules(baseline_table(t, path_addr)), exit_name(), args) == Action::Allow,
        filter_decision(table_rules(baseline_table(t, path_addr)), exit_group_name(), args) == Action::Allow,
        filter_decision(table_rules(baseline_table(t, path_addr)), execve_name(), args) == Action::Allow
            <==> args[0] == path_addr,
        args[0] != path_addr ==> filter_decision(table_rules(baseline_table(t, path_addr)), execve_name(), args)
            == Action::Errno(EPERM),
{
    reveal_strlit("execve");
    reveal_strlit("exit_group");
    reveal_strlit("exit");
    let pred = |e: (Seq<char>, Seq<ArgCmp>)| !is_baseline_name(e.0);
    let f = t.filter(pred);
    let b = baseline_table(t, path_addr);
    broadcast use vstd::seq_lib::group_filter_ensures;
    let n = f.len() as int;
    assert(b[n] == (execve_name(), seq![exec_rule(path_addr)]));
    assert(b[n + 1] == (exit_group_name(), Seq::<ArgCmp>::empty()));
    assert(b[n + 2] == (exit_name(), Seq::<ArgCmp>::empty()));
    lemma_table_permits(b, exit_name(), args);
    lemma_table_permits(b, exit_group_name(), args);
    lemma_table_permits(b, execve_name(), args);
    if args[0] == path_addr {
        assert(cmp_matches(b[n].1[0], args));
    }
    if filter_permits(table_rules(b), execve_name(), args) {
        let k = choose|k: int| 0 <= k < b.len() && (#[trigger] b[k]).0 == execve_name() && entry_permits(b[k].1, args);
        if k < n {
            assert(b[k] == f[k]);
            assert(pred(f[k]));
        }
        assert(execve_name().len() != exit_name().len());
        assert(execve_name().len() != exit_group_name().len());
        assert(k == n);
        assert(cmp_matches(b[n].1[0], args));
    }
}

} // verus!
