//! The advanced freeze mitigation: which unfreeze strategies it holds and in
//! what order, the record of the strategies that worked before, and the
//! decisions of an unfreeze session, one attempt at a time. Running a
//! strategy, waiting and reading the freeze status are left to the caller,
//! which hands each result back.
use vstd::prelude::*;

use crate::freeze::{FreezeMitigationConfig, FreezeReason, UnfreezeResult};
use crate::text::{decimal, decimal_exec, push_str, string_from_chars};
use crate::{DriveError, FreezeStatus};

verus! {

broadcast use vstd::string::group_string_axioms;

/// The strategies the advanced mitigation can hold.
#[derive(Debug, Clone, Copy, PartialEq, Eq, Structural)]
pub enum StrategyKind {
    SataLinkReset,
    PcieHotReset,
    AcpiSleep,
    UsbSuspend,
    IpmiPower,
    VendorSpecific,
    KernelModule,
}

/// The name under which a strategy reports and is remembered.
pub open spec fn kind_name(k: StrategyKind) -> Seq<char> {
    match k {
        StrategyKind::SataLinkReset => "SATA Link Reset"@,
        StrategyKind::PcieHotReset => "PCIe Hot Reset"@,
        StrategyKind::AcpiSleep => "ACPI S3 Sleep"@,
        StrategyKind::UsbSuspend => "USB Suspend/Resume"@,
        StrategyKind::IpmiPower => "IPMI Power Management"@,
        StrategyKind::VendorSpecific => "Vendor-Specific Commands"@,
        StrategyKind::KernelModule => "Kernel Module"@,
    }
}

/// Whether a strategy can clear a freeze of the given cause.
pub open spec fn kind_compatible(k: StrategyKind, r: FreezeReason) -> bool {
    match k {
        StrategyKind::SataLinkReset | StrategyKind::PcieHotReset | StrategyKind::AcpiSleep => r
            == FreezeReason::BiosSetFrozen || r == FreezeReason::ControllerPolicy || r
            == FreezeReason::Unknown,
        StrategyKind::VendorSpecific => r == FreezeReason::RaidController || r
            == FreezeReason::ControllerPolicy || r == FreezeReason::Unknown,
        StrategyKind::UsbSuspend | StrategyKind::IpmiPower | StrategyKind::KernelModule => true,
    }
}

impl StrategyKind {
    /// The strategy's name.
    pub fn name(&self) -> (r: &'static str)
        ensures
            r@ == kind_name(*self),
    {
        match self {
            StrategyKind::SataLinkReset => "SATA Link Reset",
            StrategyKind::PcieHotReset => "PCIe Hot Reset",
            StrategyKind::AcpiSleep => "ACPI S3 Sleep",
            StrategyKind::UsbSuspend => "USB Suspend/Resume",
            StrategyKind::IpmiPower => "IPMI Power Management",
            StrategyKind::VendorSpecific => "Vendor-Specific Commands",
            StrategyKind::KernelModule => "Kernel Module",
        }
    }

    /// Whether the strategy can clear a freeze of cause `reason`.
    pub fn is_compatible_with(&self, reason: &FreezeReason) -> (b: bool)
        ensures
            b == kind_compatible(*self, *reason),
    {
        match self {
            StrategyKind::SataLinkReset | StrategyKind::PcieHotReset | StrategyKind::AcpiSleep => {
                match reason {
                    FreezeReason::BiosSetFrozen | FreezeReason::ControllerPolicy
                    | FreezeReason::Unknown => true,
                    _ => false,
                }
            },
            StrategyKind::VendorSpecific => {
                match reason {
                    FreezeReason::RaidController | FreezeReason::ControllerPolicy
                    | FreezeReason::Unknown => true,
                    _ => false,
                }
            },
            _ => true,
        }
    }
}

// ---------------------------------------------------------------------------
// The record of strategies that worked
// ---------------------------------------------------------------------------

/// The count of the first entry named `k`, or 0 where none is.
pub open spec fn count_in(s: Seq<(String, u32)>, k: Seq<char>) -> nat
    decreases s.len(),
{
    if s.len() == 0 {
        0
    } else if s[0].0@ == k {
        s[0].1 as nat
    } else {
        count_in(s.drop_first(), k)
    }
}

proof fn lemma_count_update(s: Seq<(String, u32)>, i: int, e: (String, u32), x: Seq<char>)
    requires
        0 <= i < s.len(),
        e.0@ == s[i].0@,
        forall|j: int| 0 <= j < i ==> s[j].0@ != s[i].0@,
    ensures
        count_in(s.update(i, e), x) == if x == e.0@ {
            e.1 as nat
        } else {
            count_in(s, x)
        },
    decreases s.len(),
{
    if i > 0 {
        assert(s.update(i, e).drop_first() =~= s.drop_first().update(i - 1, e));
        assert forall|j: int| 0 <= j < i - 1 implies (#[trigger] s.drop_first()[j]).0@ != s.drop_first()[i
            - 1].0@ by {
            assert(s.drop_first()[j] == s[j + 1]);
        }
        lemma_count_update(s.drop_first(), i - 1, e, x);
    } else {
        assert(s.update(i, e).drop_first() =~= s.drop_first());
    }
}

proof fn lemma_count_push(s: Seq<(String, u32)>, e: (String, u32), x: Seq<char>)
    requires
        forall|j: int| 0 <= j < s.len() ==> s[j].0@ != e.0@,
    ensures
        count_in(s.push(e), x) == if x == e.0@ {
            e.1 as nat
        } else {
            count_in(s, x)
        },
        x == e.0@ ==> count_in(s, x) == 0,
    decreases s.len(),
{
    if s.len() > 0 {
        assert(s.push(e)[0] == s[0]);
        assert(s.push(e).drop_first() =~= s.drop_first().push(e));
        assert forall|j: int| 0 <= j < s.drop_first().len() implies (#[trigger] s.drop_first()[j]).0@
            != e.0@ by {
            assert(s.drop_first()[j] == s[j + 1]);
        }
        lemma_count_push(s.drop_first(), e, x);
    } else {
        assert(s.push(e).drop_first() =~= Seq::<(String, u32)>::empty());
        assert(s.push(e)[0] == e);
        assert(count_in(s.push(e).drop_first(), x) == 0);
    }
}

/// The time now, in seconds since the Unix epoch, from `chrono::Utc::now`
/// (`DateTime::timestamp`). It depends on the clock, so nothing is stated of it.
#[verifier::external_body]
fn utc_now_seconds() -> i64 {
    chrono::Utc::now().timestamp()
}

/// How often each unfreeze strategy has worked, by name, and when the record
/// last changed (seconds since the Unix epoch).
pub struct SuccessHistory {
    successful_methods: Vec<(String, u32)>,
    last_updated: i64,
}

impl SuccessHistory {
    /// How often the strategy named `k` has worked.
    pub closed spec fn successes(&self, k: Seq<char>) -> nat {
        count_in(self.successful_methods@, k)
    }

    /// The recorded names and counts, in the order first recorded.
    pub closed spec fn records(&self) -> Seq<(String, u32)> {
        self.successful_methods@
    }

    /// When the record last changed, in seconds since the Unix epoch.
    pub closed spec fn stamp(&self) -> i64 {
        self.last_updated
    }

    /// When the record last changed, in seconds since the Unix epoch.
    pub fn last_updated(&self) -> (t: i64)
        ensures
            t == self.stamp(),
    {
        self.last_updated
    }

    /// An empty record, stamped with the time now.
    pub fn new() -> (h: SuccessHistory)
        ensures
            h.records() == Seq::<(String, u32)>::empty(),
            forall|k: Seq<char>| #[trigger] h.successes(k) == 0,
    {
        SuccessHistory { successful_methods: Vec::new(), last_updated: utc_now_seconds() }
    }

    /// A record with the given counts, as read back from storage; where a
    /// name occurs twice its first count holds.
    pub fn from_records(records: Vec<(String, u32)>, last_updated: i64) -> (h: SuccessHistory)
        ensures
            h.records() == records@,
            h.stamp() == last_updated,
    {
        SuccessHistory { successful_methods: records, last_updated }
    }

    /// The recorded names and counts, for storage.
    pub fn entries(&self) -> (r: &Vec<(String, u32)>)
        ensures
            r@ == self.records(),
    {
        &self.successful_methods
    }

    fn position(&self, method: &str) -> (r: Option<usize>)
        ensures
            r matches Some(i) ==> i < self.successful_methods@.len()
                && self.successful_methods@[i as int].0@ == method@ && forall|j: int|
                0 <= j < i ==> self.successful_methods@[j].0@ != method@,
            r is None ==> forall|j: int|
                0 <= j < self.successful_methods@.len() ==> self.successful_methods@[j].0@
                    != method@,
    {
        let key = method.to_string();
        let mut i: usize = 0;
        while i < self.successful_methods.len()
            invariant
                key@ == method@,
                i <= self.successful_methods@.len(),
                forall|j: int| 0 <= j < i ==> self.successful_methods@[j].0@ != method@,
            decreases self.successful_methods@.len() - i,
        {
            if self.successful_methods[i].0 == key {
                return Some(i);
            }
            i += 1;
        }
        None
    }

    proof fn lemma_first_is_count(s: Seq<(String, u32)>, i: int, k: Seq<char>)
        requires
            0 <= i < s.len(),
            s[i].0@ == k,
            forall|j: int| 0 <= j < i ==> s[j].0@ != k,
        ensures
            count_in(s, k) == s[i].1 as nat,
        decreases i,
    {
        if i > 0 {
            assert forall|j: int| 0 <= j < i - 1 implies (#[trigger] s.drop_first()[j]).0@ != k by {
                assert(s.drop_first()[j] == s[j + 1]);
            }
            Self::lemma_first_is_count(s.drop_first(), i - 1, k);
        }
    }

    proof fn lemma_absent_is_zero(s: Seq<(String, u32)>, k: Seq<char>)
        requires
            forall|j: int| 0 <= j < s.len() ==> s[j].0@ != k,
        ensures
            count_in(s, k) == 0,
        decreases s.len(),
    {
        if s.len() > 0 {
            assert forall|j: int| 0 <= j < s.drop_first().len() implies (#[trigger] s.drop_first()[j]).0@
                != k by {
                assert(s.drop_first()[j] == s[j + 1]);
            }
            Self::lemma_absent_is_zero(s.drop_first(), k);
        }
    }

    /// How often the strategy named `method` has worked (0 if never).
    pub fn get_priority(&self, method: &str) -> (n: u32)
        ensures
            n == self.successes(method@),
    {
        match self.position(method) {
            Some(i) => {
                proof {
                    Self::lemma_first_is_count(self.successful_methods@, i as int, method@);
                }
                self.successful_methods[i].1
            },
            None => {
                proof {
                    Self::lemma_absent_is_zero(self.successful_methods@, method@);
                }
                0
            },
        }
    }

    /// Counts one more success of the strategy named `method` and stamps the
    /// record with the time now. Storing the record is left to the caller.
    pub fn record_success(&mut self, method: &str)
        requires
            old(self).successes(method@) < u32::MAX,
        ensures
            final(self).successes(method@) == old(self).successes(method@) + 1,
            forall|k: Seq<char>| k != method@ ==> #[trigger] final(self).successes(k) == old(
                self,
            ).successes(k),
    {
        let ghost before = self.successful_methods@;
        match self.position(method) {
            Some(i) => {
                proof {
                    Self::lemma_first_is_count(before, i as int, method@);
                }
                let (name, count) = self.successful_methods.remove(i);
                let e = (name, count + 1);
                let ghost ge = e;
                self.successful_methods.insert(i, e);
                proof {
                    assert(self.successful_methods@ =~= before.update(i as int, ge));
                    assert forall|k: Seq<char>| #[trigger]
                        count_in(self.successful_methods@, k) == if k == method@ {
                            count_in(before, k) + 1
                        } else {
                            count_in(before, k)
                        } by {
                        lemma_count_update(before, i as int, ge, k);
                    }
                }
            },
            None => {
                let e = (method.to_string(), 1u32);
                let ghost ge = e;
                self.successful_methods.push(e);
                proof {
                    assert forall|k: Seq<char>| #[trigger]
                        count_in(self.successful_methods@, k) == if k == method@ {
                            count_in(before, k) + 1
                        } else {
                            count_in(before, k)
                        } by {
                        lemma_count_push(before, ge, k);
                    }
                }
            },
        }
        self.last_updated = utc_now_seconds();
    }
}

// ---------------------------------------------------------------------------
// The strategies and their order
// ---------------------------------------------------------------------------

/// The strategies a configuration allows, in their first order: SATA link
/// reset, PCIe hot reset, ACPI sleep (if allowed), USB suspend, IPMI (if
/// allowed), vendor tools (if allowed), kernel module (if allowed).
pub open spec fn allowed_strategies(c: FreezeMitigationConfig) -> Seq<StrategyKind> {
    let s0 = seq![StrategyKind::SataLinkReset, StrategyKind::PcieHotReset];
    let s1 = if c.allow_acpi_sleep {
        s0.push(StrategyKind::AcpiSleep)
    } else {
        s0
    };
    let s2 = s1.push(StrategyKind::UsbSuspend);
    let s3 = if c.allow_ipmi {
        s2.push(StrategyKind::IpmiPower)
    } else {
        s2
    };
    let s4 = if c.allow_vendor_specific {
        s3.push(StrategyKind::VendorSpecific)
    } else {
        s3
    };
    if c.allow_kernel_module {
        s4.push(StrategyKind::KernelModule)
    } else {
        s4
    }
}

/// `k` placed into `sorted` after every strategy ranked at least as high.
pub open spec fn insert_by_rank(
    sorted: Seq<StrategyKind>,
    k: StrategyKind,
    rank: spec_fn(StrategyKind) -> nat,
) -> Seq<StrategyKind>
    decreases sorted.len(),
{
    if sorted.len() == 0 {
        seq![k]
    } else if rank(sorted.last()) >= rank(k) {
        sorted.push(k)
    } else {
        insert_by_rank(sorted.drop_last(), k, rank).push(sorted.last())
    }
}

/// `s` ordered by `rank`, highest first, keeping the order of equal ranks.
pub open spec fn rank_order(s: Seq<StrategyKind>, rank: spec_fn(StrategyKind) -> nat) -> Seq<
    StrategyKind,
>
    decreases s.len(),
{
    if s.len() == 0 {
        Seq::empty()
    } else {
        insert_by_rank(rank_order(s.drop_last(), rank), s.last(), rank)
    }
}

/// Ranks do not rise along `s`.
pub open spec fn ranked(s: Seq<StrategyKind>, rank: spec_fn(StrategyKind) -> nat) -> bool {
    forall|i: int, j: int| 0 <= i < j < s.len() ==> rank(#[trigger] s[i]) >= rank(#[trigger] s[j])
}

proof fn lemma_insert_at(
    s: Seq<StrategyKind>,
    k: StrategyKind,
    rank: spec_fn(StrategyKind) -> nat,
    j: int,
)
    requires
        0 <= j <= s.len(),
        j == 0 || rank(s[j - 1]) >= rank(k),
        forall|i: int| j <= i < s.len() ==> rank(#[trigger] s[i]) < rank(k),
    ensures
        insert_by_rank(s, k, rank) == s.insert(j, k),
    decreases s.len(),
{
    if s.len() == 0 {
        assert(s.insert(j, k) =~= seq![k]);
    } else if j == s.len() {
        assert(s.insert(j, k) =~= s.push(k));
    } else {
        let d = s.drop_last();
        assert(rank(s[s.len() - 1]) < rank(k));
        assert forall|i: int| j <= i < d.len() implies rank(#[trigger] d[i]) < rank(k) by {
            assert(d[i] == s[i]);
        }
        lemma_insert_at(d, k, rank, j);
        assert(d.insert(j, k).push(s.last()) =~= s.insert(j, k));
    }
}

proof fn lemma_insert_keeps_ranked(s: Seq<StrategyKind>, k: StrategyKind, rank: spec_fn(StrategyKind) -> nat)
    requires
        ranked(s, rank),
    ensures
        ranked(insert_by_rank(s, k, rank), rank),
        insert_by_rank(s, k, rank).to_multiset() == s.to_multiset().insert(k),
        forall|x: StrategyKind| #[trigger] insert_by_rank(s, k, rank).contains(x) ==> x == k
            || s.contains(x),
    decreases s.len(),
{
    broadcast use vstd::seq_lib::group_to_multiset_ensures;

    if s.len() == 0 {
        assert(seq![k] =~= Seq::<StrategyKind>::empty().push(k));
    } else if rank(s.last()) >= rank(k) {
        let r = s.push(k);
        assert forall|i: int, j: int| 0 <= i < j < r.len() implies rank(#[trigger] r[i]) >= rank(
            #[trigger] r[j],
        ) by {
            if j == s.len() {
                if i < s.len() - 1 {
                    assert(rank(s[i]) >= rank(s[s.len() - 1]));
                }
            } else {
                assert(rank(s[i]) >= rank(s[j]));
            }
        }
        assert forall|x: StrategyKind| #[trigger] r.contains(x) implies x == k || s.contains(x) by {
            if x != k {
                let t = choose|t: int| 0 <= t < r.len() && r[t] == x;
                assert(s[t] == x);
            }
        }
    } else {
        let d = s.drop_last();
        let last = s.last();
        assert(ranked(d, rank)) by {
            assert forall|i: int, j: int| 0 <= i < j < d.len() implies rank(#[trigger] d[i]) >= rank(
                #[trigger] d[j],
            ) by {
                assert(rank(s[i]) >= rank(s[j]));
            }
        }
        lemma_insert_keeps_ranked(d, k, rank);
        let m = insert_by_rank(d, k, rank);
        let r = m.push(last);
        assert forall|t: int| 0 <= t < m.len() implies rank(#[trigger] m[t]) >= rank(last) by {
            assert(m.contains(m[t]));
            if m[t] != k {
                assert(d.contains(m[t]));
                let u = choose|u: int| 0 <= u < d.len() && d[u] == m[t];
                assert(rank(s[u]) >= rank(s[s.len() - 1]));
            }
        }
        assert forall|i: int, j: int| 0 <= i < j < r.len() implies rank(#[trigger] r[i]) >= rank(
            #[trigger] r[j],
        ) by {
            if j == m.len() {
                assert(rank(m[i]) >= rank(last));
            } else {
                assert(rank(m[i]) >= rank(m[j]));
            }
        }
        assert(d.push(last) =~= s);
        assert forall|x: StrategyKind| #[trigger] r.contains(x) implies x == k || s.contains(x) by {
            let t = choose|t: int| 0 <= t < r.len() && r[t] == x;
            if t < m.len() {
                assert(m.contains(x));
                if x != k {
                    let u = choose|u: int| 0 <= u < d.len() && d[u] == x;
                    assert(s[u] == x);
                }
            } else {
                assert(s[s.len() - 1] == x);
            }
        }
    }
}

/// Law: ordering the strategies by rank keeps each of them exactly as
/// often as it was there, and leaves no strategy after one ranked lower.
pub proof fn lemma_rank_order(s: Seq<StrategyKind>, rank: spec_fn(StrategyKind) -> nat)
    ensures
        ranked(rank_order(s, rank), rank),
        rank_order(s, rank).to_multiset() == s.to_multiset(),
    decreases s.len(),
{
    broadcast use vstd::seq_lib::group_to_multiset_ensures;

    if s.len() > 0 {
        lemma_rank_order(s.drop_last(), rank);
        lemma_insert_keeps_ranked(rank_order(s.drop_last(), rank), s.last(), rank);
        assert(s.drop_last().push(s.last()) =~= s);
    } else {
        assert(s.to_multiset() =~= vstd::multiset::Multiset::<StrategyKind>::empty());
        assert(rank_order(s, rank).to_multiset() =~= vstd::multiset::Multiset::<StrategyKind>::empty());
    }
}

/// The rank of each strategy under a record: how often it has worked.
pub open spec fn history_rank(h: SuccessHistory) -> spec_fn(StrategyKind) -> nat {
    |k: StrategyKind| h.successes(kind_name(k))
}

fn allowed(config: &FreezeMitigationConfig) -> (v: Vec<StrategyKind>)
    ensures
        v@ == allowed_strategies(*config),
{
    let mut v: Vec<StrategyKind> = Vec::new();
    v.push(StrategyKind::SataLinkReset);
    v.push(StrategyKind::PcieHotReset);
    if config.allow_acpi_sleep {
        v.push(StrategyKind::AcpiSleep);
    }
    v.push(StrategyKind::UsbSuspend);
    if config.allow_ipmi {
        v.push(StrategyKind::IpmiPower);
    }
    if config.allow_vendor_specific {
        v.push(StrategyKind::VendorSpecific);
    }
    if config.allow_kernel_module {
        v.push(StrategyKind::KernelModule);
    }
    assert(v@ =~= allowed_strategies(*config));
    v
}

fn rank_sort(base: &Vec<StrategyKind>, history: &SuccessHistory) -> (v: Vec<StrategyKind>)
    ensures
        v@ == rank_order(base@, history_rank(*history)),
{
    let ghost rank = history_rank(*history);
    let mut out: Vec<StrategyKind> = Vec::new();
    let mut ranks: Vec<u32> = Vec::new();
    let mut i: usize = 0;
    assert(base@.take(0) =~= Seq::<StrategyKind>::empty());
    while i < base.len()
        invariant
            rank == history_rank(*history),
            i <= base@.len(),
            out@ == rank_order(base@.take(i as int), rank),
            ranked(out@, rank),
            ranks@.len() == out@.len(),
            forall|t: int| 0 <= t < out@.len() ==> ranks@[t] as nat == rank(#[trigger] out@[t]),
        decreases base@.len() - i,
    {
        let k = base[i];
        let rk = history.get_priority(k.name());
        assert(rk as nat == rank(k));
        let mut j: usize = out.len();
        while j > 0 && ranks[j - 1] < rk
            invariant
                j <= out@.len(),
                ranks@.len() == out@.len(),
                forall|t: int| 0 <= t < out@.len() ==> ranks@[t] as nat == rank(#[trigger] out@[t]),
                forall|t: int| j <= t < out@.len() ==> rank(#[trigger] out@[t]) < rk,
            decreases j,
        {
            j -= 1;
        }
        proof {
            if j > 0 {
                assert(ranks@[j - 1] as nat == rank(out@[j - 1]));
            }
            lemma_insert_at(out@, k, rank, j as int);
            lemma_insert_keeps_ranked(out@, k, rank);
            assert(base@.take(i + 1).drop_last() =~= base@.take(i as int));
            assert(base@.take(i + 1).last() == k);
        }
        let ghost old_out = out@;
        let ghost old_ranks = ranks@;
        out.insert(j, k);
        ranks.insert(j, rk);
        proof {
            assert forall|t: int| 0 <= t < out@.len() implies ranks@[t] as nat == rank(
                #[trigger] out@[t],
            ) by {
                if t < j {
                    assert(out@[t] == old_out[t] && ranks@[t] == old_ranks[t]);
                } else if t > j {
                    assert(out@[t] == old_out[t - 1] && ranks@[t] == old_ranks[t - 1]);
                }
            }
        }
        i += 1;
    }
    assert(base@.take(base@.len() as int) =~= base@);
    out
}

/// The advanced freeze mitigation: its settings, the strategies it may
/// use, most successful first, and the record of what worked.
pub struct AdvancedFreezeMitigation {
    config: FreezeMitigationConfig,
    strategies: Vec<StrategyKind>,
    success_history: SuccessHistory,
}

/// What came of one attempt with a strategy.
pub enum AttemptOutcome {
    /// The strategy ran, perhaps with a warning; `unfrozen` is what the freeze
    /// status read after the pause said.
    Ran { warning: Option<String>, unfrozen: bool },
    /// The strategy failed with this message.
    Failed(String),
}

impl AttemptOutcome {
    /// The outcome of a strategy that ran, from the freeze status read after
    /// the pause: the drive counts as unfrozen exactly where it reads as not
    /// frozen.
    pub fn after_run(warning: Option<String>, status_after: FreezeStatus) -> (o: AttemptOutcome)
        ensures
            o matches AttemptOutcome::Ran { warning: w, unfrozen } && w == warning && unfrozen == (
            status_after == FreezeStatus::NotFrozen),
    {
        AttemptOutcome::Ran { warning, unfrozen: status_after == FreezeStatus::NotFrozen }
    }
}

/// The state of one unfreeze run: the freeze's cause, the next strategy to
/// consider, the attempts made and the warnings gathered.
pub struct UnfreezeSession {
    reason: FreezeReason,
    next: usize,
    attempts: u32,
    warnings: Vec<String>,
}

/// The texts of a list of messages.
pub open spec fn texts(w: Seq<String>) -> Seq<Seq<char>> {
    w.map_values(|m: String| m@)
}

/// The index of the first strategy from `from` on that suits `r`, or the
/// length where none does.
pub open spec fn first_compatible(s: Seq<StrategyKind>, r: FreezeReason, from: int) -> int
    decreases s.len() - from,
{
    if from >= s.len() {
        s.len() as int
    } else if kind_compatible(s[from], r) {
        from
    } else {
        first_compatible(s, r, from + 1)
    }
}

/// The warning left when the time allowed ran out.
pub open spec fn timeout_warning(max_seconds: u64) -> Seq<char> {
    "Timeout reached after "@ + decimal(max_seconds as nat) + " seconds"@
}

/// The warning left by a strategy that failed.
pub open spec fn failure_warning(k: StrategyKind, message: Seq<char>) -> Seq<char> {
    kind_name(k) + " failed: "@ + message
}

/// The name of a freeze cause as `{:?}` writes it.
pub open spec fn reason_label(r: FreezeReason) -> Seq<char> {
    match r {
        FreezeReason::BiosSetFrozen => "BiosSetFrozen"@,
        FreezeReason::RaidController => "RaidController"@,
        FreezeReason::OsSecurity => "OsSecurity"@,
        FreezeReason::ControllerPolicy => "ControllerPolicy"@,
        FreezeReason::Unknown => "Unknown"@,
    }
}

/// The message of a run in which no strategy unfroze the drive.
pub open spec fn exhausted_message(attempts: nat, methods: nat, r: FreezeReason) -> Seq<char> {
    "Failed to unfreeze drive after "@ + decimal(attempts) + " attempts using "@ + decimal(methods)
        + " methods. Freeze reason: "@ + reason_label(r)
        + ". Consider: 1) Cold boot the system, 2) Try different controller mode in BIOS, 3) Use IPMI power cycle"@
}

fn reason_label_exec(r: FreezeReason) -> (s: &'static str)
    ensures
        s@ == reason_label(r),
{
    match r {
        FreezeReason::BiosSetFrozen => "BiosSetFrozen",
        FreezeReason::RaidController => "RaidController",
        FreezeReason::OsSecurity => "OsSecurity",
        FreezeReason::ControllerPolicy => "ControllerPolicy",
        FreezeReason::Unknown => "Unknown",
    }
}

impl UnfreezeSession {
    /// The cause of the freeze.
    pub closed spec fn cause(&self) -> FreezeReason {
        self.reason
    }

    /// The index of the next strategy to consider.
    pub closed spec fn cursor(&self) -> nat {
        self.next as nat
    }

    /// The attempts made so far.
    pub closed spec fn tries(&self) -> nat {
        self.attempts as nat
    }

    /// The warnings gathered so far.
    pub closed spec fn notes(&self) -> Seq<Seq<char>> {
        texts(self.warnings@)
    }

    /// The attempts made so far.
    pub fn attempts_made(&self) -> (n: u32)
        ensures
            n == self.tries(),
    {
        self.attempts
    }
}

impl AdvancedFreezeMitigation {
    /// The settings.
    pub closed spec fn settings(&self) -> FreezeMitigationConfig {
        self.config
    }

    /// The strategies, in the order they are tried.
    pub closed spec fn order(&self) -> Seq<StrategyKind> {
        self.strategies@
    }

    /// The record of what worked.
    pub closed spec fn history(&self) -> SuccessHistory {
        self.success_history
    }

    /// At most the seven strategies there are.
    pub closed spec fn wf(&self) -> bool {
        self.strategies@.len() <= 7
    }

    /// The mitigation for `config`, its strategies those the settings allow
    /// (`allowed_strategies`), ordered by how often each worked before as
    /// `history` records it, most first, ties in their first order. Reading
    /// the record from storage is left to the caller.
    pub fn new(config: FreezeMitigationConfig, history: SuccessHistory) -> (m: Self)
        ensures
            m.wf(),
            m.order() == rank_order(allowed_strategies(config), history_rank(history)),
            m.settings() == config,
            m.history() == history,
    {
        let base = allowed(&config);
        let strategies = rank_sort(&base, &history);
        proof {
            broadcast use vstd::seq_lib::group_to_multiset_ensures;

            lemma_rank_order(base@, history_rank(history));
            assert(base@.len() <= 7);
            assert(strategies@.to_multiset().len() == strategies@.len());
            assert(base@.to_multiset().len() == base@.len());
        }
        AdvancedFreezeMitigation { config, strategies, success_history: history }
    }

    /// The strategies, in the order they are tried.
    pub fn strategies(&self) -> (v: &Vec<StrategyKind>)
        ensures
            v@ == self.order(),
    {
        &self.strategies
    }

    /// The record of what worked, for storage.
    pub fn success_history(&self) -> (h: &SuccessHistory)
        ensures
            *h == self.history(),
    {
        &self.success_history
    }

    /// The strategies that suit a freeze of cause `reason`, in order.
    pub fn compatible_strategies(&self, reason: &FreezeReason) -> (v: Vec<StrategyKind>)
        ensures
            v@ == self.order().filter(|k: StrategyKind| kind_compatible(k, *reason)),
    {
        let ghost p = |k: StrategyKind| kind_compatible(k, *reason);
        let mut v: Vec<StrategyKind> = Vec::new();
        let mut i: usize = 0;
        assert(self.strategies@.take(0) =~= Seq::<StrategyKind>::empty());
        while i < self.strategies.len()
            invariant
                i <= self.strategies@.len(),
                p == (|k: StrategyKind| kind_compatible(k, *reason)),
                v@ == self.strategies@.take(i as int).filter(p),
            decreases self.strategies@.len() - i,
        {
            let k = self.strategies[i];
            proof {
                assert(self.strategies@.take(i + 1) =~= self.strategies@.take(i as int).push(k));
                self.strategies@.take(i as int).lemma_filter_push(k, p);
            }
            if k.is_compatible_with(reason) {
                v.push(k);
            }
            i += 1;
        }
        assert(self.strategies@.take(self.strategies@.len() as int) =~= self.strategies@);
        v
    }

    /// The result for a drive whose status shows it is not frozen: success
    /// with no method and no attempt, taking `no_time`; `None` for any
    /// other status, where a run starts.
    pub fn already_unfrozen(status: FreezeStatus, no_time: std::time::Duration) -> (r: Option<
        UnfreezeResult,
    >)
        ensures
            r is Some <==> status == FreezeStatus::NotFrozen,
            r matches Some(x) ==> x.success && x.method_used@ == "None (not frozen)"@
                && x.attempts_made == 0 && x.time_taken == no_time && x.freeze_reason is None
                && x.warnings@.len() == 0,
    {
        match status {
            FreezeStatus::NotFrozen => Some(
                UnfreezeResult {
                    success: true,
                    method_used: "None (not frozen)".to_string(),
                    attempts_made: 0,
                    time_taken: no_time,
                    freeze_reason: None,
                    warnings: Vec::new(),
                },
            ),
            _ => None,
        }
    }

    /// A run for a drive frozen for cause `reason`, at the first strategy.
    pub fn begin(&self, reason: FreezeReason) -> (s: UnfreezeSession)
        ensures
            s.cause() == reason,
            s.cursor() == 0,
            s.tries() == 0,
            s.notes() == Seq::<Seq<char>>::empty(),
    {
        let s = UnfreezeSession { reason, next: 0, attempts: 0, warnings: Vec::new() };
        assert(s.notes() =~= Seq::<Seq<char>>::empty());
        s
    }

    /// The next strategy to try. With none left, none, and the run is as it
    /// was. Where the time allowed has run out (`timed_out`, measured by the
    /// caller), none, a timeout warning, and the run ends. Else the first
    /// strategy from the cursor on that suits the cause: one more attempt,
    /// and the cursor moves past it; where none suits, the run ends.
    pub fn next_strategy(&self, session: &mut UnfreezeSession, timed_out: bool) -> (r: Option<
        StrategyKind,
    >)
        requires
            self.wf(),
            old(session).cursor() <= self.order().len(),
            old(session).tries() <= old(session).cursor(),
        ensures
            final(session).cause() == old(session).cause(),
            final(session).cursor() <= self.order().len(),
            final(session).tries() <= final(session).cursor(),
            old(session).cursor() == self.order().len() ==> r is None && *final(session) == *old(
                session,
            ),
            (old(session).cursor() < self.order().len() && timed_out) ==> (r is None
                && final(session).cursor() == self.order().len() && final(session).tries() == old(
                session,
            ).tries() && final(session).notes() == old(session).notes().push(
                timeout_warning(self.settings().max_attempts_duration),
            )),
            (old(session).cursor() < self.order().len() && !timed_out) ==> ({
                let i = first_compatible(self.order(), old(session).cause(), old(session).cursor() as int);
                &&& final(session).notes() == old(session).notes()
                &&& i < self.order().len() ==> r == Some(self.order()[i]) && final(session).cursor()
                    == i + 1 && final(session).tries() == old(session).tries() + 1
                &&& i == self.order().len() ==> r is None && final(session).cursor()
                    == self.order().len() && final(session).tries() == old(session).tries()
            }),
    {
        let n = self.strategies.len();
        if session.next >= n {
            return None;
        }
        if timed_out {
            let mut m: Vec<char> = Vec::new();
            push_str(&mut m, "Timeout reached after ");
            let mut d = decimal_exec(self.config.max_attempts_duration);
            m.append(&mut d);
            push_str(&mut m, " seconds");
            let w = string_from_chars(&m);
            let ghost before = session.warnings@;
            session.warnings.push(w);
            session.next = n;
            assert(texts(session.warnings@) =~= texts(before).push(
                timeout_warning(self.config.max_attempts_duration),
            ));
            return None;
        }
        let mut i = session.next;
        while i < n
            invariant
                n == self.strategies@.len(),
                n <= 7,
                !timed_out,
                session.reason == old(session).reason,
                session.next == old(session).next,
                session.attempts == old(session).attempts,
                session.warnings == old(session).warnings,
                session.attempts <= session.next,
                old(session).cursor() <= i <= n,
                first_compatible(self.strategies@, session.reason, old(session).cursor() as int)
                    == first_compatible(self.strategies@, session.reason, i as int),
            decreases n - i,
        {
            if self.strategies[i].is_compatible_with(&session.reason) {
                session.next = i + 1;
                session.attempts = session.attempts + 1;
                return Some(self.strategies[i]);
            }
            i += 1;
        }
        session.next = n;
        None
    }

    /// Takes in what came of trying `kind`. A run that left the drive
    /// unfrozen counts one more success of `kind` in the record and gives
    /// true; a run that did not gives false; either keeps its warning, if it
    /// gave one. A failure gives false and leaves its message as a warning.
    pub fn attempt_finished(
        &mut self,
        session: &mut UnfreezeSession,
        kind: StrategyKind,
        outcome: AttemptOutcome,
    ) -> (unfrozen: bool)
        requires
            old(self).history().successes(kind_name(kind)) < u32::MAX,
        ensures
            final(self).order() == old(self).order(),
            final(self).settings() == old(self).settings(),
            final(self).wf() == old(self).wf(),
            final(session).cause() == old(session).cause(),
            final(session).cursor() == old(session).cursor(),
            final(session).tries() == old(session).tries(),
            unfrozen == (outcome matches AttemptOutcome::Ran { unfrozen: u, .. } && u),
            match outcome {
                AttemptOutcome::Ran { warning, unfrozen: u } => {
                    &&& final(session).notes() == match warning {
                        Some(w) => old(session).notes().push(w@),
                        None => old(session).notes(),
                    }
                    &&& u ==> final(self).history().successes(kind_name(kind)) == old(
                        self,
                    ).history().successes(kind_name(kind)) + 1 && forall|k: Seq<char>|
                        k != kind_name(kind) ==> #[trigger] final(self).history().successes(k)
                            == old(self).history().successes(k)
                    &&& !u ==> final(self).history() == old(self).history()
                },
                AttemptOutcome::Failed(msg) => final(session).notes() == old(session).notes().push(
                    failure_warning(kind, msg@),
                ) && final(self).history() == old(self).history(),
            },
    {
        let ghost before = session.warnings@;
        match outcome {
            AttemptOutcome::Ran { warning, unfrozen } => {
                match warning {
                    Some(w) => {
                        let ghost gw = w;
                        session.warnings.push(w);
                        assert(texts(session.warnings@) =~= texts(before).push(gw@));
                    },
                    None => {},
                }
                if unfrozen {
                    self.success_history.record_success(kind.name());
                }
                unfrozen
            },
            AttemptOutcome::Failed(msg) => {
                let mut m: Vec<char> = Vec::new();
                push_str(&mut m, kind.name());
                push_str(&mut m, " failed: ");
                push_str(&mut m, msg.as_str());
                let w = string_from_chars(&m);
                session.warnings.push(w);
                assert(texts(session.warnings@) =~= texts(before).push(failure_warning(kind, msg@)));
                false
            },
        }
    }

    /// The result of a run that `kind` ended by unfreezing the drive, after
    /// `time_taken`.
    pub fn succeeded(session: UnfreezeSession, kind: StrategyKind, time_taken: std::time::Duration) -> (r:
        UnfreezeResult)
        ensures
            r.success,
            r.method_used@ == kind_name(kind),
            r.attempts_made == session.tries(),
            r.time_taken == time_taken,
            r.freeze_reason == Some(session.cause()),
            texts(r.warnings@) == session.notes(),
    {
        UnfreezeResult {
            success: true,
            method_used: kind.name().to_string(),
            attempts_made: session.attempts,
            time_taken,
            freeze_reason: Some(session.reason),
            warnings: session.warnings,
        }
    }

    /// The error of a run in which no strategy unfroze the drive.
    pub fn exhausted(&self, session: &UnfreezeSession) -> (e: DriveError)
        ensures
            e matches DriveError::DriveFrozen(m) && m@ == exhausted_message(
                session.tries(),
                self.order().len(),
                session.cause(),
            ),
    {
        let mut m: Vec<char> = Vec::new();
        push_str(&mut m, "Failed to unfreeze drive after ");
        let mut a = decimal_exec(session.attempts as u64);
        m.append(&mut a);
        push_str(&mut m, " attempts using ");
        let mut b = decimal_exec(self.strategies.len() as u64);
        m.append(&mut b);
        push_str(&mut m, " methods. Freeze reason: ");
        push_str(&mut m, reason_label_exec(session.reason));
        push_str(
            &mut m,
            ". Consider: 1) Cold boot the system, 2) Try different controller mode in BIOS, 3) Use IPMI power cycle",
        );
        DriveError::DriveFrozen(string_from_chars(&m))
    }

    /// What the success estimate rests on for a freeze of cause `reason`
    /// (none: not frozen): the strategies that suit it and the successes
    /// they have between them in the record.
    pub fn success_evidence(&self, reason: &Option<FreezeReason>) -> (r: Option<(usize, u64)>)
        requires
            self.wf(),
        ensures
            reason is None ==> r is None,
            reason matches Some(c) ==> r matches Some(p) && p.0 == self.order().filter(
                |k: StrategyKind| kind_compatible(k, *c),
            ).len() && p.1 == successes_of(
                self.order().filter(|k: StrategyKind| kind_compatible(k, *c)),
                self.history(),
            ),
    {
        match reason {
            None => None,
            Some(c) => {
                let v = self.compatible_strategies(c);
                proof {
                    self.strategies@.lemma_filter_len(|k: StrategyKind| kind_compatible(k, *c));
                }
                let mut total: u64 = 0;
                let mut i: usize = 0;
                assert(v@.take(0) =~= Seq::<StrategyKind>::empty());
                while i < v.len()
                    invariant
                        i <= v@.len(),
                        v@.len() <= 7,
                        total == successes_of(v@.take(i as int), self.success_history),
                        total <= i * (u32::MAX as nat),
                    decreases v@.len() - i,
                {
                    let k = v[i];
                    let p = self.success_history.get_priority(k.name());
                    assert(v@.take(i + 1).drop_last() =~= v@.take(i as int));
                    total = total + p as u64;
                    i += 1;
                }
                assert(v@.take(v@.len() as int) =~= v@);
                Some((v.len(), total))
            },
        }
    }
}

/// The successes, in record `h`, of the strategies `s` between them.
pub open spec fn successes_of(s: Seq<StrategyKind>, h: SuccessHistory) -> nat
    decreases s.len(),
{
    if s.len() == 0 {
        0
    } else {
        successes_of(s.drop_last(), h) + h.successes(kind_name(s.last()))
    }
}

} // verus!
