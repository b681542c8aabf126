use crate::kinds::{gate_met, kind_at, Kind, KIND_COUNT};
use crate::paths::{link_path, link_path_chars};
use crate::version::KernelVersion;
use vstd::prelude::*;

verus! {

/// The operating-system failure kinds distinguished when a link read
/// fails.
#[derive(Clone, Copy, Debug, PartialEq, Eq, Structural)]
pub enum OsErrorKind {
    NotFound,
    PermissionDenied,
    Other,
}

/// What one attempt to read a namespace link came back with, as the
/// caller reports it.
#[derive(Debug, PartialEq)]
pub enum LinkOutcome {
    /// The link resolved; its target as text.
    Target(String),
    /// The link resolved, but its target cannot be represented as text.
    NotText,
    /// The operating system reported a failure while the link was read.
    OsError(OsErrorKind),
}

/// Why a resolution failed. Each variant carries the path of the link
/// whose read failed.
#[derive(Debug, PartialEq)]
pub enum ResolveError {
    /// The operating system reported the failure while the link was read.
    Os(OsErrorKind, String),
    /// The link's target cannot be represented as text.
    Unrepresentable(String),
}

/// Namespace information about a process, one optional field per
/// namespace kind. A field is absent exactly when the kernel version the
/// record was resolved under predates the kind's minimum version.
#[derive(Debug, Clone, Default, PartialEq)]
pub struct Namespaces {
    pub cgroup: Option<String>,
    pub ipc: Option<String>,
    pub mnt: Option<String>,
    pub net: Option<String>,
    pub pid: Option<String>,
    pub user: Option<String>,
    pub uts: Option<String>,
    pub pid_for_children: Option<String>,
    pub time: Option<String>,
    pub time_for_children: Option<String>,
}

impl Namespaces {
    /// The field of the record that belongs to the given kind, as a view.
    pub open spec fn field(self, k: Kind) -> Option<Seq<char>> {
        match k {
            Kind::Cgroup => self.cgroup.deep_view(),
            Kind::Ipc => self.ipc.deep_view(),
            Kind::Mnt => self.mnt.deep_view(),
            Kind::Net => self.net.deep_view(),
            Kind::Pid => self.pid.deep_view(),
            Kind::User => self.user.deep_view(),
            Kind::Uts => self.uts.deep_view(),
            Kind::PidForChildren => self.pid_for_children.deep_view(),
            Kind::Time => self.time.deep_view(),
            Kind::TimeForChildren => self.time_for_children.deep_view(),
        }
    }
}

/// Number of kinds before position `i` whose gate the kernel version
/// meets: how many link reads a resolution makes before it treats the
/// kind at `i`.
pub open spec fn reads_before(v: KernelVersion, i: int) -> int
    decreases i,
{
    if i <= 0 {
        0
    } else {
        reads_before(v, i - 1) + if gate_met(v, kind_at(i - 1)) {
            1int
        } else {
            0int
        }
    }
}

/// Number of link reads a resolution under kernel version `v` makes.
pub open spec fn reads_total(v: KernelVersion) -> int {
    reads_before(v, KIND_COUNT as int)
}

/// The outcome consumed for the kind at position `i`, when its gate is
/// met: the outcomes are consumed in the fixed kind order, one per kind
/// whose gate is met.
pub open spec fn outcome_for(v: KernelVersion, outcomes: Seq<LinkOutcome>, i: int) -> LinkOutcome {
    outcomes[reads_before(v, i)]
}

/// The target text of a successful outcome.
pub open spec fn target_chars(o: LinkOutcome) -> Seq<char> {
    match o {
        LinkOutcome::Target(s) => s@,
        _ => Seq::empty(),
    }
}

/// The kind at position `i` either needs no read, or its read succeeded.
pub open spec fn ok_at(v: KernelVersion, outcomes: Seq<LinkOutcome>, i: int) -> bool {
    gate_met(v, kind_at(i)) ==> outcome_for(v, outcomes, i) is Target
}

/// Position of the first kind whose gated read failed, searching from
/// `i`; `KIND_COUNT` when every kind from `i` on is fine.
pub open spec fn first_bad_from(v: KernelVersion, outcomes: Seq<LinkOutcome>, i: int) -> int
    decreases KIND_COUNT as int - i,
{
    if i >= KIND_COUNT as int {
        KIND_COUNT as int
    } else if !ok_at(v, outcomes, i) {
        i
    } else {
        first_bad_from(v, outcomes, i + 1)
    }
}

/// Position of the first kind whose gated read failed, or `KIND_COUNT`
/// when every gated read succeeded.
pub open spec fn first_bad(v: KernelVersion, outcomes: Seq<LinkOutcome>) -> int {
    first_bad_from(v, outcomes, 0)
}

/// What the record's field for the kind at position `i` must hold: absent
/// below the kind's minimum version, else the target text of its read.
pub open spec fn field_model(v: KernelVersion, outcomes: Seq<LinkOutcome>, i: int) -> Option<
    Seq<char>,
> {
    if gate_met(v, kind_at(i)) {
        Some(target_chars(outcome_for(v, outcomes, i)))
    } else {
        None
    }
}

/// The error reported for the failed outcome `o` of the link at `path`.
pub open spec fn error_matches(e: ResolveError, o: LinkOutcome, path: Seq<char>) -> bool {
    match o {
        LinkOutcome::Target(_) => false,
        LinkOutcome::NotText => match e {
            ResolveError::Unrepresentable(p) => p@ == path,
            _ => false,
        },
        LinkOutcome::OsError(k) => match e {
            ResolveError::Os(ek, p) => ek == k && p@ == path,
            _ => false,
        },
    }
}

/// Read counts never go negative and never pass the position.
proof fn lemma_reads_before_bounds(v: KernelVersion, i: int)
    requires
        i >= 0,
    ensures
        0 <= reads_before(v, i) <= i,
    decreases i,
{
    if i > 0 {
        lemma_reads_before_bounds(v, i - 1);
    }
}

/// Read counts grow with the position.
proof fn lemma_reads_before_le(v: KernelVersion, i: int, j: int)
    requires
        i <= j,
    ensures
        reads_before(v, i) <= reads_before(v, j),
    decreases j - i,
{
    if i < j {
        lemma_reads_before_le(v, i, j - 1);
    }
}

/// Kinds whose gate is not met consume no read.
proof fn lemma_reads_before_const(v: KernelVersion, i: int, j: int)
    requires
        0 <= i <= j,
        forall|m: int| i <= m < j ==> !gate_met(v, kind_at(m)),
    ensures
        reads_before(v, j) == reads_before(v, i),
    decreases j - i,
{
    if i < j {
        lemma_reads_before_const(v, i, j - 1);
    }
}

/// The search for the first failure skips positions that are fine.
proof fn lemma_first_bad_skip(v: KernelVersion, outcomes: Seq<LinkOutcome>, i: int, n: int)
    requires
        0 <= i <= n <= KIND_COUNT,
        forall|m: int| i <= m < n ==> ok_at(v, outcomes, m),
    ensures
        first_bad_from(v, outcomes, i) == first_bad_from(v, outcomes, n),
    decreases n - i,
{
    if i < n {
        lemma_first_bad_skip(v, outcomes, i + 1, n);
    }
}

/// The first failure lies no later than any failing position.
proof fn lemma_first_bad_le(v: KernelVersion, outcomes: Seq<LinkOutcome>, i: int, n: int)
    requires
        0 <= i <= n < KIND_COUNT,
        !ok_at(v, outcomes, n),
    ensures
        i <= first_bad_from(v, outcomes, i) <= n,
    decreases n - i,
{
    if i < n && ok_at(v, outcomes, i) {
        lemma_first_bad_le(v, outcomes, i + 1, n);
    }
}

/// A kind whose minimum version the kernel does not meet is absent from
/// the model whatever the outcomes are: no read is consumed for it, so no
/// filesystem access is needed on its account.
pub proof fn lemma_gated_kind_absent(v: KernelVersion, outcomes: Seq<LinkOutcome>, i: int)
    requires
        0 <= i < KIND_COUNT,
        !gate_met(v, kind_at(i)),
    ensures
        field_model(v, outcomes, i) is None,
{
}

/// A kind whose gate is met and whose link read succeeded is present with
/// exactly the target text of that read.
pub proof fn lemma_met_kind_present(v: KernelVersion, outcomes: Seq<LinkOutcome>, i: int)
    requires
        0 <= i < KIND_COUNT,
        gate_met(v, kind_at(i)),
        outcome_for(v, outcomes, i) is Target,
    ensures
        field_model(v, outcomes, i) == Some(target_chars(outcome_for(v, outcomes, i))),
{
}

/// Fail fast: if any gated read failed, the model's first failure exists,
/// so the resolution returns an error and never a partial record.
pub proof fn lemma_fail_fast(v: KernelVersion, outcomes: Seq<LinkOutcome>, i: int)
    requires
        0 <= i < KIND_COUNT,
        !ok_at(v, outcomes, i),
    ensures
        0 <= first_bad(v, outcomes) <= i < KIND_COUNT,
{
    lemma_first_bad_le(v, outcomes, 0, i);
}

/// Resolution is deterministic: two records that both satisfy the
/// resolution's contract for the same kernel version and the same
/// outcomes agree on every kind, so repeating an unchanged query yields
/// an equal record.
pub proof fn lemma_resolve_deterministic(
    v: KernelVersion,
    outcomes: Seq<LinkOutcome>,
    ns1: Namespaces,
    ns2: Namespaces,
)
    requires
        forall|i: int|
            0 <= i < KIND_COUNT ==> #[trigger] ns1.field(kind_at(i)) == field_model(v, outcomes, i),
        forall|i: int|
            0 <= i < KIND_COUNT ==> #[trigger] ns2.field(kind_at(i)) == field_model(v, outcomes, i),
    ensures
        forall|k: Kind| #[trigger] ns1.field(k) == ns2.field(k),
{
    assert forall|k: Kind| #[trigger] ns1.field(k) == ns2.field(k) by {
        crate::kinds::lemma_kind_at_index(k);
        assert(ns1.field(kind_at(k.index_spec())) == field_model(v, outcomes, k.index_spec()));
        assert(ns2.field(kind_at(k.index_spec())) == field_model(v, outcomes, k.index_spec()));
    }
}

/// The next thing a resolution needs.
#[derive(Debug, PartialEq)]
pub enum Step {
    /// Read the link at this path and hand the outcome to `supply`.
    Read(String),
    /// Every kind is recorded; `finish` yields the record.
    Done,
}

/// The resolution state machine. The caller repeats: ask `next_action`
/// for the next link to read, perform the read, and hand the outcome to
/// `supply`; when `next_action` reports `Done`, `finish` yields the
/// record. Kinds whose gate the kernel version does not meet are recorded
/// as absent without any read being requested.
pub struct Resolver {
    /// Id of the process whose namespace directory is read.
    pub pid: i32,
    /// The running kernel's version, fixed for the whole resolution.
    pub kernel: KernelVersion,
    /// One entry per kind already treated, in the fixed kind order.
    pub filled: Vec<Option<String>>,
}

impl Resolver {
    /// At most all ten kinds are recorded.
    pub open spec fn inv(self) -> bool {
        self.filled@.len() <= KIND_COUNT
    }

    /// Starts a resolution for the given process id under the given
    /// kernel version.
    pub fn new(pid: i32, kernel: KernelVersion) -> (r: Resolver)
        ensures
            r.pid == pid && r.kernel == kernel && r.filled@.len() == 0,
    {
        Resolver { pid, kernel, filled: Vec::new() }
    }

    /// Records each kind whose gate is not met as absent, without a read,
    /// and reports the next link to read, or that every kind is recorded.
    pub fn next_action(&mut self) -> (a: Step)
        requires
            old(self).inv(),
        ensures
            final(self).inv(),
            final(self).pid == old(self).pid && final(self).kernel == old(self).kernel,
            old(self).filled@.is_prefix_of(final(self).filled@),
            forall|m: int|
                old(self).filled@.len() <= m < final(self).filled@.len()
                    ==> (#[trigger] final(self).filled@[m]) is None && !gate_met(
                    old(self).kernel,
                    kind_at(m),
                ),
            match a {
                Step::Read(p) => {
                    &&& final(self).filled@.len() < KIND_COUNT
                    &&& gate_met(old(self).kernel, kind_at(final(self).filled@.len() as int))
                    &&& p@ == link_path_chars(
                        old(self).pid as int,
                        kind_at(final(self).filled@.len() as int),
                    )
                },
                Step::Done => final(self).filled@.len() == KIND_COUNT,
            },
    {
        loop
            invariant
                self.inv(),
                self.pid == old(self).pid && self.kernel == old(self).kernel,
                old(self).filled@.is_prefix_of(self.filled@),
                forall|m: int|
                    old(self).filled@.len() <= m < self.filled@.len() ==> (
                    #[trigger] self.filled@[m]) is None && !gate_met(self.kernel, kind_at(m)),
            decreases KIND_COUNT as int - self.filled@.len() as int,
        {
            let n = self.filled.len();
            if n == KIND_COUNT {
                return Step::Done;
            }
            let kind = Kind::from_index(n);
            if self.kernel.at_least(&kind.min_version()) {
                return Step::Read(link_path(self.pid, kind));
            }
            self.filled.push(None);
        }
    }

    /// Records the outcome of the link read that `next_action` last
    /// requested. A successful read makes the kind's field present with
    /// the exact target text; a failed read aborts the resolution with
    /// the error for the link's path, recording nothing.
    pub fn supply(&mut self, outcome: &LinkOutcome) -> (r: Result<(), ResolveError>)
        requires
            old(self).inv(),
            old(self).filled@.len() < KIND_COUNT,
            gate_met(old(self).kernel, kind_at(old(self).filled@.len() as int)),
        ensures
            final(self).inv(),
            final(self).pid == old(self).pid && final(self).kernel == old(self).kernel,
            *outcome matches LinkOutcome::Target(s) ==> {
                &&& r is Ok
                &&& final(self).filled@.len() == old(self).filled@.len() + 1
                &&& old(self).filled@.is_prefix_of(final(self).filled@)
                &&& final(self).filled@.last().deep_view() == Some(s@)
            },
            !(*outcome is Target) ==> {
                &&& final(self).filled == old(self).filled
                &&& r matches Result::Err(e) && error_matches(
                    e,
                    *outcome,
                    link_path_chars(old(self).pid as int, kind_at(old(self).filled@.len() as int)),
                )
            },
    {
        match outcome {
            LinkOutcome::Target(s) => {
                self.filled.push(Some(s.clone()));
                Ok(())
            },
            LinkOutcome::NotText => {
                let n = self.filled.len();
                Err(ResolveError::Unrepresentable(link_path(self.pid, Kind::from_index(n))))
            },
            LinkOutcome::OsError(k) => {
                let n = self.filled.len();
                Err(ResolveError::Os(*k, link_path(self.pid, Kind::from_index(n))))
            },
        }
    }

    /// Yields the finished record once every kind is recorded.
    pub fn finish(self) -> (ns: Namespaces)
        requires
            self.filled@.len() == KIND_COUNT,
        ensures
            forall|i: int|
                0 <= i < KIND_COUNT ==> #[trigger] ns.field(kind_at(i)) == self.filled@[i].deep_view(),
    {
        let mut f = self.filled;
        let time_for_children = f.pop().unwrap();
        let time = f.pop().unwrap();
        let pid_for_children = f.pop().unwrap();
        let uts = f.pop().unwrap();
        let user = f.pop().unwrap();
        let pid = f.pop().unwrap();
        let net = f.pop().unwrap();
        let mnt = f.pop().unwrap();
        let ipc = f.pop().unwrap();
        let cgroup = f.pop().unwrap();
        let ns = Namespaces {
            cgroup,
            ipc,
            mnt,
            net,
            pid,
            user,
            uts,
            pid_for_children,
            time,
            time_for_children,
        };
        proof {
            assert forall|i: int|
                0 <= i < KIND_COUNT implies #[trigger] ns.field(kind_at(i))
                == self.filled@[i].deep_view() by {
                assert(ns.field(kind_at(0)) == self.filled@[0].deep_view());
                assert(ns.field(kind_at(1)) == self.filled@[1].deep_view());
                assert(ns.field(kind_at(2)) == self.filled@[2].deep_view());
                assert(ns.field(kind_at(3)) == self.filled@[3].deep_view());
                assert(ns.field(kind_at(4)) == self.filled@[4].deep_view());
                assert(ns.field(kind_at(5)) == self.filled@[5].deep_view());
                assert(ns.field(kind_at(6)) == self.filled@[6].deep_view());
                assert(ns.field(kind_at(7)) == self.filled@[7].deep_view());
                assert(ns.field(kind_at(8)) == self.filled@[8].deep_view());
                assert(ns.field(kind_at(9)) == self.filled@[9].deep_view());
            }
        }
        ns
    }
}

/// Number of links a resolution under the given kernel version reads:
/// one per kind whose gate the version meets.
pub fn gated_count(kernel: &KernelVersion) -> (n: usize)
    ensures
        n == reads_total(*kernel),
{
    let mut n: usize = 0;
    let mut i: usize = 0;
    while i < KIND_COUNT
        invariant
            i <= KIND_COUNT,
            n <= i,
            n == reads_before(*kernel, i as int),
        decreases KIND_COUNT - i,
    {
        let kind = Kind::from_index(i);
        if kernel.at_least(&kind.min_version()) {
            n = n + 1;
        }
        i = i + 1;
    }
    n
}

impl Namespaces {
    /// Resolves the record for the given process id under the given
    /// kernel version, from the outcomes of the link reads: one outcome
    /// per kind whose gate the version meets, in the fixed kind order.
    ///
    /// On success, every kind whose gate is met is present with exactly
    /// the target text of its read, and every other kind is absent. The
    /// first failed read aborts the whole resolution with the error for
    /// that kind's link, and no record is returned.
    pub fn namespaces(pid: i32, kernel: KernelVersion, outcomes: &Vec<LinkOutcome>) -> (res:
        Result<Namespaces, ResolveError>)
        requires
            outcomes@.len() == reads_total(kernel),
        ensures
            match res {
                Result::Ok(ns) => {
                    &&& first_bad(kernel, outcomes@) == KIND_COUNT
                    &&& forall|i: int|
                        0 <= i < KIND_COUNT ==> #[trigger] ns.field(kind_at(i)) == field_model(
                            kernel,
                            outcomes@,
                            i,
                        )
                },
                Result::Err(e) => {
                    &&& 0 <= first_bad(kernel, outcomes@) < KIND_COUNT
                    &&& error_matches(
                        e,
                        outcome_for(kernel, outcomes@, first_bad(kernel, outcomes@)),
                        link_path_chars(pid as int, kind_at(first_bad(kernel, outcomes@))),
                    )
                },
            },
    {
        let mut r = Resolver::new(pid, kernel);
        let mut j: usize = 0;
        loop
            invariant
                r.pid == pid && r.kernel == kernel,
                r.inv(),
                outcomes@.len() == reads_total(kernel),
                j == reads_before(kernel, r.filled@.len() as int),
                forall|m: int|
                    0 <= m < r.filled@.len() ==> #[trigger] r.filled@[m].deep_view()
                        == field_model(kernel, outcomes@, m),
                forall|m: int| 0 <= m < r.filled@.len() ==> ok_at(kernel, outcomes@, m),
            decreases KIND_COUNT as int - r.filled@.len() as int,
        {
            let ghost head = r.filled@;
            let ghost len0: int = r.filled@.len() as int;
            match r.next_action() {
                Step::Done => {
                    proof {
                        assert forall|m: int| 0 <= m < KIND_COUNT implies ok_at(
                            kernel,
                            outcomes@,
                            m,
                        ) by {
                            if m < len0 {
                                assert(ok_at(kernel, outcomes@, m));
                            } else {
                                assert(r.filled@[m] is None);
                                assert(!gate_met(kernel, kind_at(m)));
                            }
                        }
                        lemma_first_bad_skip(kernel, outcomes@, 0, KIND_COUNT as int);
                        assert forall|m: int| 0 <= m < KIND_COUNT implies #[trigger] r.filled@[m].deep_view()
                            == field_model(kernel, outcomes@, m) by {
                            if m < len0 {
                                assert(head[m].deep_view() == field_model(kernel, outcomes@, m));
                                assert(head[m] == r.filled@[m]);
                            } else {
                                assert(r.filled@[m] is None);
                                assert(!gate_met(kernel, kind_at(m)));
                            }
                        }
                    }
                    return Ok(r.finish());
                },
                Step::Read(_p) => {
                    let ghost mid = r.filled@;
                    let ghost len1: int = r.filled@.len() as int;
                    proof {
                        assert forall|m: int| len0 <= m < len1 implies !gate_met(
                            kernel,
                            kind_at(m),
                        ) by {
                            assert(r.filled@[m] is None);
                        }
                        lemma_reads_before_const(kernel, len0, len1);
                        assert(reads_before(kernel, len1) == j);
                        lemma_reads_before_le(kernel, len1 + 1, KIND_COUNT as int);
                        lemma_reads_before_bounds(kernel, len1);
                        lemma_reads_before_bounds(kernel, KIND_COUNT as int);
                        assert(reads_before(kernel, len1 + 1) == j + 1);
                        assert(j < outcomes@.len());
                        assert(outcomes@.len() <= KIND_COUNT);
                    }
                    let oc = &outcomes[j];
                    match r.supply(oc) {
                        Ok(()) => {
                            proof {
                                assert(*oc is Target);
                                assert forall|m: int|
                                    0 <= m < r.filled@.len() implies #[trigger] r.filled@[m].deep_view()
                                    == field_model(kernel, outcomes@, m) && ok_at(
                                    kernel,
                                    outcomes@,
                                    m,
                                ) by {
                                    if m < len0 {
                                        assert(head[m] == mid[m]);
                                        assert(mid[m] == r.filled@[m]);
                                    } else if m < len1 {
                                        assert(mid[m] == r.filled@[m]);
                                        assert(mid[m] is None);
                                    } else {
                                        assert(r.filled@[m] == r.filled@.last());
                                        assert(outcome_for(kernel, outcomes@, m) == outcomes@[j as int]);
                                    }
                                }
                            }
                            j = j + 1;
                        },
                        Err(e) => {
                            proof {
                                assert(!(*oc is Target));
                                assert(outcome_for(kernel, outcomes@, len1) == outcomes@[j as int]);
                                assert(!ok_at(kernel, outcomes@, len1));
                                assert forall|m: int| 0 <= m < len1 implies ok_at(
                                    kernel,
                                    outcomes@,
                                    m,
                                ) by {
                                    if m >= len0 {
                                        assert(!gate_met(kernel, kind_at(m)));
                                    }
                                }
                                lemma_first_bad_skip(kernel, outcomes@, 0, len1);
                                assert(first_bad(kernel, outcomes@) == len1);
                            }
                            return Err(e);
                        },
                    }
                },
            }
        }
    }
}

} // verus!
