//! The versioned upgrade pipeline.
//!
//! Migration steps are registered in ascending target-version order. Given
//! the version recorded in an opened store, the pipeline selects the maximal
//! contiguous suffix of steps whose targets are strictly greater than the
//! recorded version and runs them in order, one transaction per step. The
//! recorded version advances only when a step's transaction commits; a failed
//! step leaves it at the last committed value and halts the run. The
//! pipeline's aggregate "needs reindex" signal is the logical OR of every
//! committed step's signal.
//!
//! The transactional outside work of each step — reading and rewriting the
//! persisted structures — happens at the caller's edge: the caller performs
//! the selected step's action inside one read-write transaction and reports
//! the outcome back through [`UpgradePipeline::step_committed`] or
//! [`UpgradePipeline::step_failed`].

use vstd::prelude::*;

verus! {

/// A three-part version number: major, minor, patch.
pub type IndexVersion = (u32, u32, u32);

/// Strict lexicographic order on version numbers.
pub open spec fn spec_version_lt(a: IndexVersion, b: IndexVersion) -> bool {
    ||| a.0 < b.0
    ||| (a.0 == b.0 && a.1 < b.1)
    ||| (a.0 == b.0 && a.1 == b.1 && a.2 < b.2)
}

/// Compare two version numbers lexicographically.
pub fn version_lt(a: IndexVersion, b: IndexVersion) -> (r: bool)
    ensures
        r == spec_version_lt(a, b),
{
    if a.0 != b.0 {
        a.0 < b.0
    } else if a.1 != b.1 {
        a.1 < b.1
    } else {
        a.2 < b.2
    }
}

/// The step chain is strictly ascending by target version.
pub open spec fn spec_sorted_strict(targets: Seq<IndexVersion>) -> bool {
    forall|i: int, j: int|
        0 <= i < j < targets.len() ==> spec_version_lt(targets[i], targets[j])
}

/// Index of the first step at or after `i` whose target is strictly greater
/// than the recorded version; the chain length when every step is satisfied.
pub open spec fn spec_first_pending_from(recorded: IndexVersion, targets: Seq<IndexVersion>, i: int) -> int
    decreases targets.len() - i,
{
    if i < 0 || i >= targets.len() {
        targets.len() as int
    } else if spec_version_lt(recorded, targets[i]) {
        i
    } else {
        spec_first_pending_from(recorded, targets, i + 1)
    }
}

/// Index of the first step the pipeline must run for a store recorded at
/// `recorded`.
pub open spec fn spec_first_pending(recorded: IndexVersion, targets: Seq<IndexVersion>) -> int {
    spec_first_pending_from(recorded, targets, 0)
}

/// Selection splits the sorted chain at the first pending step: every step
/// before it is already satisfied, every step from it on is strictly greater
/// than the recorded version — the maximal contiguous suffix to run.
pub proof fn lemma_first_pending_splits(recorded: IndexVersion, targets: Seq<IndexVersion>, i: int)
    requires
        spec_sorted_strict(targets),
        0 <= i <= targets.len(),
    ensures
        i <= spec_first_pending_from(recorded, targets, i) <= targets.len(),
        forall|j: int|
            i <= j < spec_first_pending_from(recorded, targets, i) ==> !spec_version_lt(
                recorded,
                targets[j],
            ),
        forall|j: int|
            spec_first_pending_from(recorded, targets, i) <= j < targets.len()
                ==> spec_version_lt(recorded, targets[j]),
    decreases targets.len() - i,
{
    if i < targets.len() {
        if spec_version_lt(recorded, targets[i]) {
            assert forall|j: int| i <= j < targets.len() implies spec_version_lt(
                recorded,
                targets[j],
            ) by {
                if i < j {
                    assert(spec_version_lt(targets[i], targets[j]));
                }
            }
        } else {
            lemma_first_pending_splits(recorded, targets, i + 1);
        }
    }
}

/// Upgrade idempotence on a no-op: when no registered target exceeds the
/// recorded version — the store is already current — the pipeline selects
/// zero steps.
pub proof fn lemma_upgrade_noop(recorded: IndexVersion, targets: Seq<IndexVersion>)
    requires
        spec_sorted_strict(targets),
        forall|i: int| 0 <= i < targets.len() ==> !spec_version_lt(recorded, #[trigger] targets[i]),
    ensures
        spec_first_pending(recorded, targets) == targets.len(),
{
    lemma_first_pending_splits(recorded, targets, 0);
    if spec_first_pending(recorded, targets) < targets.len() {
        assert(spec_version_lt(recorded, targets[spec_first_pending(recorded, targets)]));
    }
}

/// Position of the first step whose target is strictly greater than the
/// recorded version.
fn first_pending_index(recorded: IndexVersion, targets: &Vec<IndexVersion>) -> (r: usize)
    ensures
        r == spec_first_pending(recorded, targets@),
{
    let n = targets.len();
    let mut i: usize = 0;
    while i < n
        invariant
            n == targets@.len(),
            0 <= i <= n,
            forall|j: int| 0 <= j < i ==> !spec_version_lt(recorded, #[trigger] targets@[j]),
        decreases n - i,
    {
        if version_lt(recorded, targets[i]) {
            proof {
                lemma_pending_shift(recorded, targets@, i as int);
            }
            return i;
        }
        i += 1;
    }
    proof {
        lemma_pending_shift(recorded, targets@, n as int);
    }
    n
}

/// One pipeline run over a store: the ordered step chain, the version the
/// store records, and the progress of execution through the pending suffix.
#[derive(Debug)]
pub struct UpgradePipeline {
    targets: Vec<IndexVersion>,
    recorded: IndexVersion,
    next: usize,
    must_regenerate: bool,
    failed: bool,
}

impl UpgradePipeline {
    /// The ordered target versions of the registered step chain.
    pub closed spec fn targets(&self) -> Seq<IndexVersion> {
        self.targets@
    }

    /// The version the store currently records. It advances only on commit.
    pub closed spec fn recorded(&self) -> IndexVersion {
        self.recorded
    }

    /// Position of the next step to run in the chain.
    pub closed spec fn next_spec(&self) -> int {
        self.next as int
    }

    /// The OR of the reindex signals of every committed step so far.
    pub closed spec fn must_regenerate_spec(&self) -> bool {
        self.must_regenerate
    }

    /// Whether a step failed, halting the run.
    pub closed spec fn failed_spec(&self) -> bool {
        self.failed
    }

    /// Well-formedness: the chain is strictly ascending, execution sits
    /// inside it, and every step behind the cursor is satisfied by the
    /// recorded version.
    pub open spec fn wf(&self) -> bool {
        &&& spec_sorted_strict(self.targets())
        &&& 0 <= self.next_spec() <= self.targets().len()
        &&& forall|j: int|
            0 <= j < self.next_spec() ==> !spec_version_lt(self.recorded(), #[trigger] self.targets()[j])
    }

    /// Open a run for a store recorded at `recorded` against the registered
    /// chain. Returns `None` exactly when the chain is not strictly
    /// ascending; otherwise the cursor starts at the first pending step, so
    /// every already-satisfied step is skipped and a store already current
    /// selects zero steps.
    pub fn new(recorded: IndexVersion, targets: Vec<IndexVersion>) -> (r: Option<UpgradePipeline>)
        ensures
            match r {
                Some(p) => {
                    &&& spec_sorted_strict(targets@)
                    &&& p.wf()
                    &&& p.targets() == targets@
                    &&& p.recorded() == recorded
                    &&& p.next_spec() == spec_first_pending(recorded, targets@)
                    &&& !p.must_regenerate_spec()
                    &&& !p.failed_spec()
                },
                None => !spec_sorted_strict(targets@),
            },
    {
        let n = targets.len();
        let mut i: usize = 1;
        while i < n
            invariant
                n == targets@.len(),
                1 <= i <= n || n == 0,
                forall|j: int| 0 < j < i ==> spec_version_lt(#[trigger] targets@[j - 1], targets@[j]),
            decreases n - i,
        {
            if !version_lt(targets[i - 1], targets[i]) {
                return None;
            }
            i += 1;
        }
        proof {
            lemma_adjacent_sorted(targets@);
        }
        let next = first_pending_index(recorded, &targets);
        proof {
            lemma_first_pending_splits(recorded, targets@, 0);
        }
        Some(UpgradePipeline { targets, recorded, next, must_regenerate: false, failed: false })
    }

    /// The version the store currently records.
    pub fn recorded_version(&self) -> (r: IndexVersion)
        ensures
            r == self.recorded(),
    {
        self.recorded
    }

    /// Whether every selected step has committed.
    pub fn is_complete(&self) -> (r: bool)
        ensures
            r == (self.next_spec() == self.targets().len()),
    {
        self.next == self.targets.len()
    }

    /// The target version of the next step to run, or `None` when the run is
    /// complete.
    pub fn next_target(&self) -> (r: Option<IndexVersion>)
        requires
            self.wf(),
        ensures
            match r {
                Some(v) => self.next_spec() < self.targets().len() && v == self.targets()[
                    self.next_spec()
                ],
                None => self.next_spec() == self.targets().len(),
            },
    {
        if self.next < self.targets.len() {
            Some(self.targets[self.next])
        } else {
            None
        }
    }

    /// The aggregate reindex signal: the OR of every committed step's signal.
    pub fn must_regenerate(&self) -> (r: bool)
        ensures
            r == self.must_regenerate_spec(),
    {
        self.must_regenerate
    }

    /// Whether a step failed, halting the run.
    pub fn has_failed(&self) -> (r: bool)
        ensures
            r == self.failed_spec(),
    {
        self.failed
    }

    /// Record that the next step's transaction committed, reporting its
    /// reindex signal: the recorded version advances to that step's target —
    /// and to nothing else — and the signal is OR-ed into the aggregate.
    pub fn step_committed(&mut self, needs_reindex: bool)
        requires
            old(self).wf(),
            !old(self).failed_spec(),
            old(self).next_spec() < old(self).targets().len(),
        ensures
            final(self).wf(),
            final(self).targets() == old(self).targets(),
            final(self).recorded() == old(self).targets()[old(self).next_spec()],
            final(self).next_spec() == old(self).next_spec() + 1,
            final(self).must_regenerate_spec() == (old(self).must_regenerate_spec()
                || needs_reindex),
            !final(self).failed_spec(),
    {
        let len = self.targets.len();
        assert(self.next < len);
        self.recorded = self.targets[self.next];
        self.next = self.next + 1;
        self.must_regenerate = self.must_regenerate || needs_reindex;
        proof {
            assert forall|j: int| 0 <= j < final(self).next_spec() implies !spec_version_lt(
                final(self).recorded(),
                final(self).targets()[j],
            ) by {
                if j < final(self).next_spec() - 1 {
                    assert(spec_version_lt(final(self).targets()[j], final(self).recorded()));
                }
            }
        }
    }

    /// Record that the next step's transaction aborted. Upgrade atomicity:
    /// the recorded version stays at the last committed value, the aggregate
    /// signal is unchanged, and the run halts as failed.
    pub fn step_failed(&mut self)
        requires
            old(self).wf(),
        ensures
            final(self).wf(),
            final(self).targets() == old(self).targets(),
            final(self).recorded() == old(self).recorded(),
            final(self).next_spec() == old(self).next_spec(),
            final(self).must_regenerate_spec() == old(self).must_regenerate_spec(),
            final(self).failed_spec(),
    {
        self.failed = true;
    }
}

/// Adjacent ascending pairs make the whole chain strictly ascending.
proof fn lemma_adjacent_sorted(targets: Seq<IndexVersion>)
    requires
        forall|j: int| 0 < j < targets.len() ==> spec_version_lt(#[trigger] targets[j - 1], targets[j]),
    ensures
        spec_sorted_strict(targets),
{
    assert forall|i: int, j: int| 0 <= i < j < targets.len() implies spec_version_lt(
        targets[i],
        targets[j],
    ) by {
        lemma_lt_chain(targets, i, j);
    }
}

/// Strict order propagates along the chain by transitivity.
proof fn lemma_lt_chain(targets: Seq<IndexVersion>, i: int, j: int)
    requires
        forall|k: int| 0 < k < targets.len() ==> spec_version_lt(#[trigger] targets[k - 1], targets[k]),
        0 <= i < j < targets.len(),
    ensures
        spec_version_lt(targets[i], targets[j]),
    decreases j - i,
{
    assert(spec_version_lt(targets[j - 1], targets[j]));
    if i + 1 < j {
        lemma_lt_chain(targets, i, j - 1);
    }
}

/// Skipping a satisfied prefix does not move the first pending index.
proof fn lemma_pending_shift(recorded: IndexVersion, targets: Seq<IndexVersion>, i: int)
    requires
        0 <= i <= targets.len(),
        forall|j: int| 0 <= j < i ==> !spec_version_lt(recorded, #[trigger] targets[j]),
    ensures
        spec_first_pending(recorded, targets) == spec_first_pending_from(recorded, targets, i),
    decreases i,
{
    if i > 0 {
        lemma_pending_shift(recorded, targets, i - 1);
    }
}

/// The migration step that brings a store from the preceding release line to
/// version 1.14.0 by rewriting the vector collection's on-disk encoding from
/// its 0.5 minor format to its 0.6 minor format.
#[allow(non_camel_case_types)]
pub struct Latest_V1_13_To_Latest_V1_14;

/// What a selected step asks its caller to perform inside the step's single
/// read-write transaction.
#[derive(Clone, Copy, Debug, PartialEq, Eq, Structural)]
pub enum UpgradeAction {
    /// Rewrite the vector collection's encoding from minor format 5 to minor
    /// format 6.
    MigrateVectorStoreFormat5To6,
}

/// The named sub-phases a step reports through while it executes. Reporting
/// is observability only and never affects correctness.
#[derive(Clone, Copy, Debug, PartialEq, Eq, Structural)]
pub enum VectorStorePhase {
    /// The internal format versions of the vector collection are rewritten.
    UpdateInternalVersions,
}

impl Latest_V1_13_To_Latest_V1_14 {
    /// The on-disk layout version this step produces.
    pub fn target_version(&self) -> (r: IndexVersion)
        ensures
            r == (1u32, 14u32, 0u32),
    {
        (1, 14, 0)
    }

    /// The outside work the caller performs for this step.
    pub fn action(&self) -> (r: UpgradeAction)
        ensures
            r == UpgradeAction::MigrateVectorStoreFormat5To6,
    {
        UpgradeAction::MigrateVectorStoreFormat5To6
    }

    /// The sub-phases this step reports through, in order.
    pub fn sub_phases(&self) -> (r: Vec<VectorStorePhase>)
        ensures
            r@ == seq![VectorStorePhase::UpdateInternalVersions],
    {
        let mut r: Vec<VectorStorePhase> = Vec::new();
        r.push(VectorStorePhase::UpdateInternalVersions);
        proof {
            assert(r@ =~= seq![VectorStorePhase::UpdateInternalVersions]);
        }
        r
    }

    /// The reindex signal this step reports on success: the vector
    /// collection's re-encoding preserves the indexed documents, so no full
    /// reindex is needed.
    pub fn needs_reindexing(&self) -> (r: bool)
        ensures
            !r,
    {
        false
    }
}

} // verus!
