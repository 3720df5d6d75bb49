use vstd::prelude::*;

use crate::compression::{spec_extension, CompressionAlgorithm};
use crate::error::Error;
use crate::order::{name_key, name_le, names_sorted, sort_names};
use crate::timestamp::{
    lemma_file_name_order_is_chronological, spec_chronological_lt, spec_timestamp_name, Timestamp,
};

verus! {

/// The declared deletion strategies of a retention policy.
///
/// Only `Sequential` is implemented; the other two are declared but
/// rejected with `UnsupportedStrategy` rather than silently approximated.
#[derive(Clone, Copy, PartialEq, Eq, Structural, Debug)]
pub enum DeleteMethod {
    /// Repeatedly drop the single oldest archive until the bound holds.
    Sequential,
    /// Keep one archive per fixed time interval (not implemented).
    TimeBlock,
    /// Keep exponentially sparser history with age (not implemented).
    Thinning,
}

/// Two names differ as order keys: strict ascending order.
pub open spec fn name_lt(a: String, b: String) -> bool {
    name_le(a, b) && name_key(a@) != name_key(b@)
}

/// A sequence of names in strictly ascending lexical order.
pub open spec fn names_ascending(s: Seq<String>) -> bool {
    forall|i: int, j: int| 0 <= i < j < s.len() ==> name_lt(#[trigger] s[i], #[trigger] s[j])
}

/// How many of `n` archives exceed the bound `k`.
pub open spec fn spec_excess(n: int, k: int) -> int {
    if n > k {
        n - k
    } else {
        0
    }
}

/// The archives that survive enforcing the bound `k` on the sorted
/// listing `s`: everything but the `spec_excess` oldest.
pub open spec fn spec_retained(s: Seq<String>, k: int) -> Seq<String> {
    s.skip(spec_excess(s.len() as int, k))
}

/// The archives that enforcing the bound `k` deletes from the sorted
/// listing `s`: the `spec_excess` oldest, oldest first.
pub open spec fn spec_victims(s: Seq<String>, k: int) -> Seq<String> {
    s.take(spec_excess(s.len() as int, k))
}

/// The archives on disk after a sequence of backup creations, each of which
/// is followed by enforcing the bound `k`: each creation appends its name,
/// then the oldest names beyond the bound are dropped.
pub open spec fn spec_rotation(created: Seq<String>, k: int) -> Seq<String>
    decreases created.len(),
{
    if created.len() == 0 {
        Seq::empty()
    } else {
        spec_retained(spec_rotation(created.drop_last(), k).push(created.last()), k)
    }
}

/// Retention bound: for every sequence of backup creations with strictly
/// ascending names and a bound of `k >= 1`, enforcing the bound after each
/// creation leaves exactly `min(N, k)` archives, and they are the `k` most
/// recently created ones, still in ascending order.
pub proof fn lemma_retention_bound(created: Seq<String>, k: int)
    requires
        k >= 1,
        names_ascending(created),
    ensures
        spec_rotation(created, k) == created.skip(spec_excess(created.len() as int, k)),
        spec_rotation(created, k).len() == if created.len() <= k {
            created.len() as int
        } else {
            k
        },
        names_sorted(spec_rotation(created, k)),
    decreases created.len(),
{
    if created.len() == 0 {
        assert(spec_rotation(created, k) =~= created.skip(0));
    } else {
        let n = created.len() as int;
        let prev_created = created.drop_last();
        assert(names_ascending(prev_created)) by {
            assert forall|i: int, j: int| 0 <= i < j < prev_created.len() implies name_lt(
                #[trigger] prev_created[i],
                #[trigger] prev_created[j],
            ) by {
                assert(prev_created[i] == created[i]);
                assert(prev_created[j] == created[j]);
            }
        }
        lemma_retention_bound(prev_created, k);
        let prev = spec_rotation(prev_created, k);
        let e_prev = spec_excess(n - 1, k);
        let st = prev.push(created.last());
        assert(st =~= created.skip(e_prev)) by {
            assert(prev == prev_created.skip(e_prev));
            assert forall|i: int| 0 <= i < n - e_prev implies created.skip(e_prev)[i] == st[i] by {
                if i < n - 1 - e_prev {
                    assert(st[i] == prev_created.skip(e_prev)[i]);
                    assert(prev_created[e_prev + i] == created[e_prev + i]);
                }
            }
        }
        let e = spec_excess(st.len() as int, k);
        assert(spec_rotation(created, k) == st.skip(e));
        assert(st.skip(e) =~= created.skip(spec_excess(n, k))) by {
            assert forall|i: int| 0 <= i < st.len() - e implies st.skip(e)[i] == created.skip(
                spec_excess(n, k),
            )[i] by {
                assert(st[e + i] == created[e_prev + e + i]);
            }
        }
        let result = spec_rotation(created, k);
        assert(names_sorted(result)) by {
            let off = spec_excess(n, k);
            assert forall|i: int, j: int| 0 <= i < j < result.len() implies name_le(
                #[trigger] result[i],
                #[trigger] result[j],
            ) by {
                assert(result[i] == created[off + i]);
                assert(result[j] == created[off + j]);
                assert(name_lt(created[off + i], created[off + j]));
            }
        }
    }
}

/// Archive file names ascend with their timestamps: names built as the
/// timestamp name plus one algorithm's extension are strictly ascending
/// in the retention order whenever the timestamps are chronologically
/// ordered. This discharges the ascending-names premise of
/// `lemma_retention_bound` for every listing of real backup names.
pub proof fn lemma_backup_names_ascend(
    s1: String,
    s2: String,
    a: Timestamp,
    b: Timestamp,
    alg: CompressionAlgorithm,
)
    requires
        a.valid(),
        b.valid(),
        spec_chronological_lt(a, b),
        s1@ == spec_timestamp_name(a) + spec_extension(alg),
        s2@ == spec_timestamp_name(b) + spec_extension(alg),
    ensures
        name_lt(s1, s2),
{
    lemma_file_name_order_is_chronological(a, b, alg);
}

/// One enforcement of a retention bound, ready for the caller to carry out.
///
/// The run names, in order, the archives to delete: the oldest ones beyond
/// the bound. The caller asks for the `next_target`, attempts the deletion,
/// and reports the outcome back. After a reported failure the run stops
/// handing out targets, so a single I/O error never destroys more than the
/// archives already reported deleted.
pub struct DeletionRun {
    plan: Vec<String>,
    keep: Vec<String>,
    next: usize,
    stopped: bool,
}

impl DeletionRun {
    /// The names this run deletes, oldest first.
    pub closed spec fn plan(&self) -> Seq<String> {
        self.plan@
    }

    /// The names this run retains, ascending.
    pub closed spec fn kept(&self) -> Seq<String> {
        self.keep@
    }

    /// How many planned deletions have been carried out so far.
    pub closed spec fn done(&self) -> int {
        self.next as int
    }

    /// Whether a deletion failure has stopped the run.
    pub closed spec fn stopped(&self) -> bool {
        self.stopped
    }

    /// The names deleted so far: the carried-out prefix of the plan.
    pub open spec fn deleted(&self) -> Seq<String> {
        self.plan().take(self.done())
    }

    pub open spec fn wf(&self) -> bool {
        0 <= self.done() <= self.plan().len()
    }

    spec fn fresh_for(&self, plan: Seq<String>, keep: Seq<String>) -> bool {
        &&& self.plan() == plan
        &&& self.kept() == keep
        &&& self.done() == 0
        &&& !self.stopped()
    }

    fn new(plan: Vec<String>, keep: Vec<String>) -> (r: DeletionRun)
        ensures
            r.fresh_for(plan@, keep@),
            r.wf(),
    {
        DeletionRun { plan, keep, next: 0, stopped: false }
    }

    /// The next archive to delete, if the run is neither done nor stopped.
    pub fn next_target(&self) -> (r: Option<&String>)
        requires
            self.wf(),
        ensures
            match r {
                Some(name) => {
                    &&& !self.stopped()
                    &&& self.done() < self.plan().len()
                    &&& *name == self.plan()[self.done()]
                },
                None => self.stopped() || self.done() == self.plan().len(),
            },
    {
        if self.stopped || self.next >= self.plan.len() {
            None
        } else {
            Some(&self.plan[self.next])
        }
    }

    /// Record that the current target was deleted.
    pub fn record_success(&mut self)
        requires
            old(self).wf(),
            !old(self).stopped(),
            old(self).done() < old(self).plan().len(),
        ensures
            final(self).wf(),
            final(self).plan() == old(self).plan(),
            final(self).kept() == old(self).kept(),
            final(self).stopped() == old(self).stopped(),
            final(self).done() == old(self).done() + 1,
    {
        let bound = self.plan.len();
        assert(self.next < bound);
        self.next = self.next + 1;
    }

    /// Record that deleting the current target failed.
    ///
    /// From here on `next_target` returns `None`: deletion does not proceed
    /// past an I/O error, and what was already deleted stays reported.
    pub fn record_failure(&mut self)
        requires
            old(self).wf(),
        ensures
            final(self).wf(),
            final(self).plan() == old(self).plan(),
            final(self).kept() == old(self).kept(),
            final(self).done() == old(self).done(),
            final(self).stopped(),
            final(self).deleted() == old(self).deleted(),
    {
        self.stopped = true;
    }

    /// The ordered names deleted so far, for caller reporting.
    pub fn deleted_names(&self) -> (r: Vec<String>)
        requires
            self.wf(),
        ensures
            r@ == self.deleted(),
    {
        let mut out: Vec<String> = Vec::new();
        let mut i: usize = 0;
        while i < self.next
            invariant
                self.wf(),
                i <= self.next,
                out@ == self.plan@.take(i as int),
            decreases self.next - i,
        {
            out.push(self.plan[i].clone());
            proof {
                assert(self.plan@.take(i + 1) =~= self.plan@.take(i as int).push(
                    self.plan@[i as int],
                ));
            }
            i = i + 1;
        }
        out
    }
}

/// Decide which archives an enforcement of the retention policy deletes.
///
/// `names` is the backup directory listing, in any order. Without a bound
/// the run is empty, whatever the strategy: enforcement has nothing to do.
/// With a bound `k` and the `Sequential` strategy, the names are sorted
/// ascending (chronological order for timestamp names) and the oldest
/// `len - k` become the plan, the rest are kept. With a bound, the two
/// unimplemented strategies are rejected with `UnsupportedStrategy` rather
/// than silently aliased; no other input fails.
pub fn plan_deletions(
    names: &Vec<String>,
    max_backups: Option<usize>,
    method: DeleteMethod,
) -> (r: Result<DeletionRun, Error>)
    ensures
        match r {
            Ok(run) => {
                &&& run.wf()
                &&& run.done() == 0
                &&& !run.stopped()
                &&& match max_backups {
                    None => {
                        &&& run.plan().len() == 0
                        &&& run.kept() == names@
                    },
                    Some(k) => {
                        &&& method == DeleteMethod::Sequential
                        &&& names_sorted(run.plan() + run.kept())
                        &&& (run.plan() + run.kept()).to_multiset() == names@.to_multiset()
                        &&& run.plan() == spec_victims(run.plan() + run.kept(), k as int)
                        &&& run.kept() == spec_retained(run.plan() + run.kept(), k as int)
                        &&& run.plan().len() == spec_excess(names@.len() as int, k as int)
                        &&& (names_sorted(names@) ==> run.plan() + run.kept() == names@)
                    },
                }
            },
            Err(e) => {
                &&& e == Error::UnsupportedStrategy
                &&& (method == DeleteMethod::TimeBlock || method == DeleteMethod::Thinning)
                &&& max_backups is Some
            },
        },
{
    let k = match max_backups {
        None => {
            let mut keep: Vec<String> = Vec::new();
            let mut i: usize = 0;
            while i < names.len()
                invariant
                    i <= names@.len(),
                    keep@ == names@.take(i as int),
                decreases names@.len() - i,
            {
                keep.push(names[i].clone());
                proof {
                    assert(names@.take(i + 1) =~= names@.take(i as int).push(names@[i as int]));
                }
                i = i + 1;
            }
            proof {
                assert(names@.take(names@.len() as int) =~= names@);
            }
            return Ok(DeletionRun::new(Vec::new(), keep));
        },
        Some(k) => k,
    };
    match method {
        DeleteMethod::TimeBlock => {
            return Err(Error::UnsupportedStrategy);
        },
        DeleteMethod::Thinning => {
            return Err(Error::UnsupportedStrategy);
        },
        DeleteMethod::Sequential => {},
    }
    let sorted = sort_names(names);
    let total = sorted.len();
    let excess = if total > k {
        total - k
    } else {
        0
    };
    let mut plan: Vec<String> = Vec::new();
    let mut keep: Vec<String> = Vec::new();
    let mut i: usize = 0;
    while i < excess
        invariant
            excess <= total,
            total == sorted@.len(),
            i <= excess,
            plan@ == sorted@.take(i as int),
        decreases excess - i,
    {
        plan.push(sorted[i].clone());
        proof {
            assert(sorted@.take(i + 1) =~= sorted@.take(i as int).push(sorted@[i as int]));
        }
        i = i + 1;
    }
    while i < total
        invariant
            excess <= total,
            total == sorted@.len(),
            excess <= i <= total,
            plan@ == sorted@.take(excess as int),
            keep@ == sorted@.subrange(excess as int, i as int),
        decreases total - i,
    {
        keep.push(sorted[i].clone());
        proof {
            assert(sorted@.subrange(excess as int, i + 1) =~= sorted@.subrange(
                excess as int,
                i as int,
            ).push(sorted@[i as int]));
        }
        i = i + 1;
    }
    proof {
        assert(plan@ + keep@ =~= sorted@);
        assert(keep@ =~= spec_retained(sorted@, k as int));
        assert(plan@ =~= spec_victims(sorted@, k as int));
    }
    Ok(DeletionRun::new(plan, keep))
}

} // verus!
