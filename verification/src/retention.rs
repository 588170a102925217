use vstd::prelude::*;

verus! {

/// Every entry of `r` also occurs in `snapshots`: the same instant with the
/// same name.
pub open spec fn entries_drawn_from(
    r: Seq<(i64, Seq<char>)>,
    snapshots: Seq<(i64, Seq<char>)>,
) -> bool {
    forall|i: int| 0 <= i < r.len() ==> snapshots.contains(r[i])
}

/// The capability that decides which snapshots violate the retention policy.
/// Given the current instant, the ordered retention windows (milliseconds
/// each) and the existing `(instant, name)` snapshots, it returns the subset
/// to delete. The decision algorithm lives outside this library; the contract
/// pins only what the orchestrator relies on: the decision is a function of
/// the inputs alone, and every returned entry is one of the existing
/// snapshots.
pub trait RetentionEvaluator: Sized {
    /// The subset of `snapshots` this evaluator marks for deletion. An
    /// evaluator that does not model its decision marks nothing.
    open spec fn decide(&self, now: i64, windows: Seq<i64>, snapshots: Seq<(i64, Seq<char>)>) -> Seq<
        (i64, Seq<char>),
    > {
        Seq::empty()
    }

    /// Evaluate the policy: return exactly the snapshots `decide` marks.
    fn evaluate(&self, now: i64, windows: &Vec<i64>, snapshots: &Vec<(i64, String)>) -> (r: Vec<
        (i64, String),
    >)
        ensures
            r.deep_view() == self.decide(now, windows@, snapshots.deep_view()),
            entries_drawn_from(r.deep_view(), snapshots.deep_view()),
    ;
}

/// The entries of `picked` that occur in `snapshots`, in `picked`'s order.
pub open spec fn present_entries(
    picked: Seq<(i64, Seq<char>)>,
    snapshots: Seq<(i64, Seq<char>)>,
) -> Seq<(i64, Seq<char>)>
    decreases picked.len(),
{
    if picked.len() == 0 {
        Seq::empty()
    } else {
        let rest = present_entries(picked.skip(1), snapshots);
        if snapshots.contains(picked[0]) {
            seq![picked[0]] + rest
        } else {
            rest
        }
    }
}

proof fn lemma_present_entries_drawn_from(
    picked: Seq<(i64, Seq<char>)>,
    snapshots: Seq<(i64, Seq<char>)>,
)
    ensures
        entries_drawn_from(present_entries(picked, snapshots), snapshots),
    decreases picked.len(),
{
    if picked.len() == 0 {
    } else {
        lemma_present_entries_drawn_from(picked.skip(1), snapshots);
        let r = present_entries(picked, snapshots);
        let rest = present_entries(picked.skip(1), snapshots);
        assert forall|i: int| 0 <= i < r.len() implies snapshots.contains(r[i]) by {
            if snapshots.contains(picked[0]) {
                if i > 0 {
                    assert(r[i] == rest[i - 1]);
                }
            } else {
                assert(r[i] == rest[i]);
            }
        }
    }
}

proof fn lemma_present_entries_step(
    picked: Seq<(i64, Seq<char>)>,
    snapshots: Seq<(i64, Seq<char>)>,
    i: int,
)
    requires
        0 <= i < picked.len(),
    ensures
        present_entries(picked.skip(i), snapshots) == if snapshots.contains(picked[i]) {
            seq![picked[i]] + present_entries(picked.skip(i + 1), snapshots)
        } else {
            present_entries(picked.skip(i + 1), snapshots)
        },
{
    let tail = picked.skip(i);
    assert(tail[0] == picked[i]);
    assert(tail.skip(1) =~~= picked.skip(i + 1));
}

/// A deterministic stand-in evaluator: it marks exactly its configured
/// entries, as far as they exist among the snapshots it is shown, in its
/// configured order.
pub struct FixedSetEvaluator {
    pub to_delete: Vec<(i64, String)>,
}

impl FixedSetEvaluator {
    /// An evaluator that will mark exactly the entries of `to_delete` that
    /// exist.
    pub fn new(to_delete: Vec<(i64, String)>) -> (r: Self)
        ensures
            r.to_delete == to_delete,
    {
        FixedSetEvaluator { to_delete }
    }
}

impl RetentionEvaluator for FixedSetEvaluator {
    open spec fn decide(&self, now: i64, windows: Seq<i64>, snapshots: Seq<(i64, Seq<char>)>) -> Seq<
        (i64, Seq<char>),
    > {
        present_entries(self.to_delete.deep_view(), snapshots)
    }

    fn evaluate(&self, now: i64, windows: &Vec<i64>, snapshots: &Vec<(i64, String)>) -> (r: Vec<
        (i64, String),
    >) {
        let picked = &self.to_delete;
        let mut r: Vec<(i64, String)> = Vec::new();
        let n = picked.len();
        let mut i: usize = 0;
        proof {
            assert(r.deep_view() =~= Seq::<(i64, Seq<char>)>::empty());
            assert(picked.deep_view().skip(0) =~~= picked.deep_view());
        }
        while i < n
            invariant
                0 <= i <= n,
                n == picked@.len(),
                picked.deep_view() == self.to_delete.deep_view(),
                present_entries(picked.deep_view(), snapshots.deep_view()) == r.deep_view()
                    + present_entries(picked.deep_view().skip(i as int), snapshots.deep_view()),
            decreases n - i,
        {
            proof {
                assert(picked.deep_view()[i as int] == (picked@[i as int].0, picked@[i as int].1@));
                lemma_present_entries_step(picked.deep_view(), snapshots.deep_view(), i as int);
            }
            let entry = &picked[i];
            let m = snapshots.len();
            let mut k: usize = 0;
            let mut found: bool = false;
            while k < m
                invariant
                    0 <= k <= m,
                    m == snapshots@.len(),
                    i < n,
                    n == picked@.len(),
                    entry == &picked@[i as int],
                    found <==> exists|j: int|
                        0 <= j < k && snapshots.deep_view()[j] == picked.deep_view()[i as int],
                decreases m - k,
            {
                let candidate = &snapshots[k];
                if entry.0 == candidate.0 && entry.1 == candidate.1 {
                    proof {
                        assert(snapshots.deep_view()[k as int] == (
                            snapshots@[k as int].0,
                            snapshots@[k as int].1@,
                        ));
                    }
                    found = true;
                }
                proof {
                    assert(snapshots.deep_view()[k as int] == (
                        snapshots@[k as int].0,
                        snapshots@[k as int].1@,
                    ));
                }
                k += 1;
            }
            proof {
                if found {
                    assert(snapshots.deep_view().contains(picked.deep_view()[i as int]));
                } else {
                    assert(!snapshots.deep_view().contains(picked.deep_view()[i as int])) by {
                        if snapshots.deep_view().contains(picked.deep_view()[i as int]) {
                            let j = choose|j: int|
                                0 <= j < snapshots.deep_view().len() && snapshots.deep_view()[j]
                                    == picked.deep_view()[i as int];
                            assert(0 <= j < m);
                        }
                    }
                }
            }
            if found {
                let ghost old_r = r.deep_view();
                r.push((entry.0, entry.1.clone()));
                proof {
                    assert(r.deep_view() =~= old_r.push(picked.deep_view()[i as int]));
                    assert(present_entries(picked.deep_view(), snapshots.deep_view())
                        =~~= r.deep_view() + present_entries(
                        picked.deep_view().skip(i + 1),
                        snapshots.deep_view(),
                    ));
                }
            } else {
                proof {
                    assert(present_entries(picked.deep_view(), snapshots.deep_view())
                        =~~= r.deep_view() + present_entries(
                        picked.deep_view().skip(i + 1),
                        snapshots.deep_view(),
                    ));
                }
            }
            i += 1;
        }
        proof {
            assert(present_entries(picked.deep_view().skip(n as int), snapshots.deep_view())
                =~~= Seq::<(i64, Seq<char>)>::empty());
            assert(r.deep_view() =~~= present_entries(picked.deep_view(), snapshots.deep_view()));
            lemma_present_entries_drawn_from(picked.deep_view(), snapshots.deep_view());
        }
        r
    }
}

} // verus!
