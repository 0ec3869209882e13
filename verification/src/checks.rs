//! Ordered checks: the first that fails decides.

use vstd::prelude::*;

verus! {

/// The first failure of a row of checks.
pub open spec fn first<F>(failures: Seq<Option<F>>) -> Option<F>
    decreases failures.len(),
{
    if failures.len() == 0 {
        None
    } else if failures[0] is Some {
        failures[0]
    } else {
        first(failures.drop_first())
    }
}

/// The earlier of two failures.
pub open spec fn or<F>(earlier: Option<F>, later: Option<F>) -> Option<F> {
    if earlier is Some {
        earlier
    } else {
        later
    }
}

/// `failure` where `condition` holds.
pub open spec fn when<F>(condition: bool, failure: F) -> Option<F> {
    if condition {
        Some(failure)
    } else {
        None
    }
}

/// What a check returns for its failure.
pub open spec fn verdict<F>(failure: Option<F>) -> Result<(), F> {
    match failure {
        Some(failure) => Err(failure),
        None => Ok(()),
    }
}

/// Checks of which none fails have no first failure.
pub proof fn lemma_first_none<F>(failures: Seq<Option<F>>)
    requires
        forall|i: int| 0 <= i < failures.len() ==> #[trigger] failures[i] is None,
    ensures
        first(failures) is None,
    decreases failures.len(),
{
    if failures.len() > 0 {
        assert forall|i: int| 0 <= i < failures.drop_first().len() implies #[trigger] failures.drop_first()[i] is None by {
            assert(failures.drop_first()[i] == failures[i + 1]);
        }
        lemma_first_none(failures.drop_first());
    }
}

/// A failure behind checks that pass is the first failure.
pub proof fn lemma_first_at<F>(failures: Seq<Option<F>>, at: int)
    requires
        0 <= at < failures.len(),
        forall|i: int| 0 <= i < at ==> #[trigger] failures[i] is None,
        failures[at] is Some,
    ensures
        first(failures) == failures[at],
    decreases failures.len(),
{
    if at > 0 {
        assert forall|i: int| 0 <= i < at - 1 implies #[trigger] failures.drop_first()[i] is None by {
            assert(failures.drop_first()[i] == failures[i + 1]);
        }
        assert(failures.drop_first()[at - 1] == failures[at]);
        lemma_first_at(failures.drop_first(), at - 1);
    }
}

/// Checks without a first failure all pass.
pub proof fn lemma_first_passes<F>(failures: Seq<Option<F>>, at: int)
    requires
        first(failures) is None,
        0 <= at < failures.len(),
    ensures
        failures[at] is None,
    decreases failures.len(),
{
    if at > 0 {
        assert(failures.drop_first()[at - 1] == failures[at]);
        lemma_first_passes(failures.drop_first(), at - 1);
    }
}

/// A row of checks has no first failure exactly where every check passes.
pub proof fn lemma_first<F>(failures: Seq<Option<F>>)
    ensures
        first(failures) is None <==> forall|i: int|
            0 <= i < failures.len() ==> #[trigger] failures[i] is None,
{
    if forall|i: int| 0 <= i < failures.len() ==> #[trigger] failures[i] is None {
        lemma_first_none(failures);
    } else if first(failures) is None {
        assert forall|i: int| 0 <= i < failures.len() implies #[trigger] failures[i] is None by {
            lemma_first_passes(failures, i);
        }
    }
}

/// Of two failures the earlier one counts, and a check passes exactly where it has no failure.
pub proof fn law_the_earlier_failure_counts<F>(failure: F, later: Option<F>)
    ensures
        or(Some(failure), later) == Some(failure),
        or(None, later) == later,
        self::when(true, failure) == Some(failure),
        self::when(false, failure) is None,
        verdict(Some(failure)) == Err::<(), F>(failure),
        verdict(None::<F>) == Ok::<(), F>(()),
{
}

} // verus!
