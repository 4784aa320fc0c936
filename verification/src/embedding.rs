//! Embedding orchestration: turning per-unit embedding outcomes into stored
//! points with sequential IDs.
//!
//! The caller requests one embedding per text unit and records each call's
//! outcome; `assign_points` then derives the points. A unit whose call failed
//! is skipped; a unit whose call returned several vectors yields one point
//! per vector. IDs run contiguously from the starting ID the collection
//! manager established.

use vstd::prelude::*;

verus! {

/// The outcome of one embedding call: how many vectors the provider
/// returned, or a tolerated per-unit failure.
#[derive(Debug, Clone, PartialEq, Eq)]
pub enum EmbedOutcome {
    /// The call succeeded and returned this many vectors.
    Embedded { vectors: usize },
    /// The call failed; the unit is skipped.
    Failed,
}

/// One point to upsert: its assigned ID, which unit and which of that unit's
/// vectors it carries, and the unit's text as payload. The vector itself
/// stays with the caller, addressed by the two indices.
#[derive(Debug, Clone, PartialEq, Eq)]
pub struct PointRecord {
    pub id: u64,
    pub unit_index: usize,
    pub vector_index: usize,
    pub text: String,
}

/// The mathematical model of a `PointRecord`.
pub struct PointModel {
    pub id: u64,
    pub unit_index: int,
    pub vector_index: int,
    pub text: Seq<char>,
}

impl View for PointRecord {
    type V = PointModel;

    open spec fn view(&self) -> PointModel {
        PointModel {
            id: self.id,
            unit_index: self.unit_index as int,
            vector_index: self.vector_index as int,
            text: self.text@,
        }
    }
}

/// How many vectors one outcome contributes.
pub open spec fn outcome_vectors(o: EmbedOutcome) -> nat {
    match o {
        EmbedOutcome::Embedded { vectors } => vectors as nat,
        EmbedOutcome::Failed => 0,
    }
}

/// The total number of points a run of outcomes produces.
pub open spec fn total_vectors(outcomes: Seq<EmbedOutcome>) -> nat
    decreases outcomes.len(),
{
    if outcomes.len() == 0 {
        0
    } else {
        total_vectors(outcomes.drop_last()) + outcome_vectors(outcomes.last())
    }
}

/// How many units embedded successfully.
pub open spec fn successful_units(outcomes: Seq<EmbedOutcome>) -> nat
    decreases outcomes.len(),
{
    if outcomes.len() == 0 {
        0
    } else {
        successful_units(outcomes.drop_last()) + if outcomes.last() is Embedded {
            1nat
        } else {
            0nat
        }
    }
}

/// The points one unit contributes: one per returned vector, IDs running
/// from `first_id`.
pub open spec fn unit_points(text: Seq<char>, count: nat, first_id: int, unit_index: int) -> Seq<
    PointModel,
> {
    Seq::new(count, |j: int| PointModel { id: (first_id + j) as u64, unit_index, vector_index: j, text })
}

/// The points a whole run produces, in order: unit by unit, vector by
/// vector, IDs contiguous from `start_id`.
pub open spec fn planned_points(units: Seq<String>, outcomes: Seq<EmbedOutcome>, start_id: int) -> Seq<
    PointModel,
>
    recommends
        units.len() == outcomes.len(),
    decreases outcomes.len(),
{
    if outcomes.len() == 0 {
        Seq::empty()
    } else {
        let k = outcomes.len() - 1;
        planned_points(units.take(k), outcomes.take(k), start_id) + unit_points(
            units[k]@,
            outcome_vectors(outcomes[k]),
            start_id + total_vectors(outcomes.take(k)),
            k,
        )
    }
}

/// Appending one outcome extends the total by that outcome's vectors.
pub proof fn lemma_total_vectors_step(outcomes: Seq<EmbedOutcome>, i: int)
    requires
        0 <= i < outcomes.len(),
    ensures
        total_vectors(outcomes.take(i + 1)) == total_vectors(outcomes.take(i)) + outcome_vectors(
            outcomes[i],
        ),
{
    assert(outcomes.take(i + 1).drop_last() =~= outcomes.take(i));
    assert(outcomes.take(i + 1).last() == outcomes[i]);
}

/// A prefix never contributes more points than the whole run.
pub proof fn lemma_total_vectors_prefix(outcomes: Seq<EmbedOutcome>, i: int)
    requires
        0 <= i <= outcomes.len(),
    ensures
        total_vectors(outcomes.take(i)) <= total_vectors(outcomes),
    decreases outcomes.len() - i,
{
    if i == outcomes.len() {
        assert(outcomes.take(i) =~= outcomes);
    } else {
        lemma_total_vectors_step(outcomes, i);
        lemma_total_vectors_prefix(outcomes, i + 1);
    }
}

/// Derives the points of one ingestion run from the normalized units and the
/// recorded embedding outcomes: every vector of every successful unit becomes
/// one point carrying that unit's text, and IDs are assigned contiguously
/// from `start_id` in order of creation.
pub fn assign_points(units: &Vec<String>, outcomes: &Vec<EmbedOutcome>, start_id: u64) -> (points:
    Vec<PointRecord>)
    requires
        units@.len() == outcomes@.len(),
        start_id + total_vectors(outcomes@) <= u64::MAX,
    ensures
        points@.map_values(|p: PointRecord| p@) == planned_points(units@, outcomes@, start_id as int),
        points@.len() == total_vectors(outcomes@),
{
    let ghost all_models = planned_points(units@, outcomes@, start_id as int);
    let mut points: Vec<PointRecord> = Vec::new();
    let mut id: u64 = start_id;
    let mut i: usize = 0;
    proof {
        assert(outcomes@.take(0) =~= Seq::<EmbedOutcome>::empty());
        assert(units@.take(0) =~= Seq::<String>::empty());
        assert(points@.map_values(|p: PointRecord| p@) =~= planned_points(
            units@.take(0),
            outcomes@.take(0),
            start_id as int,
        ));
    }
    while i < outcomes.len()
        invariant
            units@.len() == outcomes@.len(),
            start_id + total_vectors(outcomes@) <= u64::MAX,
            0 <= i <= outcomes@.len(),
            id == start_id + total_vectors(outcomes@.take(i as int)),
            points@.len() == total_vectors(outcomes@.take(i as int)),
            points@.map_values(|p: PointRecord| p@) == planned_points(
                units@.take(i as int),
                outcomes@.take(i as int),
                start_id as int,
            ),
        decreases outcomes@.len() - i,
    {
        let ghost prefix_models = planned_points(
            units@.take(i as int),
            outcomes@.take(i as int),
            start_id as int,
        );
        let ghost base = id;
        proof {
            lemma_total_vectors_step(outcomes@, i as int);
            lemma_total_vectors_prefix(outcomes@, i as int + 1);
        }
        match outcomes[i] {
            EmbedOutcome::Embedded { vectors } => {
                let mut j: usize = 0;
                while j < vectors
                    invariant
                        units@.len() == outcomes@.len(),
                        0 <= i < outcomes@.len(),
                        outcomes@[i as int] == (EmbedOutcome::Embedded { vectors }),
                        0 <= j <= vectors,
                        base + vectors <= start_id + total_vectors(outcomes@),
                        start_id + total_vectors(outcomes@) <= u64::MAX,
                        id == base + j,
                        points@.len() == (base - start_id) + j,
                        points@.map_values(|p: PointRecord| p@) == prefix_models + unit_points(
                            units@[i as int]@,
                            j as nat,
                            base as int,
                            i as int,
                        ),
                    decreases vectors - j,
                {
                    let ghost before = points@.map_values(|p: PointRecord| p@);
                    let record = PointRecord {
                        id,
                        unit_index: i,
                        vector_index: j,
                        text: units[i].clone(),
                    };
                    points.push(record);
                    proof {
                        assert(points@.map_values(|p: PointRecord| p@) =~= before.push(record@));
                        assert(points@.map_values(|p: PointRecord| p@) =~= prefix_models
                            + unit_points(
                            units@[i as int]@,
                            (j + 1) as nat,
                            base as int,
                            i as int,
                        ));
                    }
                    id = id + 1;
                    j = j + 1;
                }
            },
            EmbedOutcome::Failed => {},
        }
        proof {
            assert(units@.take(i as int + 1).take(i as int) =~= units@.take(i as int));
            assert(outcomes@.take(i as int + 1).take(i as int) =~= outcomes@.take(i as int));
            assert(units@.take(i as int + 1)[i as int] == units@[i as int]);
            assert(outcomes@.take(i as int + 1)[i as int] == outcomes@[i as int]);
            assert(planned_points(
                units@.take(i as int + 1),
                outcomes@.take(i as int + 1),
                start_id as int,
            ) == planned_points(units@.take(i as int), outcomes@.take(i as int), start_id as int)
                + unit_points(
                units@[i as int]@,
                outcome_vectors(outcomes@[i as int]),
                start_id + total_vectors(outcomes@.take(i as int)),
                i as int,
            ));
            if outcomes@[i as int] is Failed {
                assert(points@.map_values(|p: PointRecord| p@) =~= prefix_models + unit_points(
                    units@[i as int]@,
                    0,
                    base as int,
                    i as int,
                ));
            }
        }
        i = i + 1;
    }
    proof {
        assert(outcomes@.take(outcomes@.len() as int) =~= outcomes@);
        assert(units@.take(units@.len() as int) =~= units@);
    }
    points
}

/// Point IDs form a contiguous strictly increasing sequence from the
/// starting ID: the k-th point produced has ID `start_id + k`.
pub proof fn lemma_point_ids_contiguous(
    units: Seq<String>,
    outcomes: Seq<EmbedOutcome>,
    start_id: int,
)
    requires
        units.len() == outcomes.len(),
        0 <= start_id,
        start_id + total_vectors(outcomes) <= u64::MAX,
    ensures
        planned_points(units, outcomes, start_id).len() == total_vectors(outcomes),
        forall|k: int|
            0 <= k < total_vectors(outcomes) ==> planned_points(units, outcomes, start_id)[k].id
                == start_id + k,
    decreases outcomes.len(),
{
    if outcomes.len() > 0 {
        let n = outcomes.len() as int;
        lemma_total_vectors_step(outcomes, n - 1);
        assert(outcomes.take(n) =~= outcomes);
        lemma_total_vectors_prefix(outcomes, n - 1);
        lemma_point_ids_contiguous(units.take(n - 1), outcomes.take(n - 1), start_id);
    }
}

/// Every successful unit yields at least one point, a failed unit none:
/// with one vector per successful call, the number of points equals the
/// number of units whose embedding call succeeded; in general each failure
/// only removes that unit's points from the run.
pub proof fn lemma_one_point_per_successful_unit(outcomes: Seq<EmbedOutcome>)
    requires
        forall|i: int|
            0 <= i < outcomes.len() ==> (#[trigger] outcomes[i] matches EmbedOutcome::Embedded {
                vectors,
            } ==> vectors == 1),
    ensures
        total_vectors(outcomes) == successful_units(outcomes),
    decreases outcomes.len(),
{
    if outcomes.len() > 0 {
        lemma_one_point_per_successful_unit(outcomes.drop_last());
    }
}

/// A failure never increases the run's point count: replacing any outcome by
/// a failure can only reduce the total.
pub proof fn lemma_failure_only_reduces(outcomes: Seq<EmbedOutcome>, i: int)
    requires
        0 <= i < outcomes.len(),
    ensures
        total_vectors(outcomes.update(i, EmbedOutcome::Failed)) <= total_vectors(outcomes),
    decreases outcomes.len(),
{
    let updated = outcomes.update(i, EmbedOutcome::Failed);
    if i == outcomes.len() - 1 {
        assert(updated.drop_last() =~= outcomes.drop_last());
    } else {
        assert(updated.drop_last() =~= outcomes.drop_last().update(i, EmbedOutcome::Failed));
        assert(updated.last() == outcomes.last());
        lemma_failure_only_reduces(outcomes.drop_last(), i);
    }
}

} // verus!
