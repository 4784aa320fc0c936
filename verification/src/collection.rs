//! Collection lifecycle decisions: establishing the starting point ID at run
//! start, classifying upsert and stats failures, and composing the run
//! report.
//!
//! The store calls themselves are made by the caller; each function here
//! turns one call's result into the run's next state.

use vstd::prelude::*;
use vstd::string::StringExecFns;

use crate::decimal::append_decimal;
use crate::decimal::spec_decimal;
use crate::errors::IngestError;
use crate::errors::StoreError;

verus! {

/// The store work a run begins with: on a requested reset, delete the
/// collection (a failure there is ignored: absence is expected) and recreate
/// it with the requested dimensionality; otherwise read the collection's
/// current point count.
#[derive(Debug, PartialEq, Eq)]
pub enum SetupStep {
    ResetCollection { vector_size: u64 },
    QueryPointCount,
}

/// The result of the setup step the caller performed.
#[derive(Debug, PartialEq, Eq)]
pub enum SetupEvent {
    /// Outcome of recreating the collection after a reset.
    Created(Result<(), StoreError>),
    /// Outcome of reading the collection's point count for a continuation.
    Counted(Result<u64, StoreError>),
}

/// Chooses the setup work for this run.
pub fn setup_step(reset: bool, vector_size: u64) -> (s: SetupStep)
    ensures
        s == if reset {
            SetupStep::ResetCollection { vector_size }
        } else {
            SetupStep::QueryPointCount
        },
{
    if reset {
        SetupStep::ResetCollection { vector_size }
    } else {
        SetupStep::QueryPointCount
    }
}

/// Establishes the starting point ID from the setup outcome: 0 after a
/// successful reset, the collection's current point count on a successful
/// continuation. Either store failure aborts the run before any embedding
/// work.
pub fn start_id_for(event: SetupEvent) -> (r: Result<u64, IngestError>)
    ensures
        match event {
            SetupEvent::Created(c) => match c {
                Ok(_) => r == Ok::<u64, IngestError>(0u64),
                Err(e) => r == Err::<u64, IngestError>(IngestError::CollectionCreate(e)),
            },
            SetupEvent::Counted(c) => match c {
                Ok(n) => r == Ok::<u64, IngestError>(n),
                Err(e) => r == Err::<u64, IngestError>(IngestError::CollectionStats(e)),
            },
        },
{
    match event {
        SetupEvent::Created(Ok(())) => Ok(0),
        SetupEvent::Created(Err(e)) => Err(IngestError::CollectionCreate(e)),
        SetupEvent::Counted(Ok(n)) => Ok(n),
        SetupEvent::Counted(Err(e)) => Err(IngestError::CollectionStats(e)),
    }
}

/// An upsert failure is the one fatal outcome after embedding work: the run
/// aborts and the produced points are lost, not retried.
pub fn after_upsert(upsert: Result<(), StoreError>) -> (r: Result<(), IngestError>)
    ensures
        match upsert {
            Ok(_) => r == Ok::<(), IngestError>(()),
            Err(e) => r == Err::<(), IngestError>(IngestError::Upsert(e)),
        },
{
    match upsert {
        Ok(()) => Ok(()),
        Err(e) => Err(IngestError::Upsert(e)),
    }
}

/// What a completed run reports: how many points it inserted and the
/// collection's total afterwards.
#[derive(Debug, Clone, PartialEq, Eq)]
pub struct IngestSummary {
    pub inserted: usize,
    pub total: u64,
}

/// Composes the run summary from the post-upsert stats lookup; a stats
/// failure at this point leaves the run without a report.
pub fn ingest_summary(inserted: usize, stats: Result<u64, StoreError>) -> (r: Result<
    IngestSummary,
    IngestError,
>)
    ensures
        match stats {
            Ok(n) => r == Ok::<IngestSummary, IngestError>(IngestSummary { inserted, total: n }),
            Err(e) => r == Err::<IngestSummary, IngestError>(IngestError::FinalCount(e)),
        },
{
    match stats {
        Ok(n) => Ok(IngestSummary { inserted, total: n }),
        Err(e) => Err(IngestError::FinalCount(e)),
    }
}

/// The message a successful run reports.
pub open spec fn spec_report(inserted: nat, total: nat) -> Seq<char> {
    "Successfully inserted "@ + spec_decimal(inserted) + " records. The collection now has "@
        + spec_decimal(total) + " records in total."@
}

/// Renders the run report, for example
/// `Successfully inserted 1 records. The collection now has 1 records in total.`
pub fn report_message(summary: &IngestSummary) -> (r: String)
    ensures
        r@ == spec_report(summary.inserted as nat, summary.total as nat),
{
    let mut out: String = "Successfully inserted ".to_owned();
    append_decimal(&mut out, summary.inserted as u64);
    out.append(" records. The collection now has ");
    append_decimal(&mut out, summary.total);
    out.append(" records in total.");
    proof {
        assert(out@ =~= spec_report(summary.inserted as nat, summary.total as nat));
    }
    out
}

} // verus!
