//! Reading the audit trail: the parameters of the two queries and the
//! shape of the activity summary.

use vstd::prelude::*;

verus! {

/// The page of the audit trail that is asked for.
#[derive(Clone, Copy, Debug, PartialEq, Eq)]
pub struct AuditListQuery {
    pub limit: i64,
    pub offset: i64,
}

/// The length of a page where the request names none: 50.
pub fn default_limit() -> (limit: i64)
    ensures
        limit == 50,
{
    50
}

/// How often a principal did one thing.
#[derive(Clone, Debug, PartialEq, Eq)]
pub struct ActivitySummary {
    pub action: String,
    pub count: i64,
}

/// The activity of a principal over the last `days` days.
#[derive(Clone, Debug, PartialEq, Eq)]
pub struct ActivitySummaryResponse {
    pub summary: Vec<ActivitySummary>,
    pub days: i64,
}

/// The days that an activity summary looks back.
#[derive(Clone, Copy, Debug, PartialEq, Eq)]
pub struct ActivityQuery {
    pub days: i64,
}

/// The days to look back where the request names none: 30.
pub fn default_days() -> (days: i64)
    ensures
        days == 30,
{
    30
}

/// The activity summary made of the rows that the audit trail gave: one
/// line for each row, in the order of the rows.
pub fn get_activity_summary(rows: Vec<(String, i64)>, days: i64) -> (response:
    ActivitySummaryResponse)
    ensures
        response.days == days,
        response.summary@.len() == rows@.len(),
        forall|i: int|
            0 <= i < rows@.len() ==> (#[trigger] response.summary@[i]).action@ == rows@[i].0@
                && response.summary@[i].count == rows@[i].1,
{
    let mut summary: Vec<ActivitySummary> = Vec::new();
    let mut i: usize = 0;
    while i < rows.len()
        invariant
            i <= rows@.len(),
            summary@.len() == i,
            forall|j: int|
                0 <= j < i ==> (#[trigger] summary@[j]).action@ == rows@[j].0@ && summary@[j].count
                    == rows@[j].1,
        decreases rows@.len() - i,
    {
        summary.push(ActivitySummary { action: rows[i].0.clone(), count: rows[i].1 });
        i = i + 1;
    }
    ActivitySummaryResponse { summary, days }
}

} // verus!
