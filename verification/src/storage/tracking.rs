//! Commit statistics.

use vstd::prelude::*;

verus! {

/// How many commits were tracked, in all and by type.
#[derive(Clone, Copy, Debug, PartialEq, Eq, Structural)]
pub struct CommitStats {
    pub total: i64,
    pub releases: i64,
    pub updates: i64,
    pub patches: i64,
}

impl CommitStats {
    /// The statistics from the counts that the database reports; a sum over no
    /// rows comes back as nothing and counts as zero.
    pub fn from_counts(
        total: i64,
        releases: Option<i64>,
        updates: Option<i64>,
        patches: Option<i64>,
    ) -> (r: CommitStats)
        ensures
            r.total == total,
            r.releases == match releases {
                Some(n) => n,
                None => 0,
            },
            r.updates == match updates {
                Some(n) => n,
                None => 0,
            },
            r.patches == match patches {
                Some(n) => n,
                None => 0,
            },
    {
        CommitStats {
            total,
            releases: match releases {
                Some(n) => n,
                None => 0,
            },
            updates: match updates {
                Some(n) => n,
                None => 0,
            },
            patches: match patches {
                Some(n) => n,
                None => 0,
            },
        }
    }
}

} // verus!
