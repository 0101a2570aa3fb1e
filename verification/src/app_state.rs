//! The progress record of a metadata synchronisation.

use vstd::prelude::*;

verus! {

/// The progress of a metadata synchronisation.
#[derive(Debug)]
pub struct MetadataProgress {
    pub in_progress: bool,
    pub started_at: Option<i64>,
    pub finished_at: Option<i64>,
    pub current_phase: Option<String>,
    pub total_pending: Option<i64>,
    pub processed_in_phase: usize,
    pub mangabaka_updated: usize,
    pub mal_updated: usize,
    pub anilist_updated: usize,
    pub merged_updated: usize,
    pub last_heartbeat: Option<i64>,
    pub error: Option<String>,
}

/// A record with nothing in it.
pub open spec fn is_empty_progress(p: MetadataProgress) -> bool {
    &&& !p.in_progress
    &&& p.started_at is None
    &&& p.finished_at is None
    &&& p.current_phase is None
    &&& p.total_pending is None
    &&& p.processed_in_phase == 0
    &&& p.mangabaka_updated == 0
    &&& p.mal_updated == 0
    &&& p.anilist_updated == 0
    &&& p.merged_updated == 0
    &&& p.last_heartbeat is None
    &&& p.error is None
}

impl Default for MetadataProgress {
    fn default() -> (p: MetadataProgress)
        ensures
            is_empty_progress(p),
    {
        MetadataProgress {
            in_progress: false,
            started_at: None,
            finished_at: None,
            current_phase: None,
            total_pending: None,
            processed_in_phase: 0,
            mangabaka_updated: 0,
            mal_updated: 0,
            anilist_updated: 0,
            merged_updated: 0,
            last_heartbeat: None,
            error: None,
        }
    }
}

/// The view of an optional string.
pub open spec fn phase_view(p: Option<String>) -> Option<Seq<char>> {
    match p {
        Some(s) => Some(s@),
        None => None,
    }
}

impl MetadataProgress {
    /// The record of a synchronisation that started at `now`, in its first
    /// phase, "mangabaka_sync".
    pub fn started(now: i64) -> (p: MetadataProgress)
        ensures
            p.in_progress,
            p.started_at == Some(now),
            phase_view(p.current_phase) == Some("mangabaka_sync"@),
            p.finished_at is None,
            p.total_pending is None,
            p.processed_in_phase == 0,
            p.mangabaka_updated == 0 && p.mal_updated == 0 && p.anilist_updated == 0
                && p.merged_updated == 0,
            p.last_heartbeat is None,
            p.error is None,
    {
        MetadataProgress {
            in_progress: true,
            started_at: Some(now),
            finished_at: None,
            current_phase: Some(String::from_str("mangabaka_sync")),
            total_pending: None,
            processed_in_phase: 0,
            mangabaka_updated: 0,
            mal_updated: 0,
            anilist_updated: 0,
            merged_updated: 0,
            last_heartbeat: None,
            error: None,
        }
    }

    /// Moves on to a provider's phase: nothing pending known, nothing
    /// processed yet.
    pub fn enter_sync_phase(&mut self, phase: &str)
        ensures
            phase_view(final(self).current_phase) == Some(phase@),
            final(self).total_pending is None,
            final(self).processed_in_phase == 0,
            final(self).in_progress == old(self).in_progress,
            final(self).started_at == old(self).started_at,
            final(self).finished_at == old(self).finished_at,
            final(self).mangabaka_updated == old(self).mangabaka_updated,
            final(self).mal_updated == old(self).mal_updated,
            final(self).anilist_updated == old(self).anilist_updated,
            final(self).merged_updated == old(self).merged_updated,
            final(self).error == old(self).error,
    {
        self.current_phase = Some(String::from_str(phase));
        self.total_pending = None;
        self.processed_in_phase = 0;
    }

    /// Moves on to the merge phase, "merge".
    pub fn enter_merge_phase(&mut self)
        ensures
            phase_view(final(self).current_phase) == Some("merge"@),
            final(self).total_pending is None,
            final(self).processed_in_phase == old(self).processed_in_phase,
            final(self).in_progress == old(self).in_progress,
            final(self).started_at == old(self).started_at,
            final(self).finished_at == old(self).finished_at,
            final(self).error == old(self).error,
    {
        self.current_phase = Some(String::from_str("merge"));
        self.total_pending = None;
    }

    /// Records that the synchronisation was cancelled.
    pub fn cancel(&mut self)
        ensures
            !final(self).in_progress,
            phase_view(final(self).error) == Some("cancelled"@),
            final(self).started_at == old(self).started_at,
            final(self).finished_at == old(self).finished_at,
            final(self).current_phase == old(self).current_phase,
    {
        self.error = Some(String::from_str("cancelled"));
        self.in_progress = false;
    }

    /// Records that the merge updated `merged` titles and the
    /// synchronisation finished at `now`.
    pub fn finish(&mut self, merged: usize, now: i64)
        ensures
            !final(self).in_progress,
            final(self).merged_updated == merged,
            final(self).current_phase is None,
            final(self).finished_at == Some(now),
            final(self).error == old(self).error,
            final(self).started_at == old(self).started_at,
    {
        self.merged_updated = merged;
        self.current_phase = None;
        self.finished_at = Some(now);
        self.in_progress = false;
    }

    /// Records that the merge failed with `message` at `now`.
    pub fn fail(&mut self, message: &str, now: i64)
        ensures
            !final(self).in_progress,
            phase_view(final(self).error) == Some("merge: "@ + message@),
            final(self).finished_at == Some(now),
            final(self).current_phase == old(self).current_phase,
            final(self).started_at == old(self).started_at,
    {
        let mut e = String::from_str("merge: ");
        e.append(message);
        self.error = Some(e);
        self.in_progress = false;
        self.finished_at = Some(now);
    }
}

} // verus!
