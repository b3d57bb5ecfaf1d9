//! Properties of the planning pass that hold of every directory listing.

use vstd::prelude::*;
use crate::job::{
    ep_capture, fatal_entry, job_view_of, passes_filters, planned_episodes, produces_job,
    scan_succeeds, EpisodeJobView, FileEntry, JobConfig,
};
use crate::sidecar::sidecar_text;

verus! {

/// A directory containing no video files plans no episode jobs, whatever
/// `force` says.
pub proof fn lemma_no_videos_no_episodes(entries: Seq<FileEntry>, config: JobConfig, force: bool)
    requires
        forall|i: int| 0 <= i < entries.len() ==> !(#[trigger] entries[i]).is_video,
    ensures
        planned_episodes(entries, config, force) == Seq::<EpisodeJobView>::empty(),
    decreases entries.len(),
{
    if entries.len() > 0 {
        let front = entries.drop_last();
        assert forall|i: int| 0 <= i < front.len() implies !(#[trigger] front[i]).is_video by {
            assert(front[i] == entries[i]);
        }
        lemma_no_videos_no_episodes(front, config, force);
        assert(!entries.last().is_video);
    }
}

/// The idempotence guard per file: with `force` off, an entry whose sidecar
/// already exists yields no job and no error; with `force` on, the sidecar's
/// presence has no say in whether a job is owed.
pub proof fn lemma_sidecar_guard(e: FileEntry)
    requires
        e.sidecar_exists,
    ensures
        !produces_job(e, false),
        !fatal_entry(e, false),
        produces_job(e, true) == (e.is_video && e.file_name is Some && ep_capture(e) is Some
            && e.path is Some),
{
}

/// One directory entry as a second scan would see it, after an external step
/// created the sidecar of every job a first scan (made with `force`) planned:
/// everything is as before, except that the sidecars of planned episodes now
/// exist, and no existing sidecar went away.
pub open spec fn rescanned(e1: FileEntry, e2: FileEntry, force: bool) -> bool {
    &&& e2.is_file == e1.is_file
    &&& e2.is_video == e1.is_video
    &&& e2.file_name == e1.file_name
    &&& e2.path == e1.path
    &&& e2.pattern == e1.pattern
    &&& e2.shifted_index == e1.shifted_index
    &&& e1.sidecar_exists ==> e2.sidecar_exists
    &&& e1.is_file && produces_job(e1, force) ==> e2.sidecar_exists
}

/// Idempotence of the scan: after a first scan that did not abort, and an
/// external step that created the sidecar of every episode it planned, a
/// second scan with `force` off plans no episode at all and cannot abort.
pub proof fn lemma_second_scan_plans_nothing(
    entries1: Seq<FileEntry>,
    entries2: Seq<FileEntry>,
    config: JobConfig,
    force: bool,
)
    requires
        entries1.len() == entries2.len(),
        scan_succeeds(entries1, force),
        forall|i: int| 0 <= i < entries1.len() ==> rescanned(entries1[i], entries2[i], force),
    ensures
        scan_succeeds(entries2, false),
        planned_episodes(entries2, config, false) == Seq::<EpisodeJobView>::empty(),
    decreases entries2.len(),
{
    if entries2.len() > 0 {
        let n = entries2.len() - 1;
        let f1 = entries1.drop_last();
        let f2 = entries2.drop_last();
        assert forall|i: int|
            0 <= i < f1.len() implies !(#[trigger] f1[i].is_file && fatal_entry(f1[i], force)) by {
            assert(f1[i] == entries1[i]);
        }
        assert forall|i: int| 0 <= i < f1.len() implies rescanned(f1[i], f2[i], force) by {
            assert(f1[i] == entries1[i]);
            assert(f2[i] == entries2[i]);
            assert(rescanned(entries1[i], entries2[i], force));
        }
        lemma_second_scan_plans_nothing(f1, f2, config, force);
        let e1 = entries1[n as int];
        let e2 = entries2[n as int];
        assert(rescanned(e1, e2, force));
        assert(!(e1.is_file && fatal_entry(e1, force)));
        if e2.is_file && passes_filters(e2, false) {
            assert(!e2.sidecar_exists);
            assert(!e1.sidecar_exists);
            assert(ep_capture(e2) == ep_capture(e1));
            assert(passes_filters(e1, force));
            if e1.path is Some {
                assert(produces_job(e1, force));
                assert(e2.sidecar_exists);
            } else {
                assert(fatal_entry(e1, force));
            }
            assert(false);
        }
        assert(entries2.last() == e2);
        assert(planned_episodes(entries2, config, false) == planned_episodes(f2, config, false));
        assert forall|i: int|
            0 <= i < entries2.len() implies !(#[trigger] entries2[i].is_file && fatal_entry(
            entries2[i],
            false,
        )) by {
            if i < n {
                assert(f2[i] == entries2[i]);
                assert(!(f2[i].is_file && fatal_entry(f2[i], false)));
            }
        }
    }
}

/// Entry `i` of the listing yields the job found at position `k` of the plan.
pub open spec fn plan_source(
    entries: Seq<FileEntry>,
    config: JobConfig,
    force: bool,
    i: int,
    k: int,
) -> bool {
    &&& 0 <= i < entries.len()
    &&& entries[i].is_file && produces_job(entries[i], force)
    &&& planned_episodes(entries, config, force)[k] == job_view_of(entries[i], config)
}

/// Finds, for position `k` of the plan, the directory entry whose job
/// stands there: every planned job comes from an entry that yields one.
pub proof fn lemma_plan_job_source(
    entries: Seq<FileEntry>,
    config: JobConfig,
    force: bool,
    k: int,
) -> (i: int)
    requires
        0 <= k < planned_episodes(entries, config, force).len(),
    ensures
        plan_source(entries, config, force, i, k),
    decreases entries.len(),
{
    assert(entries.len() > 0);
    let front = entries.drop_last();
    let front_plan = planned_episodes(front, config, force);
    if k < front_plan.len() {
        let i = lemma_plan_job_source(front, config, force, k);
        assert(front[i] == entries[i]);
        i
    } else {
        assert(entries.last().is_file && produces_job(entries.last(), force));
        entries.len() - 1
    }
}

/// No two entries that yield jobs aim at the same sidecar path.
pub open spec fn distinct_sidecars(entries: Seq<FileEntry>, force: bool) -> bool {
    forall|i: int, j: int|
        0 <= i < j < entries.len() && (#[trigger] entries[i].is_file && produces_job(
            entries[i],
            force,
        )) && (#[trigger] entries[j].is_file && produces_job(entries[j], force))
            ==> sidecar_text(entries[i].path->0@) != sidecar_text(entries[j].path->0@)
}

/// No two jobs of the plan aim at the same sidecar path.
pub open spec fn plan_targets_distinct(plan: Seq<EpisodeJobView>) -> bool {
    forall|k1: int, k2: int|
        0 <= k1 < k2 < plan.len() ==> (#[trigger] plan[k1].filename) != (#[trigger] plan[k2].filename)
}

/// The plan writes each sidecar path at most once, as long as no two entries
/// that yield jobs aim at the same one.
pub proof fn lemma_plan_targets_distinct(entries: Seq<FileEntry>, config: JobConfig, force: bool)
    requires
        distinct_sidecars(entries, force),
    ensures
        plan_targets_distinct(planned_episodes(entries, config, force)),
    decreases entries.len(),
{
    if entries.len() > 0 {
        let front = entries.drop_last();
        let n = entries.len() - 1;
        assert forall|i: int, j: int|
            0 <= i < j < front.len() && (#[trigger] front[i].is_file && produces_job(
                front[i],
                force,
            )) && (#[trigger] front[j].is_file && produces_job(front[j], force))
                implies sidecar_text(front[i].path->0@) != sidecar_text(front[j].path->0@) by {
            assert(front[i] == entries[i]);
            assert(front[j] == entries[j]);
        }
        lemma_plan_targets_distinct(front, config, force);
        let e = entries.last();
        let plan = planned_episodes(entries, config, force);
        let front_plan = planned_episodes(front, config, force);
        if e.is_file && produces_job(e, force) {
            assert forall|k1: int, k2: int| 0 <= k1 < k2 < plan.len() implies (#[trigger] plan[k1].filename)
                != (#[trigger] plan[k2].filename) by {
                if k2 < front_plan.len() {
                    assert(plan[k1] == front_plan[k1]);
                    assert(plan[k2] == front_plan[k2]);
                } else {
                    assert(0 <= k1 < front_plan.len());
                    let i = lemma_plan_job_source(front, config, force, k1);
                    assert(front[i] == entries[i]);
                    assert(plan[k1].filename == sidecar_text(entries[i].path->0@));
                    assert(plan[k2].filename == sidecar_text(entries[n].path->0@));
                    assert(sidecar_text(entries[i].path->0@) != sidecar_text(entries[n].path->0@));
                }
            }
        }
    }
}

} // verus!
