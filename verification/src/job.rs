//! The planning pass itself: per-file classification and the directory scan
//! that folds the classifications into one `Job`.

use vstd::prelude::*;
use crate::index::{applied_index, apply_offset, normalize_episode, normalized_index};
use crate::sidecar::{sidecar_path_text, sidecar_text};

verus! {

/// How the configured filename pattern related to one file name: whether it
/// matched at all, and what each named capture group yielded.
pub enum PatternMatch {
    /// The pattern did not match the file name.
    NoMatch,
    /// The pattern matched. Each group holds its captured text where the
    /// group took part in the match, `None` where it did not.
    Matched { ep: Option<String>, sp: Option<String> },
}

/// The naming configuration: the subject the directory belongs to, passed
/// through untouched, and the offset added to parsed episode numbers. The
/// filename pattern itself stays with the caller; its outcome arrives per
/// file as a [`PatternMatch`].
#[derive(Clone, Copy)]
pub struct JobConfig {
    pub subject_id: u32,
    pub episode_offset: i32,
}

/// The plain facts about one immediate child of the scanned directory, as
/// the caller gathered them.
pub struct FileEntry {
    /// Whether the entry is a regular file.
    pub is_file: bool,
    /// Whether the video-file predicate recognized the entry.
    pub is_video: bool,
    /// The file name as text; `None` when the name has no text form.
    pub file_name: Option<String>,
    /// The full path as text; `None` when the path has no text form.
    pub path: Option<String>,
    /// Whether the metadata sidecar of this file already exists.
    pub sidecar_exists: bool,
    /// The configured pattern applied to the file name.
    pub pattern: PatternMatch,
    /// The outcome of the caller's offset arithmetic: the decimal text of
    /// (normalized episode number + offset), where the offset is nonzero and
    /// the normalized capture reads as a number; `None` otherwise.
    pub shifted_index: Option<String>,
}

/// One planned metadata-sidecar task for a single video file.
#[derive(Debug)]
pub struct EpisodeJob {
    /// The episode index as text, normalized and offset-applied.
    pub index: String,
    /// Whether the file follows the special-episode naming convention.
    pub is_sp: bool,
    /// The path where the sidecar metadata file should be written.
    pub filename: String,
}

/// The mathematical content of an [`EpisodeJob`].
pub ghost struct EpisodeJobView {
    pub index: Seq<char>,
    pub is_sp: bool,
    pub filename: Seq<char>,
}

impl View for EpisodeJob {
    type V = EpisodeJobView;

    open spec fn view(&self) -> EpisodeJobView {
        EpisodeJobView { index: self.index@, is_sp: self.is_sp, filename: self.filename@ }
    }
}

/// The complete planned work for one scanned directory.
#[derive(Debug)]
pub struct Job {
    /// The subject identifier, copied from the configuration.
    pub subject_id: u32,
    /// Whether the show-level metadata file must be (re)generated.
    pub should_gen_tvshow: bool,
    /// The planned episode jobs, in directory-enumeration order.
    pub episodes: Vec<EpisodeJob>,
}

/// The one error the planning pass itself can raise.
#[derive(Clone, Copy, Debug, PartialEq, Eq, Structural)]
pub enum JobError {
    /// A matched video file needs a job, but its sidecar path has no text
    /// form; the whole scan aborts.
    InvalidSidecarPath,
}

/// The episode-number capture of an entry's pattern outcome.
pub open spec fn ep_capture(e: FileEntry) -> Option<String> {
    match e.pattern {
        PatternMatch::Matched { ep, sp } => ep,
        PatternMatch::NoMatch => None,
    }
}

/// Whether the special-episode group matched non-empty text.
pub open spec fn sp_flag(e: FileEntry) -> bool {
    match e.pattern {
        PatternMatch::Matched { ep, sp } => sp matches Some(s) && s@.len() > 0,
        PatternMatch::NoMatch => false,
    }
}

/// The entry warrants an episode job: a video file with a usable name, not
/// yet processed (unless `force`), whose name the pattern matched with an
/// episode capture.
pub open spec fn passes_filters(e: FileEntry, force: bool) -> bool {
    &&& e.is_video
    &&& e.file_name is Some
    &&& force || !e.sidecar_exists
    &&& ep_capture(e) is Some
}

/// The entry yields an episode job.
pub open spec fn produces_job(e: FileEntry, force: bool) -> bool {
    passes_filters(e, force) && e.path is Some
}

/// The entry aborts the scan: it warrants a job, but its sidecar path has no
/// text form.
pub open spec fn fatal_entry(e: FileEntry, force: bool) -> bool {
    passes_filters(e, force) && e.path is None
}

/// The index text of the job for `e`.
pub open spec fn job_index(e: FileEntry, config: JobConfig) -> Seq<char> {
    applied_index(
        normalized_index(ep_capture(e)->0@),
        config.episode_offset as int,
        e.shifted_index.deep_view(),
    )
}

/// The job an entry yields.
pub open spec fn job_view_of(e: FileEntry, config: JobConfig) -> EpisodeJobView {
    EpisodeJobView {
        index: job_index(e, config),
        is_sp: sp_flag(e),
        filename: sidecar_text(e.path->0@),
    }
}

/// The episode jobs planned for a directory listing, in enumeration order.
pub open spec fn planned_episodes(entries: Seq<FileEntry>, config: JobConfig, force: bool) -> Seq<
    EpisodeJobView,
>
    decreases entries.len(),
{
    if entries.len() == 0 {
        Seq::empty()
    } else {
        let rest = planned_episodes(entries.drop_last(), config, force);
        let e = entries.last();
        if e.is_file && produces_job(e, force) {
            rest.push(job_view_of(e, config))
        } else {
            rest
        }
    }
}

/// No entry of the listing aborts the scan.
pub open spec fn scan_succeeds(entries: Seq<FileEntry>, force: bool) -> bool {
    forall|i: int|
        0 <= i < entries.len() ==> !(#[trigger] entries[i].is_file && fatal_entry(
            entries[i],
            force,
        ))
}

/// The views of a sequence of episode jobs.
pub open spec fn views_of(s: Seq<EpisodeJob>) -> Seq<EpisodeJobView> {
    s.map_values(|e: EpisodeJob| e@)
}

proof fn lemma_views_push(s: Seq<EpisodeJob>, j: EpisodeJob)
    ensures
        views_of(s.push(j)) == views_of(s).push(j@),
{
    assert(views_of(s.push(j)) =~= views_of(s).push(j@));
}

impl Job {
    /// Classifies one directory entry: no job when a filter disqualifies it,
    /// a job with the final index, special flag and sidecar path when every
    /// filter passes, and an error when a job is owed but the sidecar path
    /// has no text form.
    pub fn check_episode(entry: &FileEntry, config: &JobConfig, force: bool) -> (r: Result<
        Option<EpisodeJob>,
        JobError,
    >)
        ensures
            r is Err <==> fatal_entry(*entry, force),
            r matches Ok(opt) ==> (opt is Some <==> produces_job(*entry, force)),
            r matches Ok(Some(j)) ==> j@ == job_view_of(*entry, *config),
    {
        if !entry.is_video {
            // not a video file: skip it
            return Ok(None);
        }
        if entry.file_name.is_none() {
            // a name with no text form cannot be matched: skip it
            return Ok(None);
        }
        if (!force) && entry.sidecar_exists {
            // the sidecar already exists: nothing to do for this file
            return Ok(None);
        }
        let ep_text = match &entry.pattern {
            PatternMatch::Matched { ep: Some(t), sp: _ } => t,
            _ => {
                return Ok(None);
            },
        };
        let normalized = normalize_episode(ep_text.as_str());
        let index = apply_offset(normalized.as_str(), config.episode_offset, &entry.shifted_index);
        let is_sp = match &entry.pattern {
            PatternMatch::Matched { ep: _, sp: Some(s) } => !s.as_str().is_empty(),
            _ => false,
        };
        let target = match &entry.path {
            Some(p) => sidecar_path_text(p.as_str()),
            None => {
                return Err(JobError::InvalidSidecarPath);
            },
        };
        Ok(Some(EpisodeJob { index, is_sp, filename: target }))
    }

    /// Plans the work for one directory. `entries` lists the directory's
    /// immediate children in enumeration order, `tvshow_exists` says whether
    /// the show-level metadata file is present. The show metadata is
    /// (re)generated when forced or when that file is absent; every regular
    /// file is classified in order, and the scan aborts on the first entry
    /// whose owed sidecar path has no text form.
    pub fn parse(entries: &Vec<FileEntry>, config: &JobConfig, force: bool, tvshow_exists: bool) -> (r:
        Result<Job, JobError>)
        ensures
            r is Ok <==> scan_succeeds(entries@, force),
            r matches Ok(job) ==> {
                &&& job.subject_id == config.subject_id
                &&& job.should_gen_tvshow == (force || !tvshow_exists)
                &&& views_of(job.episodes@) == planned_episodes(entries@, *config, force)
            },
    {
        let should_gen_tvshow = force || !tvshow_exists;
        let mut episodes: Vec<EpisodeJob> = Vec::new();
        let mut i: usize = 0;
        while i < entries.len()
            invariant
                i <= entries@.len(),
                scan_succeeds(entries@.take(i as int), force),
                views_of(episodes@) == planned_episodes(entries@.take(i as int), *config, force),
            decreases entries@.len() - i,
        {
            let ghost prefix = entries@.take(i as int);
            let entry = &entries[i];
            if entry.is_file {
                match Self::check_episode(entry, config, force) {
                    Err(e) => {
                        proof {
                            assert(entries@[i as int].is_file && fatal_entry(
                                entries@[i as int],
                                force,
                            ));
                        }
                        return Err(e);
                    },
                    Ok(Some(j)) => {
                        proof {
                            lemma_views_push(episodes@, j);
                        }
                        episodes.push(j);
                    },
                    Ok(None) => {},
                }
            }
            proof {
                let next = entries@.take(i as int + 1);
                assert(next.drop_last() =~= prefix);
                assert(next.last() == entries@[i as int]);
            }
            i = i + 1;
        }
        proof {
            assert(entries@.take(entries@.len() as int) =~= entries@);
        }
        Ok(Job { subject_id: config.subject_id, should_gen_tvshow, episodes })
    }

    /// The job plans no work at all: no show metadata and no episodes.
    pub fn is_empty(&self) -> (r: bool)
        ensures
            r == (!self.should_gen_tvshow && self.episodes@.len() == 0),
    {
        (!self.should_gen_tvshow) && (self.episodes.len() == 0)
    }
}

} // verus!
