//! Planning pass for episode metadata generation.
//!
//! Given the plain facts about one directory's immediate children (which of
//! them are video files, which already have a metadata sidecar, and how the
//! configured naming pattern matched each name), the library decides which
//! files still need a sidecar generated and what episode index each gets.

pub mod index;
pub mod job;
pub mod laws;
pub mod sidecar;

pub use index::apply_offset;
pub use index::normalize_episode;
pub use job::EpisodeJob;
pub use job::FileEntry;
pub use job::Job;
pub use job::JobConfig;
pub use job::JobError;
pub use job::PatternMatch;
pub use sidecar::sidecar_path_text;
pub use sidecar::TVSHOW_NFO_NAME;
