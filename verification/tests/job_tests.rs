use dantalian::{FileEntry, Job, JobConfig, JobError, PatternMatch};

fn config(offset: i32) -> JobConfig {
    JobConfig { subject_id: 42, episode_offset: offset }
}

fn video_entry(name: &str, dir: &str, sidecar_exists: bool, ep: &str) -> FileEntry {
    FileEntry {
        is_file: true,
        is_video: true,
        file_name: Some(name.to_string()),
        path: Some(format!("{}/{}", dir, name)),
        sidecar_exists,
        pattern: PatternMatch::Matched { ep: Some(ep.to_string()), sp: None },
        shifted_index: None,
    }
}

fn plain_entry(name: &str, dir: &str) -> FileEntry {
    FileEntry {
        is_file: true,
        is_video: false,
        file_name: Some(name.to_string()),
        path: Some(format!("{}/{}", dir, name)),
        sidecar_exists: false,
        pattern: PatternMatch::NoMatch,
        shifted_index: None,
    }
}

#[test]
fn only_non_video_files_plan_nothing() {
    let entries = vec![
        plain_entry("notes.txt", "Show"),
        plain_entry("cover.jpg", "Show"),
        plain_entry("tvshow.nfo", "Show"),
    ];
    let job = Job::parse(&entries, &config(0), false, true).unwrap();
    assert!(job.episodes.is_empty());
    let job = Job::parse(&entries, &config(0), true, true).unwrap();
    assert!(job.episodes.is_empty());
}

#[test]
fn existing_sidecar_skips_unless_forced() {
    let entries = vec![video_entry("ep01.mkv", "Show", true, "01")];
    let job = Job::parse(&entries, &config(0), false, true).unwrap();
    assert!(job.episodes.is_empty());
    let job = Job::parse(&entries, &config(0), true, true).unwrap();
    assert_eq!(job.episodes.len(), 1);
    assert_eq!(job.episodes[0].index, "1");
    assert_eq!(job.episodes[0].filename, "Show/ep01.nfo");
}

#[test]
fn second_scan_after_sidecars_written_plans_nothing() {
    let mut entries = vec![
        video_entry("ep01.mkv", "Show", false, "01"),
        plain_entry("notes.txt", "Show"),
        video_entry("ep02.mkv", "Show", false, "02"),
    ];
    let first = Job::parse(&entries, &config(0), false, false).unwrap();
    assert_eq!(first.episodes.len(), 2);
    // an external step now writes every planned sidecar
    for entry in entries.iter_mut() {
        let planned = first.episodes.iter().any(|e| {
            entry
                .path
                .as_ref()
                .map(|p| dantalian::sidecar_path_text(p) == e.filename)
                .unwrap_or(false)
        });
        if planned {
            entry.sidecar_exists = true;
        }
    }
    let second = Job::parse(&entries, &config(0), false, true).unwrap();
    assert!(second.episodes.is_empty());
}

#[test]
fn tvshow_flag_follows_force_and_presence() {
    let entries: Vec<FileEntry> = vec![];
    // absent: must generate
    assert!(Job::parse(&entries, &config(0), false, false).unwrap().should_gen_tvshow);
    // present, not forced: nothing to do
    assert!(!Job::parse(&entries, &config(0), false, true).unwrap().should_gen_tvshow);
    // present, forced: regenerate
    assert!(Job::parse(&entries, &config(0), true, true).unwrap().should_gen_tvshow);
}

#[test]
fn special_flag_needs_non_empty_capture() {
    let mut entry = video_entry("ep01sp.mkv", "Show", false, "01");
    entry.pattern = PatternMatch::Matched {
        ep: Some("01".to_string()),
        sp: Some("sp".to_string()),
    };
    let job = Job::check_episode(&entry, &config(0), false).unwrap().unwrap();
    assert!(job.is_sp);

    let mut entry = video_entry("ep01.mkv", "Show", false, "01");
    entry.pattern = PatternMatch::Matched {
        ep: Some("01".to_string()),
        sp: Some(String::new()),
    };
    let job = Job::check_episode(&entry, &config(0), false).unwrap().unwrap();
    assert!(!job.is_sp);

    let entry = video_entry("ep01.mkv", "Show", false, "01");
    let job = Job::check_episode(&entry, &config(0), false).unwrap().unwrap();
    assert!(!job.is_sp);
}

#[test]
fn unmatched_pattern_or_missing_capture_skips() {
    let mut entry = video_entry("stray.mkv", "Show", false, "01");
    entry.pattern = PatternMatch::NoMatch;
    assert!(Job::check_episode(&entry, &config(0), false).unwrap().is_none());

    let mut entry = video_entry("stray.mkv", "Show", false, "01");
    entry.pattern = PatternMatch::Matched { ep: None, sp: Some("sp".to_string()) };
    assert!(Job::check_episode(&entry, &config(0), false).unwrap().is_none());
}

#[test]
fn unrepresentable_name_skips() {
    let mut entry = video_entry("ep01.mkv", "Show", false, "01");
    entry.file_name = None;
    assert!(Job::check_episode(&entry, &config(0), false).unwrap().is_none());
}

#[test]
fn unrepresentable_sidecar_path_is_fatal() {
    let mut entry = video_entry("ep01.mkv", "Show", false, "01");
    entry.path = None;
    assert!(matches!(
        Job::check_episode(&entry, &config(0), false),
        Err(JobError::InvalidSidecarPath)
    ));
    let entries = vec![entry];
    assert!(Job::parse(&entries, &config(0), false, true).is_err());
}

#[test]
fn offset_applies_to_parsed_index() {
    let mut entry = video_entry("ep05.mkv", "Show", false, "05");
    // the shifted text the program computes for the normalized capture "5"
    entry.shifted_index = Some(("5".parse::<f64>().unwrap() + 2f64).to_string());
    let job = Job::check_episode(&entry, &config(2), false).unwrap().unwrap();
    assert_eq!(job.index, "7");
}

#[test]
fn offset_fallback_on_unparsable_index() {
    let mut entry = video_entry("epOVA.mkv", "Show", false, "OVA");
    entry.pattern = PatternMatch::Matched { ep: Some("OVA".to_string()), sp: None };
    let job = Job::check_episode(&entry, &config(2), false).unwrap().unwrap();
    assert_eq!(job.index, "2");
}

#[test]
fn directories_are_not_classified() {
    let mut entry = video_entry("season1.mkv", "Show", false, "01");
    entry.is_file = false;
    let entries = vec![entry];
    let job = Job::parse(&entries, &config(0), false, true).unwrap();
    assert!(job.episodes.is_empty());
}

#[test]
fn scan_scenario_with_one_processed_episode() {
    // Show/ holds tvshow.nfo, ep01.mkv, ep02.mkv and ep02.nfo; offset 0, no force.
    let entries = vec![
        plain_entry("tvshow.nfo", "Show"),
        video_entry("ep01.mkv", "Show", false, "01"),
        video_entry("ep02.mkv", "Show", true, "02"),
        plain_entry("ep02.nfo", "Show"),
    ];
    let job = Job::parse(&entries, &config(0), false, true).unwrap();
    assert_eq!(job.subject_id, 42);
    assert!(!job.should_gen_tvshow);
    assert_eq!(job.episodes.len(), 1);
    assert_eq!(job.episodes[0].index, "1");
    assert!(!job.episodes[0].is_sp);
    assert_eq!(job.episodes[0].filename, "Show/ep01.nfo");
}

#[test]
fn episodes_keep_enumeration_order() {
    let entries = vec![
        video_entry("ep02.mkv", "Show", false, "02"),
        video_entry("ep01.mkv", "Show", false, "01"),
    ];
    let job = Job::parse(&entries, &config(0), false, true).unwrap();
    assert_eq!(job.episodes.len(), 2);
    assert_eq!(job.episodes[0].index, "2");
    assert_eq!(job.episodes[1].index, "1");
    // distinct video files aim at distinct sidecar paths
    assert_ne!(job.episodes[0].filename, job.episodes[1].filename);
}

#[test]
fn is_empty_needs_no_tvshow_and_no_episodes() {
    let entries: Vec<FileEntry> = vec![];
    let job = Job::parse(&entries, &config(0), false, true).unwrap();
    assert!(job.is_empty());
    let job = Job::parse(&entries, &config(0), true, true).unwrap();
    assert!(!job.is_empty());
    let entries = vec![video_entry("ep01.mkv", "Show", false, "01")];
    let job = Job::parse(&entries, &config(0), false, true).unwrap();
    assert!(!job.is_empty());
}
