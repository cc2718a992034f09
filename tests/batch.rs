use dbfc::command::{resolve_args, space, split_words, PLACEHOLDER};
use dbfc::paths::{file_extension, join, last_index, relative_path};
use dbfc::{
    config_path, BatchJob, ContentDigest, Invocation, Job, JobError, JobStatus, ScannedFile,
    DEFAULT_COMMAND,
};

const ABC_SHA256: &str = "ba7816bf8f01cfea414140de5dae2223b00361a396177a9cb410ff61f20015ad";
const EMPTY_SHA256: &str = "e3b0c44298fc1c149afbf4c8996fb92427ae41e4649b934ca495991b7852b855";

fn digest_of(chunks: &[&[u8]]) -> ContentDigest {
    let mut d = ContentDigest::new();
    for c in chunks {
        d.update(c);
    }
    d
}

fn scanned(path: &str, data: &[u8]) -> ScannedFile {
    ScannedFile { path: path.to_string(), content: digest_of(&[data]) }
}

fn scenario_batch() -> BatchJob {
    let mut b = BatchJob::new("/data/src".to_string(), "/data/out".to_string());
    let files = vec![
        scanned("/data/src/a/video.mp4", b"movie"),
        scanned("/data/src/a/notes.txt", b"notes"),
    ];
    b.init(&files);
    b
}

fn strings(v: &[&str]) -> Vec<String> {
    v.iter().map(|s| s.to_string()).collect()
}

#[test]
fn new_batch_has_default_rule_and_no_jobs() {
    let b = BatchJob::new("/s".to_string(), "/d".to_string());
    assert_eq!(b.source_dir(), "/s");
    assert_eq!(b.destination_dir(), "/d");
    assert_eq!(b.rules(), &vec![("mp4".to_string(), DEFAULT_COMMAND.to_string())]);
    assert_eq!(DEFAULT_COMMAND, "ffmpeg -i $file_path -c:v libx264 -preset slow");
    assert!(b.jobs().is_empty());
}

#[test]
fn digest_of_known_content() {
    assert_eq!(digest_of(&[]).hex(), EMPTY_SHA256);
    assert_eq!(digest_of(&[b"abc"]).hex(), ABC_SHA256);
}

#[test]
fn digest_is_the_same_whatever_the_chunking() {
    assert_eq!(digest_of(&[b"a", b"", b"bc"]).hex(), ABC_SHA256);
    let d = digest_of(&[b"ab"]);
    assert_eq!(d.hex(), d.hex());
    assert_ne!(d.hex(), ABC_SHA256);
}

#[test]
fn init_adds_one_pending_job_per_file_in_scan_order() {
    let mut b = BatchJob::new("/s".to_string(), "/d".to_string());
    b.init(&vec![scanned("/s/x.mp4", b"abc"), scanned("/s/y/z.mp4", b"")]);
    let jobs = b.jobs();
    assert_eq!(jobs.len(), 2);
    assert_eq!(jobs[0].source_path(), "/s/x.mp4");
    assert_eq!(jobs[0].source_sha256sum(), ABC_SHA256);
    assert_eq!(jobs[1].source_path(), "/s/y/z.mp4");
    assert_eq!(jobs[1].source_sha256sum(), EMPTY_SHA256);
    for j in jobs {
        assert_eq!(j.status(), JobStatus::Pending);
        assert_eq!(j.destination_path(), "");
        assert_eq!(j.destination_sha256sum(), "");
    }
}

#[test]
fn init_twice_appends_duplicates() {
    let mut b = BatchJob::new("/s".to_string(), "/d".to_string());
    let files = vec![scanned("/s/x.mp4", b"abc")];
    b.init(&files);
    b.init(&files);
    assert_eq!(b.jobs().len(), 2);
    assert_eq!(b.jobs()[1].source_path(), "/s/x.mp4");
}

#[test]
fn scenario_video_done_notes_error() {
    let mut b = scenario_batch();
    assert_eq!(b.pending_jobs(), vec![0, 1]);

    let video = b.run_job(0, true);
    match &video {
        Ok(Invocation { args, destination }) => {
            assert_eq!(
                args,
                &strings(&["ffmpeg", "-i", "/data/src/a/video.mp4", "-c:v", "libx264", "-preset", "slow"])
            );
            assert_eq!(destination, "/data/out/a/video.mp4");
        }
        Err(e) => panic!("unexpected {:?}", e),
    }
    b.finish_job(0, &video, true);

    let notes = b.run_job(1, true);
    match &notes {
        Err(JobError::NoRule(ext)) => assert_eq!(ext, "txt"),
        other => panic!("unexpected {:?}", other.as_ref().map(|i| i.destination.clone())),
    }
    b.finish_job(1, &notes, true);

    assert_eq!(b.jobs()[0].status(), JobStatus::Done);
    assert_eq!(b.jobs()[0].destination_path(), "/data/out/a/video.mp4");
    assert_eq!(b.jobs()[1].status(), JobStatus::Error);
    assert_eq!(b.jobs()[1].destination_path(), "");
    assert!(b.pending_jobs().is_empty());
}

#[test]
fn unmatched_job_does_not_stop_later_jobs() {
    let mut b = BatchJob::new("/data/src".to_string(), "/data/out".to_string());
    b.init(&vec![scanned("/data/src/n.txt", b"t"), scanned("/data/src/m.mp4", b"m")]);
    let first = b.run_job(0, true);
    assert!(matches!(first, Err(JobError::NoRule(_))));
    b.finish_job(0, &first, true);
    assert_eq!(b.pending_jobs(), vec![1]);
    let second = b.run_job(1, true);
    assert!(second.is_ok());
    b.finish_job(1, &second, true);
    assert_eq!(b.jobs()[0].status(), JobStatus::Error);
    assert_eq!(b.jobs()[1].status(), JobStatus::Done);
    assert_eq!(b.jobs()[1].destination_path(), "/data/out/m.mp4");
}

#[test]
fn finished_jobs_stay_as_they_are() {
    let mut b = scenario_batch();
    let video = b.run_job(0, true);
    b.finish_job(0, &video, true);
    let notes = b.run_job(1, true);
    b.finish_job(1, &notes, true);
    assert!(b.pending_jobs().is_empty());
    b.finish_job(0, &Err(JobError::Missing), false);
    b.finish_job(1, &video, true);
    assert_eq!(b.jobs()[0].status(), JobStatus::Done);
    assert_eq!(b.jobs()[0].destination_path(), "/data/out/a/video.mp4");
    assert_eq!(b.jobs()[1].status(), JobStatus::Error);
    assert_eq!(b.jobs()[1].destination_path(), "");
}

#[test]
fn missing_source_is_an_error() {
    let mut b = scenario_batch();
    let r = b.run_job(0, false);
    assert!(matches!(r, Err(JobError::Missing)));
    b.finish_job(0, &r, true);
    assert_eq!(b.jobs()[0].status(), JobStatus::Error);
}

#[test]
fn failed_conversion_is_an_error() {
    let mut b = scenario_batch();
    let r = b.run_job(0, true);
    assert!(r.is_ok());
    b.finish_job(0, &r, false);
    assert_eq!(b.jobs()[0].status(), JobStatus::Error);
    assert_eq!(b.jobs()[0].destination_path(), "");
    assert_eq!(b.pending_jobs(), vec![1]);
}

#[test]
fn source_outside_root_is_an_error() {
    let mut b = BatchJob::new("/data/src".to_string(), "/data/out".to_string());
    b.init(&vec![scanned("/data/srcx/a.mp4", b""), scanned("/elsewhere/a.mp4", b"")]);
    assert!(matches!(b.run_job(0, true), Err(JobError::OutsideSource)));
    assert!(matches!(b.run_job(1, true), Err(JobError::OutsideSource)));
}

#[test]
fn file_without_extension_is_an_error() {
    let mut b = BatchJob::new("/data/src/".to_string(), "/data/out/".to_string());
    b.init(&vec![scanned("/data/src/README", b""), scanned("/data/src/.hidden", b"")]);
    assert!(matches!(b.run_job(0, true), Err(JobError::NoExtension)));
    assert!(matches!(b.run_job(1, true), Err(JobError::NoExtension)));
}

#[test]
fn extension_is_case_sensitive() {
    let mut b = BatchJob::new("/s".to_string(), "/d".to_string());
    b.init(&vec![scanned("/s/CLIP.MP4", b"")]);
    match b.run_job(0, true) {
        Err(JobError::NoRule(ext)) => assert_eq!(ext, "MP4"),
        _ => panic!("expected a missing rule"),
    }
}

#[test]
fn trailing_slash_roots_mirror_the_tree() {
    let mut b = BatchJob::new("/s/".to_string(), "/d/".to_string());
    b.init(&vec![scanned("/s/x/y.mp4", b"")]);
    let r = b.run_job(0, true);
    assert_eq!(r.unwrap().destination, "/d/x/y.mp4");
}

#[test]
fn restored_batch_keeps_everything() {
    let job = Job::from_parts(
        "/s/a.mp4".to_string(),
        ABC_SHA256.to_string(),
        "/d/a.mp4".to_string(),
        String::new(),
        JobStatus::Done,
    );
    let rules = vec![("mp4".to_string(), "tool $file_path".to_string()), ("mkv".to_string(), "x".to_string())];
    let b = BatchJob::from_parts("/s".to_string(), "/d".to_string(), rules.clone(), vec![job]).unwrap();
    assert_eq!(b.source_dir(), "/s");
    assert_eq!(b.destination_dir(), "/d");
    assert_eq!(b.rules(), &rules);
    assert_eq!(b.jobs()[0].source_path(), "/s/a.mp4");
    assert_eq!(b.jobs()[0].source_sha256sum(), ABC_SHA256);
    assert_eq!(b.jobs()[0].destination_path(), "/d/a.mp4");
    assert_eq!(b.jobs()[0].status(), JobStatus::Done);
    assert!(b.pending_jobs().is_empty());
}

#[test]
fn duplicate_rule_extensions_are_refused() {
    let rules = vec![("mp4".to_string(), "a".to_string()), ("mp4".to_string(), "b".to_string())];
    assert!(BatchJob::from_parts("/s".to_string(), "/d".to_string(), rules, vec![]).is_none());
}

#[test]
fn rule_from_restored_batch_is_used() {
    let rules = vec![("mkv".to_string(), "conv  --in\t$file_path\n-q".to_string())];
    let mut b = BatchJob::from_parts("/s".to_string(), "/d".to_string(), rules, vec![]).unwrap();
    b.init(&vec![scanned("/s/v/a.b.mkv", b"")]);
    let r = b.run_job(0, true).unwrap();
    assert_eq!(r.args, strings(&["conv", "--in", "/s/v/a.b.mkv", "-q"]));
    assert_eq!(r.destination, "/d/v/a.b.mkv");
}

#[test]
fn config_path_is_inside_the_directory() {
    assert_eq!(config_path("/data/src"), "/data/src/dbfc.config");
}

#[test]
fn extension_of_last_component() {
    assert_eq!(file_extension("/a/b.c/file.tar.gz"), Some("gz".to_string()));
    assert_eq!(file_extension("/a/b.c/file"), None);
    assert_eq!(file_extension("/a/.bashrc"), None);
    assert_eq!(file_extension("/a/.x.y"), Some("y".to_string()));
    assert_eq!(file_extension("name."), Some(String::new()));
    assert_eq!(last_index("a/b/c", '/'), Some(3));
    assert_eq!(last_index("abc", '/'), None);
}

#[test]
fn relative_path_and_join() {
    assert_eq!(relative_path("/s/a/b", "/s"), Some("a/b".to_string()));
    assert_eq!(relative_path("/s/a/b", "/s/"), Some("a/b".to_string()));
    assert_eq!(relative_path("/sa/b", "/s"), None);
    assert_eq!(relative_path("/t/a", "/s"), None);
    assert_eq!(join("/d", "a/b"), "/d/a/b");
    assert_eq!(join("/d/", "a/b"), "/d/a/b");
    assert_eq!(join("", "a"), "a");
}

#[test]
fn template_words_and_placeholder() {
    assert_eq!(split_words("  a \t b\u{3000}c  "), strings(&["a", "b", "c"]));
    assert!(split_words(" \n ").is_empty());
    assert!(space('\u{a0}'));
    assert!(!space('x'));
    assert_eq!(PLACEHOLDER, "$file_path");
    assert_eq!(
        resolve_args("t -i $file_path $file_path_x $file_path", "/p q"),
        strings(&["t", "-i", "/p q", "$file_path_x", "/p q"])
    );
}
