use vidclipper::bag::{Value, VariableBag, ORIGINAL_DOWNLOAD_PATH};
use vidclipper::manager::{
    ascii_lowercase, create_download_item, download, random_download_name, random_string, record_download,
    stage_finished, start_download, DownloadRequest,
};
use vidclipper::pipeline::{
    plan_stage, Job, JobStatus, Stage, StagePlan, StageState, StageTask,
};
use vidclipper::progress_line::FULL_PROGRESS;
use vidclipper::registry::JobRegistry;
use vidclipper::stages::{SplitRequest, TranscodeRequest};
use vidclipper::store::{DownloadedVideo, DownloadedVideos};

fn request(url: &str, name: Option<&str>) -> DownloadRequest {
    DownloadRequest {
        url: url.to_string(),
        name: name.map(|n| n.to_string()),
        start: Some(1),
        duration: Some(4),
        transcode_extension: None,
    }
}

fn transcode_stage(name: &str) -> Stage {
    Stage {
        name: name.to_string(),
        task: StageTask::TranscodeClip {
            request: TranscodeRequest { transcode_extension: None, duration: None },
        },
    }
}

fn three_stage_job() -> Job {
    Job::new(
        vec![transcode_stage("A"), transcode_stage("B"), transcode_stage("C")],
        VariableBag::new(),
    )
}

#[test]
fn failing_first_stage_stops_the_pipeline() {
    let mut job = three_stage_job();
    job.start();
    assert_eq!(job.current_stage(), Some(0));
    job.finish_stage(Err("A failed".to_string()));
    assert_eq!(job.status, JobStatus::Failed { stage: 0, message: "A failed".to_string() });
    assert_eq!(job.current_stage(), None);
    job.finish_stage(Ok(VariableBag::new()));
    job.set_progress(5000);
    assert_eq!(job.status, JobStatus::Failed { stage: 0, message: "A failed".to_string() });
    let views = job.stage_views();
    assert_eq!(views.len(), 3);
    assert_eq!(views[0].state, StageState::Failed { message: "A failed".to_string() });
    assert_eq!(views[1].state, StageState::Pending);
    assert_eq!(views[2].state, StageState::Pending);
}

#[test]
fn stages_run_in_order_and_merge_outputs() {
    let mut job = three_stage_job();
    assert_eq!(job.current_stage(), None);
    job.start();
    job.set_progress(20000);
    assert_eq!(job.status, JobStatus::Running { stage: 0, progress: FULL_PROGRESS });
    let mut out = VariableBag::new();
    out.insert_var("x", Value::Text("1".to_string()));
    job.finish_stage(Ok(out));
    assert_eq!(job.status, JobStatus::Running { stage: 1, progress: 0 });
    assert_eq!(job.bag.get_text("x"), Some("1".to_string()));
    job.finish_stage(Ok(VariableBag::new()));
    job.finish_stage(Ok(VariableBag::new()));
    assert_eq!(job.status, JobStatus::Succeeded);
    let views = job.stage_views();
    assert!(views.iter().all(|v| v.state == StageState::Succeeded && v.progress == FULL_PROGRESS));
    let mut empty = Job::new(vec![], VariableBag::new());
    empty.start();
    assert_eq!(empty.status, JobStatus::Succeeded);
}

#[test]
fn cache_hit_skips_download_stage() {
    let miss_cache = DownloadedVideos::new();
    let mut hit_cache = DownloadedVideos::new();
    hit_cache.record(
        "http://v".to_string(),
        DownloadedVideo {
            location: "./old.mp4".to_string(),
            thumbnail_location: None,
            title: None,
            description: None,
        },
    );
    let req = request("http://v", None);
    let miss = create_download_item("key1", &req, &miss_cache);
    let hit = create_download_item("key1", &req, &hit_cache);
    assert_eq!(miss.stage_views().len(), 2);
    assert_eq!(hit.stage_views().len(), 1);
    assert_eq!(miss.stages[0].name, "download_video");
    assert_eq!(miss.stages[1], hit.stages[0]);
    assert_eq!(hit.stages[0].name, "cut_video");
    assert_eq!(
        hit.stages[0].task,
        StageTask::CutVideo {
            output_file_name: "clip.key1".to_string(),
            split: SplitRequest { start: Some(1), duration: Some(4) },
        }
    );
    assert_eq!(hit.bag.get_path(ORIGINAL_DOWNLOAD_PATH), Some("./old.mp4".to_string()));
    assert_eq!(miss.bag.get_path(ORIGINAL_DOWNLOAD_PATH), None);
    match plan_stage("key1", &hit.stages[0].task, &hit.bag) {
        Ok(StagePlan::Run { output, .. }) => assert_eq!(output, Some("clip.mp4".to_string())),
        other => panic!("unexpected plan {:?}", other),
    }
}

#[test]
fn registry_start_and_query() {
    let mut reg = JobRegistry::new();
    let cache = DownloadedVideos::new();
    let job = create_download_item("k", &request("http://a", Some("n")), &cache);
    assert_eq!(reg.start("k".to_string(), job.clone()), Ok(()));
    assert_eq!(
        reg.start("k".to_string(), job),
        Err("job already exists: k".to_string())
    );
    let all = reg.query(&vec![]);
    assert_eq!(all.len(), 1);
    assert_eq!(all[0].0, "k");
    assert_eq!(all[0].1.len(), 2);
    assert_eq!(all[0].1[0].state, StageState::Running);
    assert_eq!(all[0].1[1].state, StageState::Pending);
    let some = reg.query(&vec!["nope".to_string(), "k".to_string()]);
    assert_eq!(some.len(), 1);
    assert_eq!(some[0].0, "k");
    assert_eq!(reg.query(&vec!["nope".to_string()]).len(), 0);
    assert_eq!(reg.current_stage(&"k".to_string()), Some(0));
    assert_eq!(reg.running_download_url(&"k".to_string()), Some("http://a".to_string()));
}

#[test]
fn progress_after_terminal_state_is_ignored() {
    let mut reg = JobRegistry::new();
    let mut job = three_stage_job();
    job.stages.truncate(1);
    reg.start("k".to_string(), job).unwrap();
    reg.update_progress(&"k".to_string(), 2500);
    assert_eq!(reg.query(&vec![])[0].1[0].progress, 2500);
    reg.finish_stage(&"k".to_string(), Ok(VariableBag::new()));
    let before = reg.clone();
    reg.update_progress(&"k".to_string(), 100);
    reg.finish_stage(&"k".to_string(), Err("late".to_string()));
    assert_eq!(reg, before);
    assert_eq!(reg.query(&vec![])[0].1[0].state, StageState::Succeeded);
    reg.update_progress(&"unknown".to_string(), 100);
    assert_eq!(reg, before);
}

#[test]
fn random_keys_are_lowercase_alphanumeric() {
    let k = random_string(16);
    assert_eq!(k.chars().count(), 16);
    assert!(k.chars().all(|c| c.is_ascii_lowercase() || c.is_ascii_digit()));
    let n = random_download_name();
    assert_eq!(n.len(), 8);
    assert!(n.chars().all(|c| c.is_ascii_lowercase() || c.is_ascii_digit()));
    assert_eq!(random_string(0), "");
}

#[test]
fn start_download_registers_a_running_job() {
    let mut reg = JobRegistry::new();
    let cache = DownloadedVideos::new();
    let key = start_download(&mut reg, &cache, &request("http://b", Some("clip"))).unwrap();
    assert_eq!(key.len(), 16);
    let q = reg.query(&vec![key.clone()]);
    assert_eq!(q.len(), 1);
    assert_eq!(q[0].1[0].name, "download_video");
    let key2 = download(&mut reg, &cache, request("http://c", None)).unwrap();
    assert_ne!(key, key2);
    assert_eq!(reg.query(&vec![]).len(), 2);
}

#[test]
fn finished_download_is_recorded_in_cache() {
    let mut reg = JobRegistry::new();
    let mut cache = DownloadedVideos::new();
    let job = create_download_item("k", &request("http://d", None), &cache);
    reg.start("k".to_string(), job).unwrap();
    let mut vars = VariableBag::new();
    vars.insert_var(ORIGINAL_DOWNLOAD_PATH, Value::Path("./k.mp4".to_string()));
    vars.insert_var("ytdl_title", Value::Text("T".to_string()));
    let changed = stage_finished(&mut reg, &mut cache, &"k".to_string(), Ok(vars));
    assert!(changed);
    let rec = cache.lookup(&"http://d".to_string()).unwrap();
    assert_eq!(rec.location, "./k.mp4");
    assert_eq!(rec.title, Some("T".to_string()));
    assert_eq!(rec.thumbnail_location, None);
    assert_eq!(reg.current_stage(&"k".to_string()), Some(1));
    // The cut stage's end is no download: the cache stays as it is.
    let changed = stage_finished(&mut reg, &mut cache, &"k".to_string(), Err("cut failed".to_string()));
    assert!(!changed);
    assert_eq!(cache.entries().len(), 1);
    let mut empty = DownloadedVideos::new();
    assert!(!record_download(&mut empty, &"x".to_string(), &VariableBag::new()));
}

#[test]
fn ascii_lowercase_lowers_capitals_only() {
    assert_eq!(ascii_lowercase("AbZ09xY"), "abz09xy");
    assert_eq!(ascii_lowercase(""), "");
    assert_eq!(ascii_lowercase("Ä-Q_"), "Ä-q_");
}
