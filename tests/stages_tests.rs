use vidclipper::bag::{Value, VariableBag, CUT_VIDEO, ORIGINAL_DOWNLOAD_PATH};
use vidclipper::stages::{
    cut_video, cut_video_finished, download_video, download_video_finished, handle_child_exit,
    transcode_clip, transcode_clip_finished, ChildExit, ProgressWatch, SplitRequest,
    TranscodeRequest,
};

fn strings(v: &[&str]) -> Vec<String> {
    v.iter().map(|s| s.to_string()).collect()
}

#[test]
fn child_exit_mapping() {
    assert_eq!(handle_child_exit(&ChildExit::Exited(Some(0))), Ok(()));
    assert_eq!(
        handle_child_exit(&ChildExit::Exited(Some(1))),
        Err("child process exited with error code: 1".to_string())
    );
    assert_eq!(
        handle_child_exit(&ChildExit::Exited(Some(-3))),
        Err("child process exited with error code: -3".to_string())
    );
    assert_eq!(
        handle_child_exit(&ChildExit::Exited(Some(255))),
        Err("child process exited with error code: 255".to_string())
    );
    assert_eq!(
        handle_child_exit(&ChildExit::Exited(None)),
        Err("child process failed to exit with a valid exit code".to_string())
    );
    assert_eq!(
        handle_child_exit(&ChildExit::WaitFailed("boom".to_string())),
        Err("child process encountered an error: boom".to_string())
    );
}

#[test]
fn download_command_line() {
    let cmd = download_video("k1", "http://example.com/v");
    assert_eq!(
        cmd.exe_and_args,
        strings(&[
            "youtube-dl",
            "--newline",
            "--ignore-config",
            "--write-info-json",
            "--write-thumbnail",
            "http://example.com/v",
            "-o",
            "k1.%(ext)s",
        ])
    );
    assert_eq!(cmd.watch, ProgressWatch::Downloader);
}

#[test]
fn download_finished_collects_outputs() {
    let listing = vec![
        ("k1.info.json".to_string(), "./k1.info.json".to_string()),
        ("k1.mp4".to_string(), "./k1.mp4".to_string()),
        ("k1.webp".to_string(), "./k1.webp".to_string()),
        ("other.mp4".to_string(), "./other.mp4".to_string()),
    ];
    let bag = download_video_finished("k1", &ChildExit::Exited(Some(0)), Ok(listing)).unwrap();
    assert_eq!(bag.get_path(ORIGINAL_DOWNLOAD_PATH), Some("./k1.mp4".to_string()));
    assert_eq!(bag.get_path("original_thumbnail_path"), Some("./k1.webp".to_string()));
}

#[test]
fn download_finished_failures() {
    let r = download_video_finished("k1", &ChildExit::Exited(Some(2)), Ok(vec![]));
    assert_eq!(r, Err("child process exited with error code: 2".to_string()));
    let r = download_video_finished("k1", &ChildExit::Exited(Some(0)), Err("Failed to read dir: x".to_string()));
    assert_eq!(r, Err("Failed to read dir: x".to_string()));
    let r = download_video_finished("k1", &ChildExit::Exited(Some(0)), Ok(vec![]));
    assert_eq!(r, Err("Failed to find anything matching k1".to_string()));
    let listing = vec![("k1.jpg".to_string(), "./k1.jpg".to_string())];
    let r = download_video_finished("k1", &ChildExit::Exited(Some(0)), Ok(listing));
    assert_eq!(r, Err("Failed to find output path after download".to_string()));
}

#[test]
fn cut_command_line() {
    let mut bag = VariableBag::new();
    bag.insert_var(ORIGINAL_DOWNLOAD_PATH, Value::Path("./abc.webm".to_string()));
    let split = SplitRequest { start: Some(5), duration: Some(10) };
    let (cmd, out) = cut_video(&bag, "clip.xyz", &split).unwrap();
    assert_eq!(out, "clip.webm");
    assert_eq!(
        cmd.exe_and_args,
        strings(&[
            "ffmpeg", "-loglevel", "error", "-hide_banner", "-stats", "-progress", "pipe:1",
            "-i", "./abc.webm", "-ss", "5", "-t", "10", "-acodec", "copy", "-vcodec", "copy",
            "-y", "clip.webm",
        ])
    );
    assert_eq!(cmd.watch, ProgressWatch::MediaTool { total_millis: 10000 });
}

#[test]
fn cut_without_range_or_extension() {
    let mut bag = VariableBag::new();
    bag.insert_var(ORIGINAL_DOWNLOAD_PATH, Value::Path("./abc".to_string()));
    let split = SplitRequest { start: None, duration: None };
    let (cmd, out) = cut_video(&bag, "myclip", &split).unwrap();
    assert_eq!(out, "myclip.mkv");
    assert_eq!(cmd.exe_and_args.len(), 15);
    assert_eq!(cmd.watch, ProgressWatch::MediaTool { total_millis: 1 });
}

#[test]
fn cut_needs_a_downloaded_path() {
    let split = SplitRequest { start: None, duration: None };
    let bag = VariableBag::new();
    assert_eq!(cut_video(&bag, "c", &split).map(|_| ()), Err("Failed to find input file".to_string()));
    let mut bag = VariableBag::new();
    bag.insert_var(ORIGINAL_DOWNLOAD_PATH, Value::Text("not a path".to_string()));
    assert_eq!(cut_video(&bag, "c", &split).map(|_| ()), Err("Failed to find input file".to_string()));
}

#[test]
fn cut_finished_leaves_clip_path() {
    let bag = cut_video_finished(&ChildExit::Exited(Some(0)), "clip.mp4".to_string()).unwrap();
    assert_eq!(bag.get_path(CUT_VIDEO), Some("clip.mp4".to_string()));
    let r = cut_video_finished(&ChildExit::Exited(None), "clip.mp4".to_string());
    assert_eq!(r, Err("child process failed to exit with a valid exit code".to_string()));
}

#[test]
fn transcode_plans() {
    let bag = VariableBag::new();
    let none = TranscodeRequest { transcode_extension: None, duration: None };
    assert_eq!(transcode_clip(&bag, &none), Ok(None));
    let req = TranscodeRequest { transcode_extension: Some("mp3".to_string()), duration: Some(2) };
    assert_eq!(transcode_clip(&bag, &req), Err("Failed to find input file".to_string()));
    let mut bag = VariableBag::new();
    bag.insert_var(ORIGINAL_DOWNLOAD_PATH, Value::Path("./src.webm".to_string()));
    bag.insert_var(CUT_VIDEO, Value::Path("out/clip.mp4".to_string()));
    let cmd = transcode_clip(&bag, &req).unwrap().unwrap();
    assert_eq!(
        cmd.exe_and_args,
        strings(&[
            "ffmpeg", "-loglevel", "error", "-hide_banner", "-stats", "-progress", "pipe:1",
            "-i", "out/clip.mp4", "-y", "clip.mp3",
        ])
    );
    assert_eq!(cmd.watch, ProgressWatch::MediaTool { total_millis: 2000 });
    let mut bag = VariableBag::new();
    bag.insert_var(ORIGINAL_DOWNLOAD_PATH, Value::Path("/".to_string()));
    assert_eq!(
        transcode_clip(&bag, &req),
        Err("File path contains invalid characters: /".to_string())
    );
    assert_eq!(transcode_clip_finished(&ChildExit::Exited(Some(0))), Ok(VariableBag::new()));
}

#[test]
fn bag_lookups_are_typed() {
    let mut bag = VariableBag::new();
    bag.insert_var("p", Value::Path("./a".to_string()));
    bag.insert_var("t", Value::Text("hello".to_string()));
    assert_eq!(bag.get_path("p"), Some("./a".to_string()));
    assert_eq!(bag.get_text("p"), None);
    assert_eq!(bag.get_text("t"), Some("hello".to_string()));
    assert_eq!(bag.get_path("t"), None);
    assert_eq!(bag.get_path("missing"), None);
    bag.insert_var("p", Value::Path("./b".to_string()));
    assert_eq!(bag.get_path("p"), Some("./b".to_string()));
    let mut other = VariableBag::new();
    other.insert_var("p", Value::Path("./c".to_string()));
    other.insert_var("q", Value::Text("x".to_string()));
    bag.merge(other);
    assert_eq!(bag.get_path("p"), Some("./c".to_string()));
    assert_eq!(bag.get_text("q"), Some("x".to_string()));
    assert_eq!(bag.get_text("t"), Some("hello".to_string()));
}
