use vidclipper::paths::{
    extension, find_file_paths_matching, get_downloaded_paths, get_downloaded_paths_from_vec,
    set_extension,
};
use vidclipper::store::{
    file_name, list_all_downloaded_videos, list_source_videos, DownloadedVideo, DownloadedVideos,
};
use vidclipper::{fmt_string_error, initialize_data, string_error};

fn video(location: &str, thumb: Option<&str>, title: Option<&str>) -> DownloadedVideo {
    DownloadedVideo {
        location: location.to_string(),
        thumbnail_location: thumb.map(|t| t.to_string()),
        title: title.map(|t| t.to_string()),
        description: None,
    }
}

#[test]
fn get_paths_after_download_works() {
    let output_paths = vec![
        "vid.info.json".into(),
        "vid.mp4".into(),
        "vid.jpg".into(),
    ];
    let (output_path, info_path, thumbnail_path) =
        get_downloaded_paths_from_vec(output_paths).unwrap();

    assert!(output_path.contains("vid.mp4"));
    assert!(info_path.unwrap().contains("vid.info.json"));
    assert!(thumbnail_path.unwrap().contains("vid.jpg"));
}

#[test]
fn downloaded_paths_keep_first_of_each_kind() {
    let paths = vec![
        "./k.webm".to_string(),
        "./k.mkv".to_string(),
        "./k.png".to_string(),
        "./k.jpg".to_string(),
        "./k.txt".to_string(),
        "./noext".to_string(),
    ];
    let (out, info, thumb) = get_downloaded_paths_from_vec(paths).unwrap();
    assert_eq!(out, "./k.webm");
    assert_eq!(info, None);
    assert_eq!(thumb, Some("./k.png".to_string()));
}

#[test]
fn downloaded_paths_need_a_video() {
    let paths = vec!["a.info.json".to_string(), "a.jpg".to_string()];
    assert_eq!(
        get_downloaded_paths_from_vec(paths),
        Err("Failed to find output path after download".to_string())
    );
    assert!(get_downloaded_paths_from_vec(vec![]).is_err());
}

#[test]
fn find_file_path_by_match_works() {
    let entries = vec![
        ("Cargo.toml".to_string(), "./Cargo.toml".to_string()),
        ("src".to_string(), "./src".to_string()),
        ("Cargo.lock".to_string(), "./Cargo.lock".to_string()),
    ];
    let pathvec = find_file_paths_matching("Cargo", &entries).unwrap();
    assert!(pathvec.len() == 2);
    let s1 = &pathvec[0];
    let s2 = &pathvec[1];
    assert!(s1.contains("Cargo.toml") || s2.contains("Cargo.toml"));
}

#[test]
fn find_file_paths_matching_fails_on_no_match() {
    let entries = vec![("a.mp4".to_string(), "./a.mp4".to_string())];
    assert_eq!(
        find_file_paths_matching("zzz", &entries),
        Err("Failed to find anything matching zzz".to_string())
    );
}

#[test]
fn file_name_follows_path_rules() {
    assert_eq!(file_name("a/b.mp4"), Some("b.mp4".to_string()));
    assert_eq!(file_name("b.mp4"), Some("b.mp4".to_string()));
    assert_eq!(file_name("a/b/"), Some("b".to_string()));
    assert_eq!(file_name("a/."), Some("a".to_string()));
    assert_eq!(file_name("./a"), Some("a".to_string()));
    assert_eq!(file_name("/"), None);
    assert_eq!(file_name(""), None);
    assert_eq!(file_name("a/.."), None);
    assert_eq!(file_name("."), None);
}

#[test]
fn extension_follows_path_rules() {
    assert_eq!(extension("vid.info.json"), Some("json".to_string()));
    assert_eq!(extension("dir/clip.mp4"), Some("mp4".to_string()));
    assert_eq!(extension(".bashrc"), None);
    assert_eq!(extension("noext"), None);
    assert_eq!(extension("foo."), Some(String::new()));
    assert_eq!(extension("a.d/"), Some("d".to_string()));
}

#[test]
fn set_extension_replaces_the_stem_suffix() {
    assert_eq!(set_extension("clip.abc", "mp4"), "clip.mp4");
    assert_eq!(set_extension("clip", "mkv"), "clip.mkv");
    assert_eq!(set_extension("a/b.txt/", "mkv"), "a/b.mkv");
    assert_eq!(set_extension("x.tar.gz", ""), "x.tar");
    assert_eq!(set_extension(".hidden", "txt"), ".hidden.txt");
    assert_eq!(set_extension("..", "mp4"), "..");
}

#[test]
fn error_strings() {
    assert_eq!(string_error("boom"), "boom");
    assert_eq!(fmt_string_error("Failed to read dir", "denied"), "Failed to read dir: denied");
}

#[test]
fn initialize_data_starts_from_empty_object() {
    assert_eq!(initialize_data(None), "{}");
    assert_eq!(initialize_data(Some("{\"a\":{}}".to_string())), "{\"a\":{}}");
}

#[test]
fn cache_record_round_trip() {
    let mut cache = DownloadedVideos::new();
    assert_eq!(cache.lookup(&"u".to_string()), None);
    let v = video("./k.mp4", None, None);
    cache.record("u".to_string(), v.clone());
    assert_eq!(cache.lookup(&"u".to_string()), Some(v));
    let w = video("./j.mkv", Some("./j.jpg"), Some("title"));
    cache.record("u".to_string(), w.clone());
    assert_eq!(cache.lookup(&"u".to_string()), Some(w));
    assert_eq!(cache.entries().len(), 1);
}

#[test]
fn cache_merge_prefers_loaded_records() {
    let mut cache = DownloadedVideos::new();
    cache.record("a".to_string(), video("./a.mp4", None, None));
    cache.record("b".to_string(), video("./b.mp4", None, None));
    let mut loaded = DownloadedVideos::new();
    loaded.record("b".to_string(), video("./b2.mp4", None, None));
    loaded.record("c".to_string(), video("./c.mp4", None, None));
    cache.merge(loaded);
    assert_eq!(cache.entries().len(), 3);
    assert_eq!(cache.lookup(&"b".to_string()).unwrap().location, "./b2.mp4");
    assert_eq!(cache.lookup(&"a".to_string()).unwrap().location, "./a.mp4");
    assert_eq!(list_all_downloaded_videos(&cache).len(), 3);
}

#[test]
fn source_listing_serves_file_names() {
    let mut cache = DownloadedVideos::new();
    cache.record(
        "http://x/v".to_string(),
        video("./dl/abc.mp4", Some("./dl/abc.jpg"), Some("A title")),
    );
    cache.record("http://x/w".to_string(), video("/", None, None));
    let list = list_source_videos(&cache);
    assert_eq!(list.len(), 2);
    assert_eq!(list[0].url, "http://x/v");
    assert_eq!(list[0].video_data, Some("/img/abc.mp4".to_string()));
    assert_eq!(list[0].thumbnail_data, Some("/img/abc.jpg".to_string()));
    assert_eq!(list[0].title, Some("A title".to_string()));
    assert_eq!(list[0].description, None);
    assert_eq!(list[1].video_data, None);
    assert_eq!(list[1].thumbnail_data, None);
}

#[test]
fn downloaded_paths_from_listing() {
    let entries = vec![
        ("k2.mkv".to_string(), "./k2.mkv".to_string()),
        ("k2.info.json".to_string(), "./k2.info.json".to_string()),
        ("zz.mp4".to_string(), "./zz.mp4".to_string()),
    ];
    assert_eq!(
        get_downloaded_paths("k2", &entries),
        Ok(("./k2.mkv".to_string(), Some("./k2.info.json".to_string()), None))
    );
    assert_eq!(
        get_downloaded_paths("nothing", &entries),
        Err("Failed to find anything matching nothing".to_string())
    );
}
