//! Building and starting download jobs, with the cache of completed downloads
//! deciding whether the download stage is needed.

use rand::Rng;
use vstd::prelude::*;
use vstd::string::*;
use crate::bag::{
    path_in, text_in, Value, VariableBag, ORIGINAL_DOWNLOAD_PATH, ORIGINAL_THUMBNAIL_PATH,
    YTDL_DESCRIPTION, YTDL_TITLE,
};
use crate::pipeline::{views_of, Job, Stage, StageTask, StageView};
use crate::registry::{finished_from, started, JobRegistry};
use crate::stages::SplitRequest;
use crate::store::{DownloadedVideo, DownloadedVideos};
use crate::text::{chars_of, push_char};

verus! {

/// A request to fetch `url` and cut a clip of it named `name`.
#[derive(Debug, Clone, PartialEq, Eq)]
pub struct DownloadRequest {
    pub url: String,
    pub name: Option<String>,
    pub start: Option<u32>,
    pub duration: Option<u32>,
    pub transcode_extension: Option<String>,
}

pub open spec fn is_ascii_alnum(c: char) -> bool {
    ('a' <= c && c <= 'z') || ('A' <= c && c <= 'Z') || ('0' <= c && c <= '9')
}

pub open spec fn is_lower_alnum(c: char) -> bool {
    ('a' <= c && c <= 'z') || ('0' <= c && c <= '9')
}

/// Relies on rand's `thread_rng` sampled through the `Alphanumeric` distribution,
/// which yields ASCII letters and digits: `len` of them, as characters.
#[verifier::external_body]
fn random_alphanumeric(len: usize) -> (r: String)
    ensures
        r@.len() == len,
        forall|i: int| 0 <= i < len ==> is_ascii_alnum(#[trigger] r@[i]),
{
    rand::thread_rng().sample_iter(&rand::distributions::Alphanumeric).take(len).map(char::from).collect()
}

/// An ASCII capital letter as its small letter; any other character as it is.
pub open spec fn lower_char(c: char) -> char {
    if 'A' <= c && c <= 'Z' {
        ((c as u32) + 32) as char
    } else {
        c
    }
}

/// The characters of `s`, each ASCII capital letter made small.
pub open spec fn ascii_lowercase_of(s: Seq<char>) -> Seq<char> {
    s.map_values(|c: char| lower_char(c))
}

fn lower_ascii(c: char) -> (r: char)
    ensures
        r == lower_char(c),
{
    if 'A' <= c && c <= 'Z' {
        ((c as u8) + 32) as char
    } else {
        c
    }
}

/// `s` with each ASCII capital letter made small; other characters stay.
pub fn ascii_lowercase(s: &str) -> (r: String)
    ensures
        r@ == ascii_lowercase_of(s@),
{
    let v = chars_of(s);
    let mut r = String::new();
    let mut i: usize = 0;
    while i < v.len()
        invariant
            v@ == s@,
            i <= v@.len(),
            r@ == ascii_lowercase_of(s@.subrange(0, i as int)),
        decreases v@.len() - i,
    {
        let c = lower_ascii(v[i]);
        push_char(&mut r, c);
        i = i + 1;
        assert(r@ =~= ascii_lowercase_of(s@.subrange(0, i as int)));
    }
    assert(s@.subrange(0, v@.len() as int) =~= s@);
    r
}

/// A random string of `len` lowercase ASCII letters and digits: a draw of ASCII
/// letters and digits, lowercased.
pub fn random_string(len: usize) -> (r: String)
    ensures
        r@.len() == len,
        forall|i: int| 0 <= i < len ==> is_lower_alnum(#[trigger] r@[i]),
        exists|raw: Seq<char>|
            raw.len() == len && (forall|i: int| 0 <= i < len ==> is_ascii_alnum(#[trigger] raw[i]))
                && r@ == #[trigger] ascii_lowercase_of(raw),
{
    let raw = random_alphanumeric(len);
    let r = ascii_lowercase(raw.as_str());
    assert forall|i: int| 0 <= i < len implies is_lower_alnum(#[trigger] r@[i]) by {
        assert(is_ascii_alnum(raw@[i]));
        assert(r@[i] == lower_char(raw@[i]));
    }
    r
}

/// A random name for a clip: eight lowercase letters and digits.
pub fn random_download_name() -> (r: String)
    ensures
        r@.len() == 8,
        forall|i: int| 0 <= i < 8 ==> is_lower_alnum(#[trigger] r@[i]),
{
    random_string(8)
}

/// The clip's name: the one asked for, else `clip.<key>`.
pub open spec fn clip_name(key: Seq<char>, name: Option<String>) -> Seq<char> {
    match name {
        Some(n) => n@,
        None => "clip."@ + key,
    }
}

pub open spec fn is_download_stage(s: Stage, request: DownloadRequest) -> bool {
    &&& s.name@ == "download_video"@
    &&& s.task matches StageTask::DownloadVideo { url } && url@ == request.url@
}

pub open spec fn is_cut_stage(s: Stage, key: Seq<char>, request: DownloadRequest) -> bool {
    &&& s.name@ == "cut_video"@
    &&& s.task matches StageTask::CutVideo { output_file_name, split } && output_file_name@
        == clip_name(key, request.name) && split == (SplitRequest {
        start: request.start,
        duration: request.duration,
    })
}

/// The job a request becomes. Where the cache knows the source, the download
/// stage is left out and the cached path stands in the bag from the start; else
/// the job downloads, then cuts.
pub open spec fn download_item_spec(
    job: Job,
    key: Seq<char>,
    request: DownloadRequest,
    cache: Map<Seq<char>, DownloadedVideo>,
) -> bool {
    &&& job.wf()
    &&& job.status is Pending
    &&& if cache.contains_key(request.url@) {
        &&& job.stages@.len() == 1
        &&& is_cut_stage(job.stages@[0], key, request)
        &&& job.bag.view() == map![ORIGINAL_DOWNLOAD_PATH@ => Value::Path(cache[request.url@].location)]
    } else {
        &&& job.stages@.len() == 2
        &&& is_download_stage(job.stages@[0], request)
        &&& is_cut_stage(job.stages@[1], key, request)
        &&& job.bag.view() == Map::<Seq<char>, Value>::empty()
    }
}

fn copy_opt_u32(o: &Option<u32>) -> (r: Option<u32>)
    ensures
        r == *o,
{
    match o {
        Some(v) => Some(*v),
        None => None,
    }
}

/// Builds the job for a request under `key`, consulting the cache.
pub fn create_download_item(key: &str, request: &DownloadRequest, cache: &DownloadedVideos) -> (r: Job)
    requires
        cache.wf(),
    ensures
        download_item_spec(r, key@, *request, cache.view()),
{
    let name = match &request.name {
        None => String::from_str("clip.").concat(key),
        Some(s) => s.clone(),
    };
    let cut_stage = Stage {
        name: String::from_str("cut_video"),
        task: StageTask::CutVideo {
            output_file_name: name,
            split: SplitRequest {
                start: copy_opt_u32(&request.start),
                duration: copy_opt_u32(&request.duration),
            },
        },
    };
    let mut stages: Vec<Stage> = Vec::new();
    let mut bag = VariableBag::new();
    match cache.lookup(&request.url) {
        None => {
            stages.push(
                Stage {
                    name: String::from_str("download_video"),
                    task: StageTask::DownloadVideo { url: request.url.clone() },
                },
            );
        },
        Some(video) => {
            let ghost loc = video.location;
            bag.insert_var(ORIGINAL_DOWNLOAD_PATH, Value::Path(video.location));
            assert(bag.view() =~= map![ORIGINAL_DOWNLOAD_PATH@ => Value::Path(loc)]);
        },
    }
    stages.push(cut_stage);
    Job::new(stages, bag)
}

/// A cache hit leaves the first stage out: the job has one stage, and one stage
/// view, fewer than on a miss, its remaining stage is the miss's second, and the
/// skipped stage's output stands in the bag before anything runs.
pub proof fn lemma_cache_hit_skips_download(
    key: Seq<char>,
    request: DownloadRequest,
    hit_cache: Map<Seq<char>, DownloadedVideo>,
    miss_cache: Map<Seq<char>, DownloadedVideo>,
    hit: Job,
    miss: Job,
    hit_views: Seq<StageView>,
    miss_views: Seq<StageView>,
)
    requires
        hit_cache.contains_key(request.url@),
        !miss_cache.contains_key(request.url@),
        download_item_spec(hit, key, request, hit_cache),
        download_item_spec(miss, key, request, miss_cache),
        views_of(hit, hit_views),
        views_of(miss, miss_views),
    ensures
        hit.stages@.len() + 1 == miss.stages@.len(),
        hit_views.len() + 1 == miss_views.len(),
        is_cut_stage(hit.stages@[0], key, request),
        is_cut_stage(miss.stages@[1], key, request),
        path_in(hit.bag.view(), ORIGINAL_DOWNLOAD_PATH@) == Some(hit_cache[request.url@].location),
        path_in(miss.bag.view(), ORIGINAL_DOWNLOAD_PATH@) is None,
{
}

/// The record a finished download leaves for its source, where it left a path.
pub open spec fn download_record(vars: Map<Seq<char>, Value>) -> Option<DownloadedVideo> {
    match path_in(vars, ORIGINAL_DOWNLOAD_PATH@) {
        Some(p) => Some(
            DownloadedVideo {
                location: p,
                thumbnail_location: path_in(vars, ORIGINAL_THUMBNAIL_PATH@),
                title: text_in(vars, YTDL_TITLE@),
                description: text_in(vars, YTDL_DESCRIPTION@),
            },
        ),
        None => None,
    }
}

/// Keeps what a finished download of `url` left as the cache's record for it.
/// It tells whether the cache changed, and so is to be written back.
pub fn record_download(cache: &mut DownloadedVideos, url: &String, vars: &VariableBag) -> (r: bool)
    requires
        old(cache).wf(),
        vars.wf(),
    ensures
        final(cache).wf(),
        r == download_record(vars.view()) is Some,
        match download_record(vars.view()) {
            Some(v) => final(cache).view() == old(cache).view().insert(url@, v),
            None => final(cache).view() == old(cache).view(),
        },
{
    match vars.get_path(ORIGINAL_DOWNLOAD_PATH) {
        None => false,
        Some(location) => {
            let video = DownloadedVideo {
                location,
                thumbnail_location: vars.get_path(ORIGINAL_THUMBNAIL_PATH),
                title: vars.get_text(YTDL_TITLE),
                description: vars.get_text(YTDL_DESCRIPTION),
            };
            cache.record(url.clone(), video);
            true
        },
    }
}

/// Builds the job for a request under a fresh random key of sixteen lowercase
/// letters and digits, and starts it. It fails, changing nothing, only where that
/// key is already taken: a registry that holds no such key always accepts it.
pub fn start_download(
    registry: &mut JobRegistry,
    cache: &DownloadedVideos,
    request: &DownloadRequest,
) -> (r: Result<String, String>)
    requires
        old(registry).wf(),
        cache.wf(),
    ensures
        final(registry).wf(),
        r matches Ok(k) ==> k@.len() == 16 && (forall|i: int| 0 <= i < 16 ==> is_lower_alnum(#[trigger] k@[i]))
            && !old(registry).view().contains_key(k@) && exists|j: Job|
            download_item_spec(j, k@, *request, cache.view()) && final(registry).view() == old(
            registry).view().insert(k@, started(j)),
        r is Err ==> final(registry).view() == old(registry).view(),
        r is Err ==> exists|k: Seq<char>| #[trigger] old(registry).view().contains_key(k) && k.len() == 16
            && forall|i: int| 0 <= i < 16 ==> is_lower_alnum(#[trigger] k[i]),
{
    let key = random_string(16);
    let job = create_download_item(key.as_str(), request, cache);
    let ghost j = job;
    match registry.start(key.clone(), job) {
        Ok(()) => {
            assert(download_item_spec(j, key@, *request, cache.view()));
            Ok(key)
        },
        Err(e) => {
            assert(old(registry).view().contains_key(key@));
            Err(e)
        },
    }
}

/// The request a job was built from, once its name is filled in: the same source
/// and range, and the name asked for where one was.
pub open spec fn filled_request(filled: DownloadRequest, request: DownloadRequest) -> bool {
    &&& filled.url == request.url
    &&& filled.start == request.start
    &&& filled.duration == request.duration
    &&& filled.transcode_extension == request.transcode_extension
    &&& filled.name is Some
    &&& request.name is Some ==> filled.name == request.name
}

/// Starts a job for a request, naming the clip at random where the request names
/// none. It gives the job's key, and fails only as `start_download` does.
pub fn download(
    registry: &mut JobRegistry,
    cache: &DownloadedVideos,
    request: DownloadRequest,
) -> (r: Result<String, String>)
    requires
        old(registry).wf(),
        cache.wf(),
    ensures
        final(registry).wf(),
        r matches Ok(k) ==> !old(registry).view().contains_key(k@) && exists|j: Job, filled: DownloadRequest|
            filled_request(filled, request) && download_item_spec(j, k@, filled, cache.view())
                && #[trigger] final(registry).view() == old(registry).view().insert(k@, started(j)),
        r is Err ==> final(registry).view() == old(registry).view(),
        r is Err ==> exists|k: Seq<char>| #[trigger] old(registry).view().contains_key(k) && k.len() == 16
            && forall|i: int| 0 <= i < 16 ==> is_lower_alnum(#[trigger] k[i]),
{
    let ghost given = request;
    let mut request = request;
    if request.name.is_none() {
        request.name = Some(random_download_name());
    }
    let ghost filled = request;
    assert(filled_request(filled, given));
    let r = start_download(registry, cache, &request);
    proof {
        if r is Ok {
            let k = r->Ok_0;
            let j = choose|j: Job|
                download_item_spec(j, k@, filled, cache.view()) && registry.view() == old(
                registry).view().insert(k@, started(j));
            assert(filled_request(filled, given) && download_item_spec(j, k@, filled, cache.view())
                && registry.view() == old(registry).view().insert(k@, started(j)));
        }
    }
    r
}

/// Records the outcome of the stage that runs now in the job under `key`. Where
/// that stage is a download that succeeded, what it left becomes the cache's
/// record for its source first. It tells whether the cache changed, and so is to
/// be written back.
pub fn stage_finished(
    registry: &mut JobRegistry,
    cache: &mut DownloadedVideos,
    key: &String,
    outcome: Result<VariableBag, String>,
) -> (r: bool)
    requires
        old(registry).wf(),
        old(cache).wf(),
        outcome matches Ok(vars) ==> vars.wf(),
    ensures
        final(registry).wf(),
        final(cache).wf(),
        !old(registry).view().contains_key(key@) ==> final(registry).view() == old(registry).view(),
        old(registry).view().contains_key(key@) ==> final(registry).view().contains_key(key@)
            && final(registry).view() == old(registry).view().insert(key@, final(registry).view()[key@])
            && finished_from(old(registry).view()[key@], final(registry).view()[key@], outcome),
        match (old(registry).running_task(key@), outcome) {
            (Some(StageTask::DownloadVideo { url }), Ok(vars)) => r == download_record(vars.view()) is Some
                && match download_record(vars.view()) {
                Some(v) => final(cache).view() == old(cache).view().insert(url@, v),
                None => final(cache).view() == old(cache).view(),
            },
            _ => !r && final(cache).view() == old(cache).view(),
        },
{
    let mut changed = false;
    match (registry.running_download_url(key), &outcome) {
        (Some(url), Ok(vars)) => {
            changed = record_download(cache, &url, vars);
        },
        _ => {},
    }
    registry.finish_stage(key, outcome);
    changed
}

} // verus!
