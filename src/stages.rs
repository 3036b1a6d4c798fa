//! The work of each stage, apart from running its process: the command line it
//! runs, how its output reports progress, and what it leaves for later stages.

use vstd::prelude::*;
use vstd::string::*;
use crate::bag::{
    path_in, Value, VariableBag, CUT_VIDEO, ORIGINAL_DOWNLOAD_PATH, ORIGINAL_THUMBNAIL_PATH,
};
use crate::paths::{
    downloaded_paths_spec, extension, extension_of, get_downloaded_paths, matching_paths,
    set_extension, set_extension_of,
};
use crate::progress_line::{total_millis, total_millis_spec};
use crate::store::{file_name, file_name_of};
use crate::text::{decimal, decimal_string, push_signed_decimal, signed_decimal};

verus! {

/// How a finished child process ended.
#[derive(Debug, Clone, PartialEq, Eq)]
pub enum ChildExit {
    /// Waiting for the process failed, with this message.
    WaitFailed(String),
    /// The process ended, with its exit code where it has one (a process that a
    /// signal ended has none). Zero is success.
    Exited(Option<i32>),
}

/// What a finished process means for its stage.
pub open spec fn exit_result(exit: ChildExit) -> Result<(), Seq<char>> {
    match exit {
        ChildExit::WaitFailed(e) => Err("child process encountered an error: "@ + e@),
        ChildExit::Exited(None) => Err("child process failed to exit with a valid exit code"@),
        ChildExit::Exited(Some(code)) => if code == 0 {
            Ok(())
        } else {
            Err("child process exited with error code: "@ + signed_decimal(code as int))
        },
    }
}

/// Maps the end of a child process to the stage's success or its failure message.
pub fn handle_child_exit(exit: &ChildExit) -> (r: Result<(), String>)
    ensures
        r is Ok <==> exit_result(*exit) is Ok,
        r matches Err(e) ==> exit_result(*exit) == Err::<(), Seq<char>>(e@),
{
    match exit {
        ChildExit::WaitFailed(e) => {
            let m = String::from_str("child process encountered an error: ");
            Err(m.concat(e.as_str()))
        },
        ChildExit::Exited(None) => Err(
            String::from_str("child process failed to exit with a valid exit code"),
        ),
        ChildExit::Exited(Some(code)) => {
            if *code == 0 {
                Ok(())
            } else {
                let mut m = String::from_str("child process exited with error code: ");
                push_signed_decimal(&mut m, *code);
                Err(m)
            }
        },
    }
}

/// How the lines a stage's process prints report progress.
#[derive(Debug, Clone, PartialEq, Eq)]
pub enum ProgressWatch {
    /// Downloader lines: `[download]` with a percentage.
    Downloader,
    /// Media-tool lines: `out_time_us=` against this many milliseconds.
    MediaTool { total_millis: u64 },
}

/// A process for a stage to run: the executable first, then its arguments.
#[derive(Debug, Clone, PartialEq, Eq)]
pub struct StageCommand {
    pub exe_and_args: Vec<String>,
    pub watch: ProgressWatch,
}

pub open spec fn views(v: Seq<String>) -> Seq<Seq<char>> {
    v.map_values(|s: String| s@)
}

fn push_arg(args: &mut Vec<String>, a: &str)
    ensures
        views(final(args)@) == views(old(args)@).push(a@),
{
    args.push(String::from_str(a));
    assert(views(final(args)@) =~= views(old(args)@).push(a@));
}

fn push_string(args: &mut Vec<String>, a: String)
    ensures
        views(final(args)@) == views(old(args)@).push(a@),
{
    let ghost v = a@;
    args.push(a);
    assert(views(final(args)@) =~= views(old(args)@).push(v));
}

/// The downloader's command line for `url`, writing files named after `key`.
pub open spec fn download_args(key: Seq<char>, url: Seq<char>) -> Seq<Seq<char>> {
    seq![
        "youtube-dl"@,
        "--newline"@,
        "--ignore-config"@,
        "--write-info-json"@,
        "--write-thumbnail"@,
        url,
        "-o"@,
        key + ".%(ext)s"@,
    ]
}

/// The download stage's process: the downloader, with its info file and thumbnail.
pub fn download_video(key: &str, url: &str) -> (r: StageCommand)
    ensures
        views(r.exe_and_args@) == download_args(key@, url@),
        r.watch == ProgressWatch::Downloader,
{
    let mut args: Vec<String> = Vec::new();
    push_arg(&mut args, "youtube-dl");
    push_arg(&mut args, "--newline");
    push_arg(&mut args, "--ignore-config");
    push_arg(&mut args, "--write-info-json");
    push_arg(&mut args, "--write-thumbnail");
    push_arg(&mut args, url);
    push_arg(&mut args, "-o");
    let out = String::from_str(key).concat(".%(ext)s");
    push_string(&mut args, out);
    assert(views(args@) =~= download_args(key@, url@));
    StageCommand { exe_and_args: args, watch: ProgressWatch::Downloader }
}

/// What the download stage leaves: the video's path, and the thumbnail's where one
/// was written.
pub open spec fn download_vars_ok(bag: VariableBag, found: (String, Option<String>, Option<String>)) -> bool {
    &&& bag.wf()
    &&& bag.view().contains_key(ORIGINAL_DOWNLOAD_PATH@)
    &&& bag.view()[ORIGINAL_DOWNLOAD_PATH@] == Value::Path(found.0)
    &&& match found.2 {
        Some(t) => bag.view() == map![ORIGINAL_DOWNLOAD_PATH@ => Value::Path(found.0), ORIGINAL_THUMBNAIL_PATH@ => Value::Path(t)],
        None => bag.view() == map![ORIGINAL_DOWNLOAD_PATH@ => Value::Path(found.0)],
    }
}

proof fn lemma_var_keys_differ()
    ensures
        ORIGINAL_DOWNLOAD_PATH@ != ORIGINAL_THUMBNAIL_PATH@,
{
    reveal_strlit("original_download_path");
    reveal_strlit("original_thumbnail_path");
    assert(ORIGINAL_DOWNLOAD_PATH@[9] != ORIGINAL_THUMBNAIL_PATH@[9]);
}

/// What the download stage's end gives for a process end and a directory listing.
pub open spec fn download_finished_spec(
    key: Seq<char>,
    exit: ChildExit,
    listing: Result<Vec<(String, String)>, String>,
    r: Result<VariableBag, String>,
) -> bool {
    &&& exit_result(exit) matches Err(e) ==> (r matches Err(m) && m@ == e)
    &&& exit_result(exit) is Ok ==> match listing {
            Err(le) => r matches Err(m) && m@ == le@,
            Ok(entries) => {
                let paths = matching_paths(entries@, key);
                if paths.len() == 0 {
                    r matches Err(m) && m@ == "Failed to find anything matching "@ + key
                } else {
                    match downloaded_paths_spec(paths) {
                        None => r matches Err(m) && m@ == "Failed to find output path after download"@,
                        Some(found) => r matches Ok(bag) && download_vars_ok(bag, found),
                    }
                }
            },
        }
}

/// The end of the download stage. `listing` is the working directory's entries
/// (file name, path), read after the process ended. The stage fails where the
/// process failed, the listing failed, or no video file named after `key` is there.
pub fn download_video_finished(
    key: &str,
    exit: &ChildExit,
    listing: Result<Vec<(String, String)>, String>,
) -> (r: Result<VariableBag, String>)
    ensures
        download_finished_spec(key@, *exit, listing, r),
{
    match handle_child_exit(exit) {
        Err(e) => return Err(e),
        Ok(()) => {},
    }
    let entries = match listing {
        Err(e) => return Err(e),
        Ok(entries) => entries,
    };
    let (output, _info, thumbnail) = match get_downloaded_paths(key, &entries) {
        Err(e) => return Err(e),
        Ok(found) => found,
    };
    proof {
        lemma_var_keys_differ();
    }
    let mut vars = VariableBag::new();
    let ghost out_path = output;
    vars.insert_var(ORIGINAL_DOWNLOAD_PATH, Value::Path(output));
    match thumbnail {
        Some(t) => {
            let ghost tp = t;
            vars.insert_var(ORIGINAL_THUMBNAIL_PATH, Value::Path(t));
            assert(vars.view() =~= map![ORIGINAL_DOWNLOAD_PATH@ => Value::Path(out_path), ORIGINAL_THUMBNAIL_PATH@ => Value::Path(tp)]);
        },
        None => {
            assert(vars.view() =~= map![ORIGINAL_DOWNLOAD_PATH@ => Value::Path(out_path)]);
        },
    }
    Ok(vars)
}

/// Which part of the source the cut keeps: from `start` seconds, for `duration`
/// seconds.
#[derive(Debug, Clone, PartialEq, Eq)]
pub struct SplitRequest {
    pub start: Option<u32>,
    pub duration: Option<u32>,
}

/// What the transcode stage makes: the extension of the target format, and how many
/// seconds it lasts.
#[derive(Debug, Clone, PartialEq, Eq)]
pub struct TranscodeRequest {
    pub transcode_extension: Option<String>,
    pub duration: Option<u32>,
}

/// The arguments every media-tool run starts with.
pub open spec fn media_prefix() -> Seq<Seq<char>> {
    seq!["ffmpeg"@, "-loglevel"@, "error"@, "-hide_banner"@, "-stats"@, "-progress"@, "pipe:1"@]
}

fn media_prefix_args() -> (r: Vec<String>)
    ensures
        views(r@) == media_prefix(),
{
    let mut args: Vec<String> = Vec::new();
    push_arg(&mut args, "ffmpeg");
    push_arg(&mut args, "-loglevel");
    push_arg(&mut args, "error");
    push_arg(&mut args, "-hide_banner");
    push_arg(&mut args, "-stats");
    push_arg(&mut args, "-progress");
    push_arg(&mut args, "pipe:1");
    assert(views(args@) =~= media_prefix());
    args
}

pub open spec fn opt_flag(flag: Seq<char>, value: Option<u32>) -> Seq<Seq<char>> {
    match value {
        Some(v) => seq![flag, decimal(v as nat)],
        None => Seq::empty(),
    }
}

/// The clip's output path: the requested name, with the input's extension
/// (`mkv` where the input has none).
pub open spec fn cut_output_path(input: Seq<char>, output_file_name: Seq<char>) -> Seq<char> {
    set_extension_of(
        output_file_name,
        match extension_of(input) {
            Some(e) => e,
            None => "mkv"@,
        },
    )
}

/// The media tool's command line for cutting `input` into `output`, copying the
/// streams.
pub open spec fn cut_args(input: Seq<char>, output: Seq<char>, split: SplitRequest) -> Seq<Seq<char>> {
    media_prefix() + seq!["-i"@, input] + opt_flag("-ss"@, split.start) + opt_flag(
        "-t"@,
        split.duration,
    ) + seq!["-acodec"@, "copy"@, "-vcodec"@, "copy"@, "-y"@, output]
}

fn cut_command(input: &String, out: &String, split: &SplitRequest) -> (r: Vec<String>)
    ensures
        views(r@) == cut_args(input@, out@, *split),
{
    let mut args = media_prefix_args();
    push_arg(&mut args, "-i");
    push_string(&mut args, input.clone());
    let ghost base = views(args@);
    match split.start {
        Some(s) => {
            push_arg(&mut args, "-ss");
            push_string(&mut args, decimal_string(s));
        },
        None => {},
    }
    assert(views(args@) =~= base + opt_flag("-ss"@, split.start));
    let ghost base2 = views(args@);
    match split.duration {
        Some(d) => {
            push_arg(&mut args, "-t");
            push_string(&mut args, decimal_string(d));
        },
        None => {},
    }
    assert(views(args@) =~= base2 + opt_flag("-t"@, split.duration));
    push_arg(&mut args, "-acodec");
    push_arg(&mut args, "copy");
    push_arg(&mut args, "-vcodec");
    push_arg(&mut args, "copy");
    push_arg(&mut args, "-y");
    push_string(&mut args, out.clone());
    assert(views(args@) =~= cut_args(input@, out@, *split));
    args
}

/// What the cut stage runs, and the clip it writes, for a bag and a request.
pub open spec fn cut_video_spec(
    bag: Map<Seq<char>, Value>,
    output_file_name: Seq<char>,
    split: SplitRequest,
    r: Result<(StageCommand, String), String>,
) -> bool {
    match path_in(bag, ORIGINAL_DOWNLOAD_PATH@) {
        None => r matches Err(m) && m@ == "Failed to find input file"@,
        Some(input) => r matches Ok((cmd, out)) && out@ == cut_output_path(input@, output_file_name)
            && views(cmd.exe_and_args@) == cut_args(input@, out@, split) && cmd.watch
            == (ProgressWatch::MediaTool { total_millis: total_millis_spec(split.duration) }),
    }
}

/// The cut stage's process: the media tool on the downloaded source, writing the
/// clip to `output_file_name` with the source's extension. It fails where the bag
/// holds no downloaded path.
pub fn cut_video(bag: &VariableBag, output_file_name: &str, split: &SplitRequest) -> (r: Result<
    (StageCommand, String),
    String,
>)
    requires
        bag.wf(),
    ensures
        cut_video_spec(bag.view(), output_file_name@, *split, r),
{
    let input = match bag.get_path(ORIGINAL_DOWNLOAD_PATH) {
        Some(p) => p,
        None => return Err(String::from_str("Failed to find input file")),
    };
    let ext = match extension(input.as_str()) {
        Some(e) => e,
        None => String::from_str("mkv"),
    };
    let out = set_extension(output_file_name, ext.as_str());
    let args = cut_command(&input, &out, split);
    let cmd = StageCommand {
        exe_and_args: args,
        watch: ProgressWatch::MediaTool { total_millis: total_millis(split.duration) },
    };
    Ok((cmd, out))
}

/// The end of the cut stage: the clip's path is left under `cut_video`.
pub fn cut_video_finished(exit: &ChildExit, output: String) -> (r: Result<VariableBag, String>)
    ensures
        exit_result(*exit) matches Err(e) ==> (r matches Err(m) && m@ == e),
        exit_result(*exit) is Ok ==> (r matches Ok(bag) && bag.wf() && bag.view() == map![CUT_VIDEO@ => Value::Path(output)]),
{
    match handle_child_exit(exit) {
        Err(e) => return Err(e),
        Ok(()) => {},
    }
    let mut vars = VariableBag::new();
    let ghost out = output;
    vars.insert_var(CUT_VIDEO, Value::Path(output));
    assert(vars.view() =~= map![CUT_VIDEO@ => Value::Path(out)]);
    Ok(vars)
}

/// The file the transcode reads: the cut clip, else the downloaded source.
pub open spec fn transcode_input(bag: Map<Seq<char>, Value>) -> Option<String> {
    match path_in(bag, CUT_VIDEO@) {
        Some(p) => Some(p),
        None => path_in(bag, ORIGINAL_DOWNLOAD_PATH@),
    }
}

pub open spec fn transcode_args(input: Seq<char>, output: Seq<char>) -> Seq<Seq<char>> {
    media_prefix() + seq!["-i"@, input, "-y"@, output]
}

/// What the transcode stage runs for a bag and a request.
pub open spec fn transcode_clip_spec(
    bag: Map<Seq<char>, Value>,
    request: TranscodeRequest,
    r: Result<Option<StageCommand>, String>,
) -> bool {
        match request.transcode_extension {
            None => r matches Ok(None),
            Some(ext) => match transcode_input(bag) {
                None => r matches Err(m) && m@ == "Failed to find input file"@,
                Some(input) => {
                    let target = set_extension_of(input@, ext@);
                    match file_name_of(target) {
                        None => r matches Err(m) && m@ == "File path contains invalid characters: "@ + target,
                        Some(name) => r matches Ok(Some(cmd)) && views(cmd.exe_and_args@)
                            == transcode_args(input@, name) && cmd.watch == (ProgressWatch::MediaTool {
                            total_millis: total_millis_spec(request.duration),
                        }),
                    }
                },
            },
        }
}

/// The transcode stage's process, or nothing to run where no target format was
/// asked for. The output is the input's file name with the target extension. It
/// fails where the bag holds no input, or the new path names no file.
pub fn transcode_clip(bag: &VariableBag, request: &TranscodeRequest) -> (r: Result<
    Option<StageCommand>,
    String,
>)
    requires
        bag.wf(),
    ensures
        transcode_clip_spec(bag.view(), *request, r),
{
    let ext = match &request.transcode_extension {
        None => return Ok(None),
        Some(e) => e,
    };
    let input = match bag.get_path(CUT_VIDEO) {
        Some(p) => p,
        None => match bag.get_path(ORIGINAL_DOWNLOAD_PATH) {
            Some(p) => p,
            None => return Err(String::from_str("Failed to find input file")),
        },
    };
    let target = set_extension(input.as_str(), ext.as_str());
    let name = match file_name(target.as_str()) {
        Some(n) => n,
        None => {
            let m = String::from_str("File path contains invalid characters: ");
            return Err(m.concat(target.as_str()));
        },
    };
    let mut args = media_prefix_args();
    push_arg(&mut args, "-i");
    push_string(&mut args, input.clone());
    push_arg(&mut args, "-y");
    push_string(&mut args, name.clone());
    assert(views(args@) =~= transcode_args(input@, name@));
    Ok(
        Some(
            StageCommand {
                exe_and_args: args,
                watch: ProgressWatch::MediaTool { total_millis: total_millis(request.duration) },
            },
        ),
    )
}

/// The end of the transcode stage, which leaves nothing for later stages.
pub fn transcode_clip_finished(exit: &ChildExit) -> (r: Result<VariableBag, String>)
    ensures
        exit_result(*exit) matches Err(e) ==> (r matches Err(m) && m@ == e),
        exit_result(*exit) is Ok ==> (r matches Ok(bag) && bag.wf() && bag.view() == Map::<Seq<char>, Value>::empty()),
{
    match handle_child_exit(exit) {
        Err(e) => Err(e),
        Ok(()) => Ok(VariableBag::new()),
    }
}

} // verus!
