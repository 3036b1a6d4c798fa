//! The cache of completed downloads: what each source was saved as, and the
//! listing that is served from it.

use vstd::prelude::*;
use vstd::string::*;
use crate::keyed::KeyedList;
use crate::text::{chars_of, string_of};

verus! {

/// Where the service keeps its files.
#[derive(Debug, Clone, PartialEq, Eq)]
pub struct Config {
    pub download_dir: String,
}

/// What one source was saved as.
#[derive(Debug, Clone, PartialEq, Eq)]
pub struct DownloadedVideo {
    pub location: String,
    pub thumbnail_location: Option<String>,
    pub title: Option<String>,
    pub description: Option<String>,
}

pub fn copy_opt(o: &Option<String>) -> (r: Option<String>)
    ensures
        r == *o,
{
    match o {
        Some(s) => Some(s.clone()),
        None => None,
    }
}

impl DownloadedVideo {
    pub fn copy(&self) -> (r: DownloadedVideo)
        ensures
            r == *self,
    {
        DownloadedVideo {
            location: self.location.clone(),
            thumbnail_location: copy_opt(&self.thumbnail_location),
            title: copy_opt(&self.title),
            description: copy_opt(&self.description),
        }
    }
}

/// Completed downloads, by source identifier.
#[derive(Debug, Clone, PartialEq, Eq)]
pub struct DownloadedVideos {
    pub videos: KeyedList<DownloadedVideo>,
}

impl DownloadedVideos {
    pub open spec fn wf(&self) -> bool {
        self.videos.wf()
    }

    pub open spec fn view(&self) -> Map<Seq<char>, DownloadedVideo> {
        self.videos.map()
    }

    pub fn new() -> (r: DownloadedVideos)
        ensures
            r.wf(),
            r.view() == Map::<Seq<char>, DownloadedVideo>::empty(),
    {
        DownloadedVideos { videos: KeyedList::new() }
    }

    /// The record kept for `source`.
    pub fn lookup(&self, source: &String) -> (r: Option<DownloadedVideo>)
        requires
            self.wf(),
        ensures
            r is None <==> !self.view().contains_key(source@),
            r matches Some(v) ==> v == self.view()[source@],
    {
        match self.videos.get(source) {
            Some(v) => Some(v.copy()),
            None => None,
        }
    }

    /// Keeps `video` as the record for `source`, over any earlier one.
    pub fn record(&mut self, source: String, video: DownloadedVideo)
        requires
            old(self).wf(),
        ensures
            final(self).wf(),
            final(self).view() == old(self).view().insert(source@, video),
    {
        self.videos.insert(source, video);
    }

    /// Adds every record of `loaded`, each over the one kept for its source.
    pub fn merge(&mut self, loaded: DownloadedVideos)
        requires
            old(self).wf(),
            loaded.wf(),
        ensures
            final(self).wf(),
            final(self).view() == old(self).view().union_prefer_right(loaded.view()),
    {
        self.videos.absorb(loaded.videos);
    }

    /// Every record with its source, in storage order.
    pub fn entries(&self) -> (r: Vec<(String, DownloadedVideo)>)
        requires
            self.wf(),
        ensures
            r@.len() == self.videos.entries@.len(),
            forall|i: int| 0 <= i < r@.len() ==> #[trigger] r@[i] == self.videos.entries@[i],
            forall|i: int|
                0 <= i < r@.len() ==> self.view().contains_key((#[trigger] r@[i]).0@)
                    && self.view()[r@[i].0@] == r@[i].1,
            forall|k: Seq<char>|
                self.view().contains_key(k) ==> exists|i: int| 0 <= i < r@.len() && (#[trigger] r@[i]).0@ == k,
            forall|i: int, j: int| 0 <= i < j < r@.len() ==> (#[trigger] r@[i]).0@ != (#[trigger] r@[j]).0@,
    {
        let mut r: Vec<(String, DownloadedVideo)> = Vec::new();
        let n = self.videos.entries.len();
        let mut i: usize = 0;
        while i < n
            invariant
                n == self.videos.entries@.len(),
                i <= n,
                r@.len() == i,
                forall|j: int| 0 <= j < i ==> #[trigger] r@[j] == self.videos.entries@[j],
            decreases n - i,
        {
            let k = self.videos.entries[i].0.clone();
            let v = self.videos.entries[i].1.copy();
            r.push((k, v));
            i = i + 1;
        }
        proof {
            assert forall|i: int|
                0 <= i < r@.len() implies self.view().contains_key((#[trigger] r@[i]).0@)
                && self.view()[r@[i].0@] == r@[i].1 by {
                self.videos.lemma_entry(i);
            }
            assert forall|k: Seq<char>|
                self.view().contains_key(k) implies exists|i: int| 0 <= i < r@.len() && (#[trigger] r@[i]).0@ == k by {
                let j = choose|j: int| 0 <= j < self.videos.entries@.len() && self.videos.key_at(j) == k;
                assert(r@[j].0@ == k);
            }
        }
        r
    }
}

/// Every cached record with its source.
pub fn list_all_downloaded_videos(store: &DownloadedVideos) -> (r: Vec<(String, DownloadedVideo)>)
    requires
        store.wf(),
    ensures
        r@ == store.videos.entries@,
{
    let r = store.entries();
    assert(r@ =~= store.videos.entries@);
    r
}

/// A record read back after it was written is the record written, optional
/// fields included: once `record` has put `video` under `source`, `lookup` of
/// `source` gives `video` back.
pub proof fn lemma_record_round_trip(
    before: DownloadedVideos,
    after: DownloadedVideos,
    source: Seq<char>,
    video: DownloadedVideo,
)
    requires
        before.wf(),
        after.view() == before.view().insert(source, video),
    ensures
        after.view().contains_key(source),
        after.view()[source] == video,
        after.view()[source].location == video.location,
        after.view()[source].thumbnail_location == video.thumbnail_location,
        after.view()[source].title == video.title,
        after.view()[source].description == video.description,
{
}

/// The text a store starts from: what was persisted, or an empty object where
/// nothing was.
pub fn initialize_data(persisted: Option<String>) -> (r: String)
    ensures
        r@ == (match persisted {
            Some(t) => t@,
            None => "{}"@,
        }),
{
    match persisted {
        Some(t) => t,
        None => String::from_str("{}"),
    }
}

/// A component that names no file: empty, `.` or `..`.
pub open spec fn is_dot_like(comp: Seq<char>) -> bool {
    comp.len() == 0 || comp == seq!['.'] || comp == seq!['.', '.']
}

/// Where the file name of `p` stands, reading leftwards from `i` with `p[i..j]`
/// the part of the current component already read.
pub open spec fn name_span_from(p: Seq<char>, i: int, j: int) -> Option<(int, int)>
    decreases i,
{
    if i <= 0 {
        if is_dot_like(p.subrange(0, j)) {
            None
        } else {
            Some((0, j))
        }
    } else if p[i - 1] == '/' {
        let comp = p.subrange(i, j);
        if comp.len() == 0 || comp == seq!['.'] {
            name_span_from(p, i - 1, i - 1)
        } else if comp == seq!['.', '.'] {
            None
        } else {
            Some((i, j))
        }
    } else {
        name_span_from(p, i - 1, j)
    }
}

/// Where the last normal component of a `/`-separated path stands, as
/// `Path::file_name` finds it: trailing separators and `.` components are passed
/// over, and a path that ends in `..`, or has no normal component, has none.
pub open spec fn name_span(p: Seq<char>) -> Option<(int, int)> {
    name_span_from(p, p.len() as int, p.len() as int)
}

/// The file name of a path.
pub open spec fn file_name_of(p: Seq<char>) -> Option<Seq<char>> {
    match name_span(p) {
        Some((s, e)) => Some(p.subrange(s, e)),
        None => None,
    }
}

fn is_dot_like_exec(v: &Vec<char>, from: usize, to: usize) -> (r: (bool, bool))
    requires
        from <= to <= v@.len(),
    ensures
        r.0 == (v@.subrange(from as int, to as int).len() == 0 || v@.subrange(from as int, to as int)
            == seq!['.']),
        r.1 == (v@.subrange(from as int, to as int) == seq!['.', '.']),
{
    let ghost comp = v@.subrange(from as int, to as int);
    let len = to - from;
    let one = len == 1 && v[from] == '.';
    let two = len == 2 && v[from] == '.' && v[from + 1] == '.';
    proof {
        if len == 1 {
            assert(one ==> comp =~= seq!['.']);
            assert(comp == seq!['.'] ==> comp[0] == '.');
        }
        if len == 2 {
            assert(two ==> comp =~= seq!['.', '.']);
            assert(comp == seq!['.', '.'] ==> comp[0] == '.' && comp[1] == '.');
        }
        assert(comp.len() != 2 ==> comp != seq!['.', '.']);
        assert(comp.len() != 1 ==> comp != seq!['.']);
    }
    (len == 0 || one, two)
}

/// Where the file name of the path `v` stands.
pub fn file_name_span(v: &Vec<char>) -> (r: Option<(usize, usize)>)
    ensures
        r is None <==> name_span(v@) is None,
        r matches Some((s, e)) ==> name_span(v@) == Some((s as int, e as int)) && s <= e <= v@.len(),
{
    let mut i: usize = v.len();
    let mut j: usize = v.len();
    loop
        invariant
            i <= j <= v@.len(),
            name_span_from(v@, i as int, j as int) == name_span(v@),
        decreases i,
    {
        if i == 0 {
            let (skip, dots) = is_dot_like_exec(&v, i, j);
            if skip || dots {
                return None;
            }
            return Some((i, j));
        }
        if v[i - 1] == '/' {
            let (skip, dots) = is_dot_like_exec(&v, i, j);
            if skip {
                i = i - 1;
                j = i;
            } else if dots {
                return None;
            } else {
                return Some((i, j));
            }
        } else {
            i = i - 1;
        }
    }
}

/// The last normal component of `path`.
pub fn file_name(path: &str) -> (r: Option<String>)
    ensures
        r is None <==> file_name_of(path@) is None,
        r matches Some(n) ==> file_name_of(path@) == Some(n@),
{
    let v = chars_of(path);
    match file_name_span(&v) {
        Some((s, e)) => Some(string_of(&v, s, e)),
        None => None,
    }
}

/// A listing entry for a cached source: its identifier, where its video and
/// thumbnail are served, its title and description.
#[derive(Debug, Clone, PartialEq, Eq)]
pub struct SourceVideo {
    pub url: String,
    pub video_data: Option<String>,
    pub thumbnail_data: Option<String>,
    pub title: Option<String>,
    pub description: Option<String>,
}

pub open spec fn opt_view(o: Option<String>) -> Option<Seq<char>> {
    match o {
        Some(s) => Some(s@),
        None => None,
    }
}

/// Where a stored file is served: under `/img/`, by its file name.
pub open spec fn served_at(path: Seq<char>) -> Option<Seq<char>> {
    match file_name_of(path) {
        Some(n) => Some("/img/"@ + n),
        None => None,
    }
}

pub open spec fn served_thumbnail(thumbnail: Option<String>) -> Option<Seq<char>> {
    match thumbnail {
        Some(t) => served_at(t@),
        None => None,
    }
}

/// The listing entry for `video`, saved from `url`.
pub open spec fn source_video_matches(s: SourceVideo, url: String, video: DownloadedVideo) -> bool {
    &&& s.url@ == url@
    &&& opt_view(s.video_data) == served_at(video.location@)
    &&& opt_view(s.thumbnail_data) == served_thumbnail(video.thumbnail_location)
    &&& s.title == video.title
    &&& s.description == video.description
}

fn served_path(path: &str) -> (r: Option<String>)
    ensures
        opt_view(r) == served_at(path@),
{
    match file_name(path) {
        Some(n) => {
            let s = String::from_str("/img/");
            Some(s.concat(n.as_str()))
        },
        None => None,
    }
}

/// The listing entry for one cached source.
pub fn source_video(url: &String, video: &DownloadedVideo) -> (r: SourceVideo)
    ensures
        source_video_matches(r, *url, *video),
{
    let thumbnail_data = match &video.thumbnail_location {
        Some(t) => served_path(t.as_str()),
        None => None,
    };
    SourceVideo {
        url: url.clone(),
        video_data: served_path(video.location.as_str()),
        thumbnail_data,
        title: copy_opt(&video.title),
        description: copy_opt(&video.description),
    }
}

/// The listing of every cached source, in storage order.
pub fn list_source_videos(store: &DownloadedVideos) -> (r: Vec<SourceVideo>)
    requires
        store.wf(),
    ensures
        r@.len() == store.videos.entries@.len(),
        forall|i: int|
            0 <= i < r@.len() ==> source_video_matches(
                #[trigger] r@[i],
                store.videos.entries@[i].0,
                store.videos.entries@[i].1,
            ),
{
    let list = store.entries();
    let mut r: Vec<SourceVideo> = Vec::new();
    let mut i: usize = 0;
    while i < list.len()
        invariant
            list@ == store.videos.entries@,
            i <= list@.len(),
            r@.len() == i,
            forall|j: int|
                0 <= j < i ==> source_video_matches(
                    #[trigger] r@[j],
                    store.videos.entries@[j].0,
                    store.videos.entries@[j].1,
                ),
        decreases list@.len() - i,
    {
        r.push(source_video(&list[i].0, &list[i].1));
        i = i + 1;
    }
    r
}

} // verus!
