//! Picking out what a download produced: the video, its info file and its thumbnail.

use vstd::prelude::*;
use vstd::string::*;
use crate::store::{file_name, file_name_of, file_name_span, name_span};
use crate::text::{chars_of, contains_seq, find_seq, push_char, string_of};

verus! {

/// The index of the last `c` in `s`, or -1.
pub open spec fn last_index_of(s: Seq<char>, c: char) -> int {
    if exists|i: int| 0 <= i < s.len() && s[i] == c {
        choose|i: int| 0 <= i < s.len() && s[i] == c && forall|j: int| i < j < s.len() ==> s[j] != c
    } else {
        -1
    }
}

proof fn lemma_last_index(s: Seq<char>, c: char, k: int)
    requires
        -1 <= k < s.len(),
        k >= 0 ==> s[k] == c,
        forall|j: int| k < j < s.len() ==> s[j] != c,
    ensures
        last_index_of(s, c) == k,
{
    if k >= 0 {
        let m = choose|i: int| 0 <= i < s.len() && s[i] == c && forall|j: int| i < j < s.len() ==> s[j] != c;
        assert(!(m < k));
        assert(!(k < m));
    }
}

/// The extension of a file name, as `Path::extension` gives it: what follows the
/// last `.`, where that dot is not the name's first character.
pub open spec fn extension_of_name(name: Seq<char>) -> Option<Seq<char>> {
    let k = last_index_of(name, '.');
    if k <= 0 {
        None
    } else {
        Some(name.subrange(k + 1, name.len() as int))
    }
}

/// The extension of the file a path names.
pub open spec fn extension_of(p: Seq<char>) -> Option<Seq<char>> {
    match file_name_of(p) {
        Some(n) => extension_of_name(n),
        None => None,
    }
}

/// The extension of the file `path` names.
pub fn extension(path: &str) -> (r: Option<String>)
    ensures
        r is None <==> extension_of(path@) is None,
        r matches Some(e) ==> extension_of(path@) == Some(e@),
{
    let name = match file_name(path) {
        Some(n) => n,
        None => return None,
    };
    let v = chars_of(name.as_str());
    let mut k: usize = v.len();
    while k > 0 && v[k - 1] != '.'
        invariant
            k <= v@.len(),
            forall|j: int| k <= j < v@.len() ==> v@[j] != '.',
        decreases k,
    {
        k = k - 1;
    }
    proof {
        lemma_last_index(v@, '.', k - 1);
    }
    if k <= 1 {
        return None;
    }
    Some(string_of(&v, k, v.len()))
}

pub open spec fn is_thumbnail_extension(e: Seq<char>) -> bool {
    e == "jpg"@ || e == "jpeg"@ || e == "png"@ || e == "JPG"@ || e == "JPEG"@ || e == "PNG"@
        || e == "webp"@ || e == "gif"@ || e == "bmp"@
}

pub open spec fn is_video_extension(e: Seq<char>) -> bool {
    e == "mp4"@ || e == "mkv"@ || e == "ts"@ || e == "webm"@ || e == "avi"@ || e == "mov"@
        || e == "qt"@ || e == "vob"@ || e == "3gp"@ || e == "wmv"@
}

fn is_one_of(e: &String, names: &Vec<&str>) -> (r: bool)
    ensures
        r == exists|i: int| 0 <= i < names@.len() && e@ == names@[i]@,
{
    let mut i: usize = 0;
    while i < names.len()
        invariant
            i <= names@.len(),
            forall|j: int| 0 <= j < i ==> e@ != names@[j]@,
        decreases names@.len() - i,
    {
        if *e == String::from_str(names[i]) {
            return true;
        }
        i = i + 1;
    }
    false
}

pub fn thumbnail_extension(e: &String) -> (r: bool)
    ensures
        r == is_thumbnail_extension(e@),
{
    let names = vec!["jpg", "jpeg", "png", "JPG", "JPEG", "PNG", "webp", "gif", "bmp"];
    let r = is_one_of(e, &names);
    proof {
        if is_thumbnail_extension(e@) {
            if e@ == "jpg"@ { assert(e@ == names@[0]@); }
            if e@ == "jpeg"@ { assert(e@ == names@[1]@); }
            if e@ == "png"@ { assert(e@ == names@[2]@); }
            if e@ == "JPG"@ { assert(e@ == names@[3]@); }
            if e@ == "JPEG"@ { assert(e@ == names@[4]@); }
            if e@ == "PNG"@ { assert(e@ == names@[5]@); }
            if e@ == "webp"@ { assert(e@ == names@[6]@); }
            if e@ == "gif"@ { assert(e@ == names@[7]@); }
            if e@ == "bmp"@ { assert(e@ == names@[8]@); }
        }
    }
    r
}

pub fn video_extension(e: &String) -> (r: bool)
    ensures
        r == is_video_extension(e@),
{
    let names = vec!["mp4", "mkv", "ts", "webm", "avi", "mov", "qt", "vob", "3gp", "wmv"];
    let r = is_one_of(e, &names);
    proof {
        if is_video_extension(e@) {
            if e@ == "mp4"@ { assert(e@ == names@[0]@); }
            if e@ == "mkv"@ { assert(e@ == names@[1]@); }
            if e@ == "ts"@ { assert(e@ == names@[2]@); }
            if e@ == "webm"@ { assert(e@ == names@[3]@); }
            if e@ == "avi"@ { assert(e@ == names@[4]@); }
            if e@ == "mov"@ { assert(e@ == names@[5]@); }
            if e@ == "qt"@ { assert(e@ == names@[6]@); }
            if e@ == "vob"@ { assert(e@ == names@[7]@); }
            if e@ == "3gp"@ { assert(e@ == names@[8]@); }
            if e@ == "wmv"@ { assert(e@ == names@[9]@); }
        }
    }
    r
}

/// What a download produced so far: the video, the info file and the thumbnail.
pub type Found = (Option<String>, Option<String>, Option<String>);

/// One path considered: the first `json` file is the info file, the first
/// thumbnail-type file the thumbnail, the first video-type file the video.
pub open spec fn classify_step(found: Found, path: String) -> Found {
    match extension_of(path@) {
        None => found,
        Some(e) => if e == "json"@ && found.1 is None {
            (found.0, Some(path), found.2)
        } else if is_thumbnail_extension(e) && found.2 is None {
            (found.0, found.1, Some(path))
        } else if is_video_extension(e) && found.0 is None {
            (Some(path), found.1, found.2)
        } else {
            found
        },
    }
}

/// The paths considered in order.
pub open spec fn classify(paths: Seq<String>) -> Found
    decreases paths.len(),
{
    if paths.len() == 0 {
        (None, None, None)
    } else {
        classify_step(classify(paths.drop_last()), paths.last())
    }
}

pub open spec fn downloaded_paths_spec(paths: Seq<String>) -> Option<(String, Option<String>, Option<String>)> {
    match classify(paths) {
        (Some(o), i, t) => Some((o, i, t)),
        (None, _, _) => None,
    }
}

/// Picks the video, the info file and the thumbnail out of what a download wrote.
/// It fails where no video file is among them.
pub fn get_downloaded_paths_from_vec(output_paths: Vec<String>) -> (r: Result<
    (String, Option<String>, Option<String>),
    String,
>)
    ensures
        r is Ok <==> downloaded_paths_spec(output_paths@) is Some,
        r matches Ok(t) ==> downloaded_paths_spec(output_paths@) == Some(t),
        r matches Err(e) ==> e@ == "Failed to find output path after download"@,
{
    let mut found: Found = (None, None, None);
    let n = output_paths.len();
    let mut rest = output_paths;
    let ghost all = rest@;
    let mut i: usize = 0;
    while i < n
        invariant
            n == all.len(),
            i <= n,
            found == classify(all.subrange(0, i as int)),
            rest@ == all,
        decreases n - i,
    {
        let path = rest[i].clone();
        proof {
            assert(all.subrange(0, i + 1).drop_last() =~= all.subrange(0, i as int));
        }
        match extension(path.as_str()) {
            None => {},
            Some(e) => {
                if e == String::from_str("json") && found.1.is_none() {
                    found = (found.0, Some(path), found.2);
                } else if thumbnail_extension(&e) && found.2.is_none() {
                    found = (found.0, found.1, Some(path));
                } else if video_extension(&e) && found.0.is_none() {
                    found = (Some(path), found.1, found.2);
                }
            },
        }
        i = i + 1;
    }
    assert(all.subrange(0, n as int) =~= all);
    match found {
        (Some(o), info, thumb) => Ok((o, info, thumb)),
        (None, _, _) => Err(String::from_str("Failed to find output path after download")),
    }
}

/// The paths of the entries whose file name contains `m`, in order.
pub open spec fn matching_paths(entries: Seq<(String, String)>, m: Seq<char>) -> Seq<String>
    decreases entries.len(),
{
    if entries.len() == 0 {
        Seq::empty()
    } else {
        let rest = matching_paths(entries.drop_last(), m);
        if contains_seq(entries.last().0@, m) {
            rest.push(entries.last().1)
        } else {
            rest
        }
    }
}

/// Keeps the paths of the directory entries (file name, path) whose name contains
/// `matching`. It fails where none does.
pub fn find_file_paths_matching(matching: &str, entries: &Vec<(String, String)>) -> (r: Result<
    Vec<String>,
    String,
>)
    ensures
        r is Ok <==> matching_paths(entries@, matching@).len() > 0,
        r matches Ok(v) ==> v@ == matching_paths(entries@, matching@),
        r matches Err(e) ==> e@ == "Failed to find anything matching "@ + matching@,
{
    let m = chars_of(matching);
    let mut out: Vec<String> = Vec::new();
    let mut i: usize = 0;
    while i < entries.len()
        invariant
            i <= entries@.len(),
            m@ == matching@,
            out@ == matching_paths(entries@.subrange(0, i as int), matching@),
        decreases entries@.len() - i,
    {
        let name = chars_of(entries[i].0.as_str());
        proof {
            assert(entries@.subrange(0, i + 1).drop_last() =~= entries@.subrange(0, i as int));
        }
        if find_seq(&name, &m).is_some() {
            out.push(entries[i].1.clone());
        }
        i = i + 1;
    }
    assert(entries@.subrange(0, entries@.len() as int) =~= entries@);
    if out.len() == 0 {
        let e = String::from_str("Failed to find anything matching ");
        return Err(e.concat(matching));
    }
    Ok(out)
}

/// What `get_downloaded_paths` gives for a directory listing.
pub open spec fn downloaded_from_listing(
    matching: Seq<char>,
    entries: Seq<(String, String)>,
    r: Result<(String, Option<String>, Option<String>), String>,
) -> bool {
    let paths = matching_paths(entries, matching);
    if paths.len() == 0 {
        r matches Err(m) && m@ == "Failed to find anything matching "@ + matching
    } else {
        match downloaded_paths_spec(paths) {
            None => r matches Err(m) && m@ == "Failed to find output path after download"@,
            Some(found) => r == Ok::<(String, Option<String>, Option<String>), String>(found),
        }
    }
}

/// Picks the video, the info file and the thumbnail out of the directory entries
/// (file name, path) whose name contains `matching`.
pub fn get_downloaded_paths(matching: &str, entries: &Vec<(String, String)>) -> (r: Result<
    (String, Option<String>, Option<String>),
    String,
>)
    ensures
        downloaded_from_listing(matching@, entries@, r),
{
    match find_file_paths_matching(matching, entries) {
        Err(e) => Err(e),
        Ok(paths) => get_downloaded_paths_from_vec(paths),
    }
}

/// How much of a file name is its stem, as `Path::file_stem` gives it: up to the
/// last `.`, unless that dot is the first character or there is none.
pub open spec fn stem_len(name: Seq<char>) -> int {
    let k = last_index_of(name, '.');
    if k <= 0 {
        name.len() as int
    } else {
        k
    }
}

/// The path with its file's extension replaced, as `PathBuf::set_extension` does:
/// the path is cut just after the file stem and `.ext` is added where `ext` is not
/// empty; a path with no file name stays as it is.
pub open spec fn set_extension_of(p: Seq<char>, ext: Seq<char>) -> Seq<char> {
    match name_span(p) {
        None => p,
        Some((s, e)) => p.subrange(0, s + stem_len(p.subrange(s, e))) + if ext.len() > 0 {
            seq!['.'] + ext
        } else {
            Seq::empty()
        },
    }
}

/// Replaces the extension of the file `path` names with `ext`.
pub fn set_extension(path: &str, ext: &str) -> (r: String)
    ensures
        r@ == set_extension_of(path@, ext@),
{
    let v = chars_of(path);
    let (s, e) = match file_name_span(&v) {
        None => return String::from_str(path),
        Some(span) => span,
    };
    let mut k: usize = e;
    while k > s && v[k - 1] != '.'
        invariant
            s <= k <= e <= v@.len(),
            forall|j: int| k <= j < e ==> v@[j] != '.',
        decreases k,
    {
        k = k - 1;
    }
    let ghost name = v@.subrange(s as int, e as int);
    proof {
        assert forall|j: int| (k - s) as int <= j < name.len() implies name[j] != '.' by {
            assert(name[j] == v@[s + j]);
        }
        if k > s {
            assert(name[k - s - 1] == v@[k - 1]);
        }
        lemma_last_index(name, '.', k - s - 1);
    }
    let stem_end = if k - s <= 1 { e } else { k - 1 };
    let mut r = string_of(&v, 0, stem_end);
    let ext_len = ext.unicode_len();
    if ext_len > 0 {
        push_char(&mut r, '.');
        let r2 = r.concat(ext);
        assert(r2@ =~= set_extension_of(path@, ext@));
        r2
    } else {
        assert(r@ =~= set_extension_of(path@, ext@));
        r
    }
}

} // verus!
